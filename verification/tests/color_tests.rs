use plight::color::{ChannelOrder, Color, GammaCurve, TintProfile};

fn neutral() -> TintProfile {
    TintProfile::neutral()
}

#[test]
fn neutral_tint_is_identity() {
    let t = neutral();
    let c = Color::new(12, 200, 255);
    assert_eq!(c.apply_tint(&t), (12, 200, 255));
}

#[test]
fn order_parse_known_strings() {
    assert_eq!(ChannelOrder::parse("RGB"), ChannelOrder::Rgb);
    assert_eq!(ChannelOrder::parse("GRB"), ChannelOrder::Grb);
    assert_eq!(ChannelOrder::parse("BRG"), ChannelOrder::Brg);
    assert_eq!(ChannelOrder::parse("BGR"), ChannelOrder::Bgr);
    assert_eq!(ChannelOrder::parse("RBG"), ChannelOrder::Rbg);
    assert_eq!(ChannelOrder::parse("XYZ"), ChannelOrder::Rgb);
    assert_eq!(ChannelOrder::parse(""), ChannelOrder::Rgb);
}

#[test]
fn order_grb_round_trip() {
    let o = ChannelOrder::Grb;
    let (a, b, c) = o.apply(10, 20, 30);
    assert_eq!((a, b, c), (20, 10, 30));
    assert_eq!(o.unapply(a, b, c), (10, 20, 30));
}

#[test]
fn every_order_is_a_bijection() {
    let orders = [
        ChannelOrder::Rgb,
        ChannelOrder::Grb,
        ChannelOrder::Brg,
        ChannelOrder::Bgr,
        ChannelOrder::Rbg,
    ];
    for o in orders {
        let (a, b, c) = o.apply(1, 2, 3);
        assert_eq!(o.unapply(a, b, c), (1, 2, 3));
        let (x, y, z) = o.unapply(1, 2, 3);
        assert_eq!(o.apply(x, y, z), (1, 2, 3));
    }
}

#[test]
fn brightness_halves_and_rounds() {
    let mut t = neutral();
    t.brightness = [500, 1000, 2000];
    let c = Color::new(101, 101, 200);
    // r: round(0.5 * 101) = 51; g unchanged; b: clamp(2.0 * 200) = 255
    assert_eq!(c.apply_tint(&t), (51, 101, 255));
}

#[test]
fn saturation_zero_averages_channels() {
    let mut t = neutral();
    t.saturation = [0, 0, 0];
    let c = Color::new(30, 60, 90);
    // avg = 60 exactly; every channel collapses to it
    assert_eq!(c.apply_tint(&t), (60, 60, 60));
}

#[test]
fn saturation_boost_spreads_channels() {
    let mut t = neutral();
    t.saturation = [2000, 2000, 2000];
    let c = Color::new(30, 60, 90);
    // avg = 60: r -> 60 + 2*(30-60) = 0, g -> 60, b -> 60 + 2*30 = 120
    assert_eq!(c.apply_tint(&t), (0, 60, 120));
}

#[test]
fn tint_reorders_after_the_math() {
    let mut t = neutral();
    t.order = ChannelOrder::Grb;
    let c = Color::new(1, 2, 3);
    assert_eq!(c.apply_tint(&t), (2, 1, 3));
}

fn gamma_curve(g: f64) -> GammaCurve {
    let mut table: Vec<u8> = Vec::with_capacity(256);
    for v in 0..256u32 {
        let normalized = v as f64 / 255.0;
        let corrected = normalized.powf(1.0 / g);
        table.push((corrected * 255.0).round() as u8);
    }
    GammaCurve::from_table(table).unwrap()
}

#[test]
fn gamma_curve_validity() {
    // a valid curve: 256 entries, 0 to 0, 255 to 255, never decreasing
    let identity: Vec<u8> = (0..=255).collect();
    assert!(GammaCurve::from_table(identity.clone()).is_some());
    // wrong lengths
    assert!(GammaCurve::from_table(identity[..255].to_vec()).is_none());
    // wrong endpoint: full scale must map to full scale
    assert!(GammaCurve::from_table(vec![0u8; 256]).is_none());
    // a decreasing step is not a response curve
    let mut dip = identity;
    dip[100] = 50;
    assert!(GammaCurve::from_table(dip).is_none());
}

#[test]
fn gamma_round_trips_within_rounding_error() {
    // Applying gamma g and then gamma 1/g recovers each channel value up to
    // the rounding done in each table entry.
    let g = 2.2f64;
    let forward = gamma_curve(g);
    let back = gamma_curve(1.0 / g);
    let mut tf = TintProfile::neutral();
    tf.gamma_r = forward;
    let mut tb = TintProfile::neutral();
    tb.gamma_r = back;
    for v in 0..=255u8 {
        let (once, _, _) = Color::new(v, 0, 0).apply_tint(&tf);
        let (twice, _, _) = Color::new(once, 0, 0).apply_tint(&tb);
        let diff = (twice as i32 - v as i32).abs();
        assert!(diff <= 1, "value {} came back as {}", v, twice);
    }
}
