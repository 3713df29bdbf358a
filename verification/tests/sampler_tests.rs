use plight::color::{Color, TintProfile};
use plight::config::{ParseMode, StripConf};
use plight::errors::PLightError;
use plight::sampler::{median, parse_image, Raster};
use plight::sequence::LedSequence;

fn geometry(width: usize, height: usize, bottom_gap: usize, corner: usize, thickness: usize) -> StripConf {
    StripConf {
        width,
        height,
        bottom_gap,
        corner_size_p: corner,
        thickness_p: thickness,
        serial_port: "/dev/ttyUSB0".to_string(),
        baudrate: 115200,
        tint: TintProfile::neutral(),
    }
}

fn uniform_raster(width: usize, height: usize, c: Color) -> Raster {
    Raster::new(width, height, vec![c; width * height]).unwrap()
}

#[test]
fn median_of_odd_and_even_counts() {
    let mut odd = vec![3u8, 1, 2];
    assert_eq!(median(&mut odd), Some(2));
    assert_eq!(odd, vec![1, 2, 3]);

    // even count: the lower of the two middle elements
    let mut even = vec![4u8, 1, 3, 2];
    assert_eq!(median(&mut even), Some(2));

    let mut empty: Vec<u8> = Vec::new();
    assert_eq!(median(&mut empty), None);
}

#[test]
fn uniform_image_gives_the_color_for_both_aggregators() {
    let geom = geometry(4, 3, 2, 0, 5);
    let len = geom.len();
    let c = Color::new(17, 200, 99);
    let img = uniform_raster(40, 40, c);
    for mode in [ParseMode::Average, ParseMode::Median] {
        let mut seq = LedSequence::new(len);
        parse_image(&img, &geom, mode, &mut seq).unwrap();
        assert_eq!(seq.len(), len);
        for k in 0..len {
            assert_eq!(*seq.get(k).unwrap(), c, "led {} under {:?}", k, mode);
        }
    }
}

#[test]
fn half_and_half_image_maps_to_the_ring_in_wiring_order() {
    // Strip of 6 LEDs: width 2, height 1, no gap, windows 2 pixels deep on a
    // 4x2 image whose left half is red and right half is blue.
    let geom = geometry(2, 1, 0, 0, 2);
    let len = geom.len();
    assert_eq!(len, 6);
    let red = Color::new(255, 0, 0);
    let blue = Color::new(0, 0, 255);
    let mut pixels = Vec::new();
    for _row in 0..2 {
        pixels.extend_from_slice(&[red, red, blue, blue]);
    }
    let img = Raster::new(4, 2, pixels).unwrap();
    for mode in [ParseMode::Average, ParseMode::Median] {
        let mut seq = LedSequence::new(len);
        parse_image(&img, &geom, mode, &mut seq).unwrap();
        let got: Vec<Color> = (0..len).map(|k| *seq.get(k).unwrap()).collect();
        // bottom right, right edge, top right, top left, left edge, bottom left
        assert_eq!(got, vec![blue, blue, blue, red, red, red], "under {:?}", mode);
    }
}

#[test]
fn average_truncates_per_channel() {
    // One LED windows of 2x2 pixels: 3 black and 1 white pixel average to 63.
    let geom = geometry(2, 1, 0, 0, 2);
    let white = Color::new(255, 255, 255);
    let black = Color::new(0, 0, 0);
    // 4x2 image: in each 2x2 window exactly one white pixel
    let pixels = vec![
        white, black, white, black,
        black, black, black, black,
    ];
    let img = Raster::new(4, 2, pixels).unwrap();
    let mut seq = LedSequence::new(6);
    parse_image(&img, &geom, ParseMode::Average, &mut seq).unwrap();
    let expected = Color::new(63, 63, 63);
    assert_eq!(*seq.get(0).unwrap(), expected);
    // and the median of {0,0,0,255} is the lower middle: 0
    let mut seq2 = LedSequence::new(6);
    parse_image(&img, &geom, ParseMode::Median, &mut seq2).unwrap();
    assert_eq!(*seq2.get(0).unwrap(), black);
}

#[test]
fn inconsistent_geometry_is_rejected_and_leaves_the_frame() {
    // corners larger than the image
    let geom = geometry(4, 3, 2, 100, 5);
    let img = uniform_raster(40, 40, Color::new(1, 2, 3));
    let mut seq = LedSequence::new(geom.len());
    match parse_image(&img, &geom, ParseMode::Average, &mut seq) {
        Err(PLightError::InvalidGeometry { image_width, image_height }) => {
            assert_eq!((image_width, image_height), (40, 40));
        },
        other => panic!("expected invalid geometry, got {:?}", other),
    }
    for k in 0..geom.len() {
        assert_eq!(*seq.get(k).unwrap(), Color::new(0, 0, 0));
    }
}

#[test]
fn bottom_segments_sit_beside_the_gap() {
    // Strip bottom edge of 6 cells with a 2-cell gap in the middle: the ring
    // starts right of the gap (cells 4, 5) and ends left of it (cells 0, 1).
    let geom = geometry(6, 2, 2, 0, 2);
    let len = geom.len();
    assert_eq!(len, 14);
    // 8x8 image, one pixel per bottom cell: column x is colored 10*x
    let mut pixels = Vec::new();
    for _row in 0..8 {
        for x in 0..8u8 {
            pixels.push(Color::new(10 * x, 0, 0));
        }
    }
    let img = Raster::new(8, 8, pixels).unwrap();
    for mode in [ParseMode::Average, ParseMode::Median] {
        let mut seq = LedSequence::new(len);
        parse_image(&img, &geom, mode, &mut seq).unwrap();
        // bottom right half: gap outwards to the corner
        assert_eq!(seq.get(0).unwrap().r, 40, "under {:?}", mode);
        assert_eq!(seq.get(1).unwrap().r, 50, "under {:?}", mode);
        // bottom left half: corner inwards to the gap
        assert_eq!(seq.get(12).unwrap().r, 0, "under {:?}", mode);
        assert_eq!(seq.get(13).unwrap().r, 10, "under {:?}", mode);
    }
}

#[test]
fn raster_rejects_mismatched_buffers() {
    assert!(Raster::new(4, 2, vec![Color::new(0, 0, 0); 7]).is_none());
    assert!(Raster::new(0, 2, Vec::new()).is_none());
    assert!(Raster::new(4, 2, vec![Color::new(0, 0, 0); 8]).is_some());
}

#[test]
fn raster_from_rgb_bytes_reads_pixels_in_order() {
    let bytes = vec![1u8, 2, 3, 4, 5, 6];
    let img = Raster::from_rgb_bytes(2, 1, &bytes).unwrap();
    assert_eq!(img.pixel(0, 0), Color::new(1, 2, 3));
    assert_eq!(img.pixel(1, 0), Color::new(4, 5, 6));
    assert!(Raster::from_rgb_bytes(2, 1, &vec![0u8; 5]).is_none());
}
