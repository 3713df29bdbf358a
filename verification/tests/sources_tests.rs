use plight::behaviors::{AudioBhv, Behavior, BehaviorMod, SolidBhv};
use plight::color::{Color, TintProfile};
use plight::config::{
    ColorSrcConf, ScreenSrcConf, SourcesConf, StripConf, WallpaperEngine, WallpaperSrcConf,
};
use plight::errors::PLightError;
use plight::sequence::LedSequence;
use plight::sources::{
    gradient_sequence, parse_wallpaper_output, ColorSrc, Source, SourceMod, WallpaperSrc,
    WallpaperStep,
};

fn geometry(width: usize, height: usize, bottom_gap: usize) -> StripConf {
    StripConf {
        width,
        height,
        bottom_gap,
        corner_size_p: 0,
        thickness_p: 10,
        serial_port: "/dev/ttyUSB0".to_string(),
        baudrate: 115200,
        tint: TintProfile::neutral(),
    }
}

#[test]
fn solid_source_fills_the_whole_strip() {
    // width 29, height 15, bottom gap 7: 2*29 + 2*15 - 7 = 81 LEDs
    let geom = geometry(29, 15, 7);
    assert_eq!(geom.len(), 81);
    let mut src = ColorSrc::new([192, 168, 31]);
    let mut seq = LedSequence::new(geom.len());
    src.poll_next(&mut seq);
    assert_eq!(seq.len(), 81);
    for k in 0..81 {
        assert_eq!(*seq.get(k).unwrap(), Color::new(192, 168, 31));
    }
}

#[test]
fn wallpaper_output_parses_the_image_line() {
    let out = b"image: /home/u/wall.png\n".to_vec();
    assert_eq!(parse_wallpaper_output(&out).unwrap(), b"/home/u/wall.png".to_vec());

    let noisy = b"monitor: DP-1\nimage: /a b/c.jpg\nmode: fill\n".to_vec();
    assert_eq!(parse_wallpaper_output(&noisy).unwrap(), b"/a b/c.jpgmode: fill".to_vec());

    assert!(parse_wallpaper_output(&b"no path here".to_vec()).is_none());
    assert!(parse_wallpaper_output(&b"img: x".to_vec()).is_none());
    assert!(parse_wallpaper_output(&Vec::new()).is_none());
}

#[test]
fn wallpaper_source_reuses_and_reloads() {
    let mut src = WallpaperSrc::new(81);
    let out = b"image: /w.png\n".to_vec();
    match src.poll_decision(&out).unwrap() {
        WallpaperStep::Load { path } => assert_eq!(path, b"/w.png".to_vec()),
        other => panic!("expected a load, got {:?}", other),
    }
    // the same answer again: reuse the cached frame
    assert!(matches!(src.poll_decision(&out).unwrap(), WallpaperStep::Reuse));
    // an unparsable answer is the wrong-wallpaper-path error
    let bad = b"garbage".to_vec();
    match src.poll_decision(&bad) {
        Err(PLightError::WrongWallpaperPath { given }) => assert_eq!(given, bad),
        other => panic!("expected a wallpaper path error, got {:?}", other),
    }
}

#[test]
fn gradient_sequence_walks_the_ring() {
    let geom = geometry(2, 2, 0);
    let g: Vec<Color> = (0..7).map(|i| Color::new(i as u8, 0, 0)).collect();
    let colors = gradient_sequence(&g, &geom);
    let reds: Vec<u8> = colors.iter().map(|c| c.r).collect();
    // bottom right, right edge up, top, left edge down, bottom left
    assert_eq!(reds, vec![6, 6, 3, 0, 0, 0, 3, 6]);
}

#[test]
fn get_source_builds_the_configured_variant() {
    let conf = SourcesConf {
        color: ColorSrcConf { color: [10, 20, 30] },
        screen: ScreenSrcConf {},
        wallpaper: WallpaperSrcConf { engine: WallpaperEngine::Swww },
    };
    match SourceMod::Color.get_source(&conf, 81) {
        Source::Color(c) => assert_eq!(c.color, Color::new(10, 20, 30)),
        other => panic!("expected the color source, got {:?}", other),
    }
    match SourceMod::Screen.get_source(&conf, 81) {
        Source::Screen(s) => assert_eq!(s.colors.len(), 81),
        other => panic!("expected the screen source, got {:?}", other),
    }
    match SourceMod::Wallpaper.get_source(&conf, 81) {
        Source::Wallpaper(w) => {
            assert_eq!(w.colors.len(), 81);
            assert!(w.prev_output.is_empty());
        },
        other => panic!("expected the wallpaper source, got {:?}", other),
    }
}

#[test]
fn solid_behavior_passes_frames_through() {
    let b = BehaviorMod::Solid.get_behavior();
    assert_eq!(b, Behavior::Solid(SolidBhv {}));
    let mut seq = LedSequence::new(4);
    seq.set_color(Color::new(9, 9, 9));
    let out = b.poll_next(&seq);
    for k in 0..4 {
        assert_eq!(*out.get(k).unwrap(), Color::new(9, 9, 9));
    }
}

#[test]
fn audio_behavior_scales_the_two_halves() {
    let mut a = AudioBhv::new();
    a.update_levels(1000, 500);
    let b = Behavior::Audio(a);
    let mut seq = LedSequence::new(4);
    seq.set_color(Color::new(100, 100, 100));
    let out = b.poll_next(&seq);
    // first half follows the right channel, second half the left
    assert_eq!(*out.get(0).unwrap(), Color::new(50, 50, 50));
    assert_eq!(*out.get(1).unwrap(), Color::new(50, 50, 50));
    assert_eq!(*out.get(2).unwrap(), Color::new(100, 100, 100));
    assert_eq!(*out.get(3).unwrap(), Color::new(100, 100, 100));
}

#[test]
fn sequence_writes_preserve_the_length() {
    let mut seq = LedSequence::new(3);
    assert_eq!(seq.len(), 3);
    assert!(!seq.is_empty());
    assert!(seq.get(3).is_none());
    seq.set_colors(&vec![Color::new(1, 1, 1); 3]);
    assert_eq!(*seq.get(2).unwrap(), Color::new(1, 1, 1));
    let other = LedSequence::from_colors(vec![Color::new(2, 2, 2); 3]);
    seq.set_sequence(other);
    assert_eq!(*seq.get(0).unwrap(), Color::new(2, 2, 2));
    assert_eq!(seq.len(), 3);
}
