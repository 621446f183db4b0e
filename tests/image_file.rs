use lux::geom::Color;
use lux::image::{Image, Rgb};
use lux::ppm::{parse_number, parse_ppm, split_words};

fn sample_image() -> Image {
    let mut img = Image::new(2, 2);
    img.set_color(0, 0, Rgb::new(255, 0, 0));
    img.set_color(1, 0, Rgb::new(0, 128, 7));
    img.set_color(0, 1, Rgb::new(10, 20, 30));
    img
}

#[test]
fn new_image_is_black() {
    let img = Image::new(3, 2);
    assert_eq!(img.pixels.len(), 6);
    for y in 0..2 {
        for x in 0..3 {
            assert_eq!(img.get_color(x, y), Rgb::black());
        }
    }
}

#[test]
fn set_color_touches_one_pixel() {
    let img = sample_image();
    assert_eq!(img.get_color(1, 0), Rgb::new(0, 128, 7));
    assert_eq!(img.get_color(0, 1), Rgb::new(10, 20, 30));
    assert_eq!(img.get_color(1, 1), Rgb::black());
    assert_eq!(img.pixels[1], Rgb::new(0, 128, 7));
}

#[test]
fn set_row_replaces_one_row() {
    let mut img = sample_image();
    img.set_row(1, &vec![Rgb::new(1, 2, 3), Rgb::new(4, 5, 6)]);
    assert_eq!(img.get_color(0, 1), Rgb::new(1, 2, 3));
    assert_eq!(img.get_color(1, 1), Rgb::new(4, 5, 6));
    assert_eq!(img.get_color(0, 0), Rgb::new(255, 0, 0));
}

#[test]
fn ppm_text_layout() {
    let text = sample_image().to_ppm();
    let expected = "P3\n2 2\n255\n255 0 0 0 128 7 \n10 20 30 0 0 0 \n";
    assert_eq!(String::from_utf8(text).unwrap(), expected);
}

#[test]
fn ppm_round_trip() {
    let img = sample_image();
    let back = parse_ppm(&img.to_ppm()).expect("a written image reads back");
    assert_eq!(back.width, 2);
    assert_eq!(back.height, 2);
    assert_eq!(back.pixels, img.pixels);
}

#[test]
fn ppm_round_trip_of_quantized_colors() {
    let colors = [
        Color::new(0, 0, 0),
        Color::new(500_000, 200_000, 1_000_000),
        Color::new(3_000_000, 999_999, 1_961),
    ];
    let mut img = Image::new(3, 1);
    for (x, c) in colors.iter().enumerate() {
        img.set_color(x as i32, 0, c.to_rgb());
    }
    let back = parse_ppm(&img.to_ppm()).unwrap();
    assert_eq!(back.pixels, vec![Rgb::new(0, 0, 0), Rgb::new(128, 51, 255), Rgb::new(255, 255, 1)]);
    for (c, p) in colors.iter().zip(back.pixels.iter()) {
        for (v, q) in [(c.r, p.r), (c.g, p.g), (c.b, p.b)] {
            let exact = (v.min(1_000_000) as f64) / 1_000_000.0;
            assert!(((q as f64) / 255.0 - exact).abs() <= 1.0 / 255.0);
        }
    }
}

#[test]
fn ppm_accepts_any_whitespace() {
    let img = parse_ppm(b"  P3\t1\r\n1 255\n\n 9\t8 7").unwrap();
    assert_eq!(img.width, 1);
    assert_eq!(img.height, 1);
    assert_eq!(img.pixels, vec![Rgb::new(9, 8, 7)]);
}

#[test]
fn ppm_rejects_malformed_files() {
    assert!(parse_ppm(b"").is_none());
    assert!(parse_ppm(b"P6\n1 1\n255\n0 0 0\n").is_none());
    assert!(parse_ppm(b"P3\n0 1\n255\n").is_none());
    assert!(parse_ppm(b"P3\n1 1\n100\n0 0 0\n").is_none());
    assert!(parse_ppm(b"P3\n1 1\n255\n0 0\n").is_none());
    assert!(parse_ppm(b"P3\n1 1\n255\n0 0 0 0\n").is_none());
    assert!(parse_ppm(b"P3\n1 1\n255\n0 256 0\n").is_none());
    assert!(parse_ppm(b"P3\n1 1\n255\n0 -1 0\n").is_none());
    assert!(parse_ppm(b"P3\n99999999999 1\n255\n").is_none());
}

#[test]
fn words_and_numbers() {
    let ws = split_words(b" ab  c\nd ");
    assert_eq!(ws, vec![b"ab".to_vec(), b"c".to_vec(), b"d".to_vec()]);
    assert_eq!(parse_number(&b"0042".to_vec()), Some(42));
    assert_eq!(parse_number(&b"2147483647".to_vec()), Some(2147483647));
    assert_eq!(parse_number(&b"2147483648".to_vec()), None);
    assert_eq!(parse_number(&b"4x".to_vec()), None);
    assert_eq!(parse_number(&vec![]), None);
}

#[test]
fn quantize_rounds_half_up_and_caps() {
    assert_eq!(Color::new(500_000, 0, 1_000_000).to_rgb(), Rgb::new(128, 0, 255));
    assert_eq!(Color::new(2_000_000, 1_960, 1_961).to_rgb(), Rgb::new(255, 0, 1));
    assert_eq!(Color::new(200_000, 300_000, 900_000).to_rgb(), Rgb::new(51, 77, 230));
}

#[test]
fn clamp_caps_each_channel() {
    let c = Color::new(2_000_000, 500_000, 1_000_001).clamp();
    assert_eq!(c, Color::new(1_000_000, 500_000, 1_000_000));
    assert_eq!(Color::black(), Color::new(0, 0, 0));
}
