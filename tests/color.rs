use vialctl::color::{parse_hex_rgb, parse_white_point, rgb_to_hsv, ColorError, WhitePoint};

#[test]
fn parse_hex_rgb_basic() {
    assert_eq!(parse_hex_rgb("ff00ff").unwrap(), (255, 0, 255));
}

#[test]
fn parse_hex_rgb_with_hash() {
    assert_eq!(parse_hex_rgb("#00ff00").unwrap(), (0, 255, 0));
}

#[test]
fn parse_hex_rgb_black_and_white() {
    assert_eq!(parse_hex_rgb("000000").unwrap(), (0, 0, 0));
    assert_eq!(parse_hex_rgb("ffffff").unwrap(), (255, 255, 255));
}

#[test]
fn parse_hex_rgb_uppercase() {
    assert_eq!(parse_hex_rgb("FF8800").unwrap(), (255, 136, 0));
}

#[test]
fn parse_hex_rgb_rejects_short() {
    assert!(parse_hex_rgb("fff").is_err());
}

#[test]
fn parse_hex_rgb_rejects_invalid_chars() {
    assert!(parse_hex_rgb("gghhii").is_err());
}

#[test]
fn rgb_to_hsv_pure_red() {
    let (h, s, v) = rgb_to_hsv(255, 0, 0);
    assert_eq!(h, 0);
    assert_eq!(s, 255);
    assert_eq!(v, 255);
}

#[test]
fn rgb_to_hsv_pure_green() {
    let (h, s, v) = rgb_to_hsv(0, 255, 0);
    // Green = 120 degrees = 120/360 * 255 ≈ 85
    assert_eq!(h, 85);
    assert_eq!(s, 255);
    assert_eq!(v, 255);
}

#[test]
fn rgb_to_hsv_pure_blue() {
    let (h, s, v) = rgb_to_hsv(0, 0, 255);
    // Blue = 240 degrees = 240/360 * 255 ≈ 170
    assert_eq!(h, 170);
    assert_eq!(s, 255);
    assert_eq!(v, 255);
}

#[test]
fn rgb_to_hsv_black() {
    assert_eq!(rgb_to_hsv(0, 0, 0), (0, 0, 0));
}

#[test]
fn rgb_to_hsv_white() {
    assert_eq!(rgb_to_hsv(255, 255, 255), (0, 0, 255));
}

#[test]
fn rgb_to_hsv_gray() {
    let (h, s, v) = rgb_to_hsv(128, 128, 128);
    assert_eq!(h, 0);
    assert_eq!(s, 0);
    assert_eq!(v, 128);
}

#[test]
fn white_point_rejects_zero_channel() {
    assert!(WhitePoint::new([0, 255, 255]).is_none());
    assert!(WhitePoint::new([255, 0, 255]).is_none());
    assert!(WhitePoint::new([255, 255, 0]).is_none());
}

#[test]
fn white_point_accepts_valid() {
    assert!(WhitePoint::new([1, 1, 1]).is_some());
    assert!(WhitePoint::new([200, 255, 230]).is_some());
}

#[test]
fn white_point_identity() {
    let wp = WhitePoint::new([255, 255, 255]).unwrap();
    assert_eq!(wp.apply(100, 200, 50), (100, 200, 50));
}

#[test]
fn white_point_scales_down() {
    let wp = WhitePoint::new([128, 255, 255]).unwrap();
    let (r, _g, _b) = wp.apply(255, 255, 255);
    // 255 * 128 / 255 = 128
    assert_eq!(r, 128);
}

#[test]
fn parse_white_point_valid() {
    let wp = parse_white_point("200,255,230").unwrap();
    assert_eq!(wp.0, [200, 255, 230]);
}

#[test]
fn parse_white_point_with_spaces() {
    let wp = parse_white_point("200, 255, 230").unwrap();
    assert_eq!(wp.0, [200, 255, 230]);
}

#[test]
fn parse_white_point_rejects_zero() {
    assert!(parse_white_point("0,255,255").is_err());
}

#[test]
fn parse_white_point_rejects_wrong_count() {
    assert!(parse_white_point("200,255").is_err());
    assert!(parse_white_point("200,255,230,100").is_err());
}

#[test]
fn parse_white_point_rejects_overflow() {
    assert!(parse_white_point("256,255,255").is_err());
}

#[test]
fn hex_round_trip_every_byte() {
    for v in 0..=255u8 {
        let lower = format!("{v:02x}{:02x}{:02x}", 255 - v, v / 2);
        assert_eq!(parse_hex_rgb(&lower), Ok((v, 255 - v, v / 2)));
        let upper = format!("#{v:02X}{:02X}{:02X}", v / 3, 255 - v);
        assert_eq!(parse_hex_rgb(&upper), Ok((v, v / 3, 255 - v)));
    }
}

#[test]
fn hex_errors_name_the_problem() {
    assert_eq!(parse_hex_rgb(""), Err(ColorError::Length));
    assert_eq!(parse_hex_rgb("#"), Err(ColorError::Length));
    assert_eq!(parse_hex_rgb("ff00ff0"), Err(ColorError::Length));
    assert_eq!(parse_hex_rgb("##ff00ff"), Err(ColorError::Length));
    assert_eq!(parse_hex_rgb("ff00fg"), Err(ColorError::Digit));
    assert_eq!(parse_hex_rgb("+f0000"), Err(ColorError::Digit));
    assert_eq!(parse_hex_rgb("ff 0ff"), Err(ColorError::Digit));
    assert_eq!(parse_hex_rgb("éééééé"), Err(ColorError::Digit));
    assert_eq!(parse_hex_rgb("aééééé"), Err(ColorError::Digit));
}

#[test]
fn rgb_to_hsv_magenta_rounds_half_up() {
    // 300 degrees is 212.5 on the 0..=255 scale
    assert_eq!(rgb_to_hsv(255, 0, 255), (213, 255, 255));
}

#[test]
fn rgb_to_hsv_mixed_colours() {
    // hue 30.1 degrees = 21.33, full saturation
    assert_eq!(rgb_to_hsv(255, 128, 0), (21, 255, 255));
    // chroma 100 of value 200: saturation 127.5 rounds up
    assert_eq!(rgb_to_hsv(100, 200, 150), (106, 128, 200));
    // red is maximal with blue above green: hue wraps below 360 degrees
    assert_eq!(rgb_to_hsv(200, 0, 100), (234, 255, 200));
}

#[test]
fn white_point_full_is_identity_for_many_colours() {
    let wp = WhitePoint::new([255, 255, 255]).unwrap();
    for v in 0..=255u8 {
        assert_eq!(wp.apply(v, 255 - v, v / 7), (v, 255 - v, v / 7));
    }
}

#[test]
fn white_point_rounds_to_nearest() {
    let wp = WhitePoint::new([200, 1, 230]).unwrap();
    // 100 * 200 / 255 = 78.43; 255 * 1 / 255 = 1; 51 * 230 / 255 = 46
    assert_eq!(wp.apply(100, 255, 51), (78, 1, 46));
    // 3 * 200 / 255 = 2.35 and 2 * 230 / 255 = 1.80
    assert_eq!(wp.apply(3, 0, 2), (2, 0, 2));
}

#[test]
fn parse_white_point_edge_cases() {
    assert_eq!(parse_white_point("+1,001,255").unwrap().0, [1, 1, 255]);
    assert_eq!(parse_white_point("\t7 ,8\u{a0},  9  ").unwrap().0, [7, 8, 9]);
    assert!(parse_white_point("").is_err());
    assert!(parse_white_point(",,").is_err());
    assert!(parse_white_point("1,,3").is_err());
    assert!(parse_white_point("1,2,-3").is_err());
    assert!(parse_white_point("1,2,+").is_err());
    assert!(parse_white_point("1,2 5,3").is_err());
    assert!(parse_white_point("1,2,1000").is_err());
    assert!(parse_white_point("1,0,3").is_err());
    assert!(parse_white_point("1,2,0").is_err());
}
