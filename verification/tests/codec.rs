use wrinkle::codec::{decode, encode};
use wrinkle::config::{Color, Config, Resolution};
use wrinkle::keys::{KeyFilter, Modifiers};
use wrinkle::parse::{ParseResolutionError, parse_xy};
use wrinkle::geometry::XY;

#[test]
fn default_config_has_documented_values() {
    let c = Config::default();
    assert_eq!(c.thin, Resolution { width: 400, height: 1800 });
    assert_eq!(c.tall, Resolution { width: 384, height: 16384 });
    assert_eq!(c.wide, Resolution { width: 1920, height: 300 });
    assert_eq!(c.ruler, 19);
    assert_eq!(
        c.thin_key,
        Some(KeyFilter {
            char: 'h',
            modifiers: Some(Modifiers { shift: false, ctrl: false, alt: false })
        })
    );
    assert_eq!(
        c.tall_key,
        Some(KeyFilter {
            char: 'h',
            modifiers: Some(Modifiers { shift: true, ctrl: false, alt: false })
        })
    );
    assert_eq!(
        c.wide_key,
        Some(KeyFilter {
            char: 'h',
            modifiers: Some(Modifiers { shift: false, ctrl: true, alt: false })
        })
    );
    assert_eq!(c.colors, [Color(91, 207, 250), Color(245, 171, 185)]);
}

#[test]
fn colorref_packs_bgr() {
    assert_eq!(Color(91, 207, 250).colorref(), 0x00FACF5B);
    assert_eq!(Color(255, 255, 255).colorref(), 0x00FFFFFF);
    assert_eq!(Color(0, 0, 0).colorref(), 0);
}

#[test]
fn encode_produces_canonical_document() {
    let text = encode(&Config::default());
    let expected = "thin = { width = 400, height = 1800 }\ntall = { width = 384, height = 16384 }\nwide = { width = 1920, height = 300 }\nruler = 19\nthin_key = { char = \"h\", modifiers = { shift = false, ctrl = false, alt = false } }\ntall_key = { char = \"h\", modifiers = { shift = true, ctrl = false, alt = false } }\nwide_key = { char = \"h\", modifiers = { shift = false, ctrl = true, alt = false } }\ncolors = [[91, 207, 250], [245, 171, 185]]\n";
    assert_eq!(text, expected);
}

#[test]
fn codec_round_trips_default_snapshot() {
    let c = Config::default();
    assert_eq!(decode(&encode(&c)), Some(c));
}

#[test]
fn codec_round_trips_absent_hotkeys_and_negative_numbers() {
    let c = Config {
        thin: Resolution { width: -400, height: 0 },
        tall: Resolution { width: i32::MAX, height: i32::MIN },
        wide: Resolution { width: 1, height: 2 },
        ruler: -19,
        thin_key: None,
        tall_key: Some(KeyFilter { char: 'z', modifiers: None }),
        wide_key: Some(KeyFilter {
            char: 'a',
            modifiers: Some(Modifiers { shift: true, ctrl: true, alt: true }),
        }),
        colors: [Color(0, 0, 0), Color(255, 255, 255)],
    };
    assert_eq!(decode(&encode(&c)), Some(c));
}

#[test]
fn decode_parses_handwritten_document() {
    let text = "thin = { width = 10, height = 20 }\ntall = { width = 30, height = 40 }\nwide = { width = 50, height = 60 }\nruler = 7\nthin_key = none\ntall_key = { char = \"k\", modifiers = none }\nwide_key = none\ncolors = [[1, 2, 3], [4, 5, 6]]\n";
    let c = decode(text).expect("canonical document decodes");
    assert_eq!(c.thin, Resolution { width: 10, height: 20 });
    assert_eq!(c.ruler, 7);
    assert_eq!(c.thin_key, None);
    assert_eq!(c.tall_key, Some(KeyFilter { char: 'k', modifiers: None }));
    assert_eq!(c.colors, [Color(1, 2, 3), Color(4, 5, 6)]);
}

#[test]
fn decode_rejects_malformed_documents() {
    assert_eq!(decode(""), None);
    assert_eq!(decode("garbage"), None);
    assert_eq!(decode("thin = { width = 10, height = 20 }\n"), None);
    let with_junk = format!("{}extra", encode(&Config::default()));
    assert_eq!(decode(&with_junk), None);
    let bad_channel = "thin = { width = 10, height = 20 }\ntall = { width = 30, height = 40 }\nwide = { width = 50, height = 60 }\nruler = 7\nthin_key = none\ntall_key = none\nwide_key = none\ncolors = [[1, 2, 300], [4, 5, 6]]\n";
    assert_eq!(decode(bad_channel), None);
}

#[test]
fn parse_xy_accepts_width_x_height() {
    assert_eq!(parse_xy(b"400x1800"), Ok(XY { x: 400, y: 1800 }));
    assert_eq!(parse_xy(b"0x0"), Ok(XY { x: 0, y: 0 }));
}

#[test]
fn parse_xy_rejects_bad_shapes() {
    assert_eq!(parse_xy(b"400"), Err(ParseResolutionError::InvalidFormat));
    assert_eq!(parse_xy(b"400x18x00"), Err(ParseResolutionError::InvalidFormat));
    assert_eq!(parse_xy(b""), Err(ParseResolutionError::InvalidFormat));
    assert_eq!(parse_xy(b"x"), Err(ParseResolutionError::ParseIntError));
    assert_eq!(parse_xy(b"400x"), Err(ParseResolutionError::ParseIntError));
    assert_eq!(parse_xy(b"4a0x18"), Err(ParseResolutionError::ParseIntError));
    assert_eq!(parse_xy(b"-4x18"), Err(ParseResolutionError::ParseIntError));
    assert_eq!(parse_xy(b"99999999999x1"), Err(ParseResolutionError::ParseIntError));
    assert_eq!(parse_xy(b"4000000000x10"), Err(ParseResolutionError::TryFromIntError));
    assert_eq!(parse_xy(b"10x4000000000"), Err(ParseResolutionError::TryFromIntError));
}

#[test]
fn resolution_parse_swaps_into_width_height() {
    assert_eq!(
        Resolution::parse(b"640x480"),
        Ok(Resolution { width: 640, height: 480 })
    );
    assert!(Resolution::parse(b"640").is_err());
}

#[test]
fn hex_color_parse() {
    assert_eq!(Color::parse_hex(b"#5BCFFA"), Some(Color(0x5B, 0xCF, 0xFA)));
    assert_eq!(Color::parse_hex(b"#5bcffa"), Some(Color(0x5B, 0xCF, 0xFA)));
    assert_eq!(Color::parse_hex(b"#000000"), Some(Color(0, 0, 0)));
    assert_eq!(Color::parse_hex(b"5BCFFA"), None);
    assert_eq!(Color::parse_hex(b"#5BCFF"), None);
    assert_eq!(Color::parse_hex(b"#5BCFFG"), None);
    assert_eq!(Color::parse_hex(b"#5BCFFAA"), None);
}
