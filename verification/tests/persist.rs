use fractal_core::persist::{
    check_format_version, decode_hex, decode_palette_colors, encode_hex, PaletteRef, PaletteSource, PersistError,
    Rgb8, FILE_EXTENSION, FORMAT_VERSION,
};

fn invalid_data(r: Result<Rgb8, PersistError>) -> String {
    match r {
        Err(PersistError::InvalidData(m)) => m,
        other => panic!("expected invalid data, got {:?}", other),
    }
}

#[test]
fn palette_inline_hex_round_trip() {
    let colors: Vec<Rgb8> = (0u8..=255).map(|i| Rgb8 { r: i, g: 0, b: 255 - i }).collect();
    let encoded: Vec<String> = colors.iter().map(|c| encode_hex(*c)).collect();
    let decoded = decode_palette_colors(&encoded).expect("decode should succeed");
    assert_eq!(decoded.len(), 256);
    for (orig, dec) in colors.iter().zip(decoded.iter()) {
        assert_eq!(orig, dec);
    }
}

#[test]
fn encode_hex_is_upper_case_rrggbb() {
    assert_eq!(encode_hex(Rgb8 { r: 0, g: 0, b: 0 }), "#000000");
    assert_eq!(encode_hex(Rgb8 { r: 255, g: 128, b: 10 }), "#FF800A");
    assert_eq!(encode_hex(Rgb8 { r: 0xab, g: 0xcd, b: 0xef }), "#ABCDEF");
}

#[test]
fn decode_hex_accepts_variants_of_the_format() {
    assert_eq!(decode_hex("#ff800a").unwrap(), Rgb8 { r: 255, g: 128, b: 10 });
    assert_eq!(decode_hex("FF800A").unwrap(), Rgb8 { r: 255, g: 128, b: 10 });
    assert_eq!(decode_hex("###010203").unwrap(), Rgb8 { r: 1, g: 2, b: 3 });
    assert_eq!(decode_hex("#+f+0+1").unwrap(), Rgb8 { r: 15, g: 0, b: 1 });
}

#[test]
fn decode_hex_reports_bad_input() {
    assert_eq!(invalid_data(decode_hex("#12345")), "invalid hex color \"12345\"");
    assert_eq!(invalid_data(decode_hex("")), "invalid hex color \"\"");
    assert_eq!(invalid_data(decode_hex("#zz0000")), "invalid hex byte \"zz\"");
    assert_eq!(invalid_data(decode_hex("#00zz00")), "invalid hex byte \"zz\"");
    assert_eq!(invalid_data(decode_hex("#0000-1")), "invalid hex byte \"-1\"");
    assert_eq!(invalid_data(decode_hex("#++0000")), "invalid hex byte \"++\"");
    assert_eq!(decode_hex("#+00000").unwrap(), Rgb8 { r: 0, g: 0, b: 0 });
}

#[test]
fn decode_palette_colors_stops_at_first_error() {
    let colors = vec!["#000000".to_string(), "#12".to_string(), "#xx0000".to_string()];
    match decode_palette_colors(&colors) {
        Err(PersistError::InvalidData(m)) => assert_eq!(m, "invalid hex color \"12\""),
        other => panic!("unexpected {:?}", other),
    }
    assert_eq!(decode_palette_colors(&Vec::new()).unwrap(), Vec::<Rgb8>::new());
}

#[test]
fn format_version_is_checked() {
    assert_eq!(FORMAT_VERSION, 1);
    assert_eq!(FILE_EXTENSION, "f9k");
    assert!(check_format_version(1).is_ok());
    match check_format_version(2) {
        Err(PersistError::UnsupportedVersion { found, expected }) => {
            assert_eq!(found, 2);
            assert_eq!(expected, 1);
        }
        other => panic!("unexpected {:?}", other),
    }
}

#[test]
fn palette_references() {
    let inline = PaletteRef::inline_from(&vec![Rgb8 { r: 1, g: 2, b: 3 }, Rgb8 { r: 255, g: 255, b: 255 }]);
    assert_eq!(
        inline,
        PaletteRef::Inline { colors: vec!["#010203".to_string(), "#FFFFFF".to_string()] }
    );
    assert_eq!(
        PaletteRef::named_or_default(Some("dark".to_string())),
        PaletteRef::Named { name: "dark".to_string() }
    );
    assert_eq!(
        PaletteRef::named_or_default(None),
        PaletteRef::Named { name: "default".to_string() }
    );
}

#[test]
fn palette_reference_follows_grid_height() {
    let rgb = vec![Rgb8 { r: 255, g: 0, b: 16 }, Rgb8 { r: 1, g: 2, b: 3 }];
    let inline = PaletteRef::for_grid(1, &rgb, Some("ignored".to_string()));
    assert_eq!(
        inline,
        PaletteRef::Inline { colors: vec!["#FF0010".to_string(), "#010203".to_string()] }
    );
    assert_eq!(inline.source(), PaletteSource::Colors(rgb.clone()));
    let named = PaletteRef::for_grid(256, &rgb, Some("dark".to_string()));
    assert_eq!(named, PaletteRef::Named { name: "dark".to_string() });
    assert_eq!(named.source(), PaletteSource::Named("dark".to_string()));
    assert_eq!(
        PaletteRef::for_grid(16, &rgb, None),
        PaletteRef::Named { name: "default".to_string() }
    );
    let bad = PaletteRef::Inline { colors: vec!["#FF0010".to_string(), "#GG0000".to_string()] };
    assert_eq!(bad.source(), PaletteSource::Default);
}

#[test]
fn persist_error_messages() {
    assert_eq!(PersistError::Json("eof".to_string()).message(), "JSON error: eof");
    assert_eq!(PersistError::InvalidData("bad".to_string()).message(), "Invalid data: bad");
    assert_eq!(
        PersistError::UnsupportedVersion { found: 1203, expected: 1 }.message(),
        "Unsupported format version 1203 (this build supports 1)"
    );
    assert_eq!(
        PersistError::UnsupportedVersion { found: u32::MAX, expected: 0 }.message(),
        "Unsupported format version 4294967295 (this build supports 0)"
    );
}
