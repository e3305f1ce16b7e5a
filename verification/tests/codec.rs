use mediainfo::c_w_string::{CWcharString, WideWidth};

fn convert_back(cw: &CWcharString, width: WideWidth) -> Result<String, ()> {
    CWcharString::from_raw_to_string(Some(&cw.data), width)
}

#[test]
fn test_ascii_string_conversion() {
    let test_str = "Hello World";
    let cw_string =
        CWcharString::from_str(test_str, WideWidth::Four).expect("Failed to create CWcharString");

    let result =
        convert_back(&cw_string, WideWidth::Four).expect("Failed to convert back to string");

    assert_eq!(result, test_str);
}

#[test]
fn test_utf8_basic_unicode() {
    let test_str = "Hello 世界";
    let cw_string =
        CWcharString::from_str(test_str, WideWidth::Four).expect("Failed to create CWcharString");

    let result =
        convert_back(&cw_string, WideWidth::Four).expect("Failed to convert back to string");

    assert_eq!(result, test_str);
}

#[test]
fn test_utf8_emoji() {
    let test_str = "Hello 👋 World 🌍";
    let cw_string =
        CWcharString::from_str(test_str, WideWidth::Four).expect("Failed to create CWcharString");

    let result =
        convert_back(&cw_string, WideWidth::Four).expect("Failed to convert back to string");

    assert_eq!(result, test_str);
}

#[test]
fn test_utf8_mixed_scripts() {
    let test_str = "English français 中文 العربية русский язык 日本語";
    let cw_string =
        CWcharString::from_str(test_str, WideWidth::Four).expect("Failed to create CWcharString");

    let result =
        convert_back(&cw_string, WideWidth::Four).expect("Failed to convert back to string");

    assert_eq!(result, test_str);
}

#[test]
fn test_utf8_mathematical_symbols() {
    let test_str = "π ≈ 3.14159 ∑∞ ∫∂x ℝ²";
    let cw_string =
        CWcharString::from_str(test_str, WideWidth::Four).expect("Failed to create CWcharString");

    let result =
        convert_back(&cw_string, WideWidth::Four).expect("Failed to convert back to string");

    assert_eq!(result, test_str);
}

#[test]
fn test_utf8_special_whitespace() {
    let test_str = "Normal\tTab\nNewline\r\nCRLF　Full-width space";
    let cw_string =
        CWcharString::from_str(test_str, WideWidth::Four).expect("Failed to create CWcharString");

    let result =
        convert_back(&cw_string, WideWidth::Four).expect("Failed to convert back to string");

    assert_eq!(result, test_str);
}

#[test]
fn test_empty_string() {
    let test_str = "";
    let cw_string =
        CWcharString::from_str(test_str, WideWidth::Four).expect("Failed to create CWcharString");

    let result =
        convert_back(&cw_string, WideWidth::Four).expect("Failed to convert back to string");

    assert_eq!(result, test_str);
}

#[test]
fn test_null_byte_rejection() {
    let test_str = "Hello\0World";
    let result = CWcharString::from_str(test_str, WideWidth::Four);

    assert!(
        result.is_err(),
        "Should reject strings containing null bytes"
    );
}

#[test]
fn test_path_conversion() {
    let path_str = "/path/to/file with spaces and unicode 文件.txt";
    let cw_string = CWcharString::from_str(path_str, WideWidth::Four)
        .expect("Failed to create CWcharString from path");

    let result =
        convert_back(&cw_string, WideWidth::Four).expect("Failed to convert back to string");

    assert_eq!(result, path_str);
}

#[test]
fn test_wchar_size_consistency() {
    // This test ensures the implementation correctly handles both wide-character widths.
    let test_strings = vec![
        "ASCII only",
        "Mixed ASCII and Unicode: café",
        "Chinese: 你好世界",
        "Japanese: こんにちは",
        "Arabic: مرحبا",
        "Emoji: 🚀🌟✨",
        "Mathematical: ∀x∈ℝ: x²≥0",
    ];

    for test_str in test_strings {
        for width in [WideWidth::Two, WideWidth::Four] {
            let cw_string = CWcharString::from_str(test_str, width)
                .unwrap_or_else(|_| panic!("Failed to create CWcharString for: {}", test_str));

            let result = convert_back(&cw_string, width).unwrap_or_else(|_| {
                panic!("Failed to convert back to string for: {}", test_str)
            });

            assert_eq!(result, test_str, "Mismatch for string: {}", test_str);
        }
    }
}

#[test]
fn test_surrogate_pairs() {
    // Characters that require surrogate pairs in the two-byte regime.
    let test_str = "𝕎𝕠𝕣𝕝𝕕 𝔬𝔣 𝔪𝔞𝔱𝔥: 𝒻(𝓍) = 𝓍²";
    let cw_string =
        CWcharString::from_str(test_str, WideWidth::Two).expect("Failed to create CWcharString");

    let result =
        convert_back(&cw_string, WideWidth::Two).expect("Failed to convert back to string");

    assert_eq!(result, test_str);
}

#[test]
fn test_mediainfo_parameter_strings() {
    let parameters = vec![
        "Complete",
        "Inform",
        "Output",
        "Language",
        "Details",
        "Internet",
        "File_Duplicate",
        "ParseSpeed",
        "ReadByHuman",
        "Legacy",
        "EncodeTime",
        "File_CheckSideCarFiles",
        "File_KeepInfo",
        "File_StopAfterFilled",
        "File_StopSubStreamAfterFilled",
    ];

    for param in parameters {
        let cw_string = CWcharString::from_str(param, WideWidth::Four)
            .unwrap_or_else(|_| panic!("Failed to create CWcharString for parameter: {}", param));

        let result = convert_back(&cw_string, WideWidth::Four).unwrap_or_else(|_| {
            panic!("Failed to convert back to string for parameter: {}", param)
        });

        assert_eq!(result, param, "Mismatch for parameter: {}", param);
    }
}

#[test]
fn test_roundtrip_consistency() {
    fn assert_roundtrip(input: &str) {
        let wide = CWcharString::from_str(input, WideWidth::Four).expect("from_str should succeed");
        assert_eq!(wide.n_chars, input.chars().count());
        assert_eq!(wide.data.last().copied(), Some(0));

        let back = CWcharString::from_raw_to_string(Some(&wide.data), WideWidth::Four)
            .expect("roundtrip");
        assert_eq!(back, input);
    }

    assert_roundtrip("MediaInfo");
    assert_roundtrip("Grüße 🌍");
    assert_roundtrip("Test with emoji: 👋🌍🚀");
}

#[test]
fn test_invalid_wide_data_rejection() {
    // Invalid code point above the Unicode range, four-byte regime.
    let data: Vec<u32> = vec![0x110000, 0];
    assert!(CWcharString::from_raw_to_string(Some(&data), WideWidth::Four).is_err());

    // Lone surrogate, two-byte regime.
    let data: Vec<u32> = vec![0xD800, 0];
    assert!(CWcharString::from_raw_to_string(Some(&data), WideWidth::Two).is_err());
}

#[test]
fn roundtrip_two_byte_regime_with_surrogates() {
    for s in ["", "a", "Grüße 🌍", "👋", "\u{10000}\u{10FFFF}", "mixed 𝕎 and ascii"] {
        let cw = CWcharString::from_str(s, WideWidth::Two).expect("encode");
        // Characters beyond 0xFFFF take two elements each.
        let expected_units: usize = s.chars().map(|c| if (c as u32) >= 0x10000 { 2 } else { 1 }).sum();
        assert_eq!(cw.n_chars, expected_units);
        assert_eq!(cw.data.len(), expected_units + 1);
        assert_eq!(cw.data.last().copied(), Some(0));
        let back = convert_back(&cw, WideWidth::Two).expect("decode");
        assert_eq!(back, s);
    }
}

#[test]
fn null_byte_rejected_in_every_regime() {
    for s in ["\0", "a\0b", "ends in null\0"] {
        assert!(CWcharString::from_str(s, WideWidth::Two).is_err());
        assert!(CWcharString::from_str(s, WideWidth::Four).is_err());
        assert!(mediainfo::c_w_string::from_str_utf8(s).is_err());
    }
}

#[test]
fn utf8_passthrough_is_identity() {
    for s in ["", "plain", "Grüße 🌍", "tab\tand newline\n"] {
        assert_eq!(mediainfo::c_w_string::from_str_utf8(s).expect("pass-through"), s);
    }
}

#[test]
fn null_source_pointer_is_rejected() {
    assert!(CWcharString::from_raw_to_string(None, WideWidth::Two).is_err());
    assert!(CWcharString::from_raw_to_string(None, WideWidth::Four).is_err());
}

#[test]
fn decode_failures_by_regime() {
    // A lone low surrogate fails in the two-byte regime.
    let data: Vec<u32> = vec![0xDC00, 0];
    assert!(CWcharString::from_raw_to_string(Some(&data), WideWidth::Two).is_err());
    // A high surrogate followed by a non-surrogate fails too.
    let data: Vec<u32> = vec![0xD800, 0x41, 0];
    assert!(CWcharString::from_raw_to_string(Some(&data), WideWidth::Two).is_err());
    // An element beyond 0xFFFF fails in the two-byte regime.
    let data: Vec<u32> = vec![0x10000, 0];
    assert!(CWcharString::from_raw_to_string(Some(&data), WideWidth::Two).is_err());
    // A surrogate value fails in the four-byte regime as well.
    let data: Vec<u32> = vec![0xDFFF, 0];
    assert!(CWcharString::from_raw_to_string(Some(&data), WideWidth::Four).is_err());
    // A valid surrogate pair decodes in the two-byte regime.
    let data: Vec<u32> = vec![0xD83C, 0xDF0D, 0];
    assert_eq!(
        CWcharString::from_raw_to_string(Some(&data), WideWidth::Two).expect("pair"),
        "🌍"
    );
}

#[test]
fn decode_stops_at_first_zero() {
    let data: Vec<u32> = vec![0x41, 0, 0x42, 0];
    assert_eq!(
        CWcharString::from_raw_to_string(Some(&data), WideWidth::Four).expect("prefix"),
        "A"
    );
}

#[test]
fn empty_string_roundtrip_in_every_regime() {
    for width in [WideWidth::Two, WideWidth::Four] {
        let cw = CWcharString::from_str("", width).expect("encode empty");
        assert_eq!(cw.n_chars, 0);
        assert_eq!(cw.data, vec![0]);
        assert_eq!(convert_back(&cw, width).expect("decode empty"), "");
    }
    assert_eq!(mediainfo::c_w_string::from_str_utf8("").expect("pass-through"), "");
}
