use sap_pipeline::config::TransformConfig;
use sap_pipeline::transform::Decoded;
use sap_pipeline::transform::TransformError;
use sap_pipeline::transform::Transformer;
use sap_pipeline::transform::decode_content;

fn create_test_config() -> TransformConfig {
    TransformConfig {
        enabled: true,
        format: "tsv".to_string(),
        header_rows_to_skip: 6,
        header_match: "Plant\tDelivery\tMaterial".to_string(),
        dedupe_rows: false,
        trim_whitespace: true,
        output_line_ending: "lf".to_string(),
    }
}

fn report(rows: &str) -> String {
    let mut content = String::new();
    content.push_str("In-Transfer (Push Delivery) Materials Report\n");
    content.push_str("Acme Manufacturing Corp\n");
    content.push_str("\n");
    content.push_str("User                                   TESTUSER\n");
    content.push_str("Run Date   :                           2025-01-15\n");
    content.push_str("Run Time   :                           14:30:22\n");
    content.push_str("\n");
    content.push_str("        Plant\tDelivery\tMaterial\n");
    content.push_str(rows);
    content
}

#[test]
fn test_transform_basic() {
    let config = create_test_config();
    let transformer = Transformer::new(&config).unwrap();

    let content = report("        PLT01\t9876543210\t55512345\n        PLT02\t9876543211\t55512346");

    let output = transformer.transform_content(&content).unwrap();
    let expected =
        "Plant\tDelivery\tMaterial\nPLT01\t9876543210\t55512345\nPLT02\t9876543211\t55512346\n";

    assert_eq!(output, expected);
}

#[test]
fn test_transform_csv() {
    let mut config = create_test_config();
    config.format = "csv".to_string();
    let transformer = Transformer::new(&config).unwrap();

    let content = report("        PLT01\t9876543210\t55512345");

    let output = transformer.transform_content(&content).unwrap();
    let expected = "Plant,Delivery,Material\nPLT01,9876543210,55512345\n";

    assert_eq!(output, expected);
    assert!(!output.contains('\t'));
}

#[test]
fn test_transform_dedupe() {
    let mut config = create_test_config();
    config.dedupe_rows = true;
    let transformer = Transformer::new(&config).unwrap();

    let content = report(
        "        PLT01\t9876543210\t55512345\n        PLT01\t9876543210\t55512345\n        PLT02\t9876543211\t55512346",
    );

    let output = transformer.transform_content(&content).unwrap();
    let expected =
        "Plant\tDelivery\tMaterial\nPLT01\t9876543210\t55512345\nPLT02\t9876543211\t55512346\n";

    assert_eq!(output, expected);
}

#[test]
fn test_transform_without_dedupe_keeps_repeats() {
    let config = create_test_config();
    let transformer = Transformer::new(&config).unwrap();
    let content = report("        PLT01\t1\t2\n        PLT01\t1\t2");
    let output = transformer.transform_content(&content).unwrap();
    assert_eq!(output, "Plant\tDelivery\tMaterial\nPLT01\t1\t2\nPLT01\t1\t2\n");
}

#[test]
fn test_end_to_end_crlf_dedupe_bytes() {
    let mut config = create_test_config();
    config.dedupe_rows = true;
    config.output_line_ending = "crlf".to_string();
    let transformer = Transformer::new(&config).unwrap();

    let content = "Line one\nLine two\nLine three\nLine four\nLine five\nLine six\nPlant\tDelivery\tMaterial\nPLT01\t111\t55512345\nPLT01\t111\t55512345\nPLT02\t112\t55512346";

    let output = transformer.transform_content(content).unwrap();
    assert_eq!(
        output.as_bytes(),
        b"Plant\tDelivery\tMaterial\r\nPLT01\t111\t55512345\r\nPLT02\t112\t55512346\r\n"
    );
}

#[test]
fn test_transform_too_few_lines() {
    let config = create_test_config();
    let transformer = Transformer::new(&config).unwrap();
    let r = transformer.transform_content("one\ntwo\nthree");
    assert_eq!(r, Err(TransformError::TooFewLines));
}

#[test]
fn test_transform_header_match_is_case_insensitive() {
    let mut config = create_test_config();
    config.header_match = "PLANT\tDELIVERY\tMATERIAL".to_string();
    let transformer = Transformer::new(&config).unwrap();
    let content = report("        PLT09\t42\t43");
    let output = transformer.transform_content(&content).unwrap();
    assert_eq!(output, "Plant\tDelivery\tMaterial\nPLT09\t42\t43\n");
}

#[test]
fn test_transform_missing_header_falls_back_to_skip() {
    let mut config = create_test_config();
    config.header_rows_to_skip = 2;
    config.header_match = "no such header anywhere".to_string();
    let transformer = Transformer::new(&config).unwrap();
    let content = "preamble one\npreamble two\ndata-a\ndata-b";
    let output = transformer.transform_content(content).unwrap();
    assert_eq!(output, "Plant\tDelivery\tMaterial\ndata-a\ndata-b\n");
}

#[test]
fn test_decode_utf8_strict() {
    let bytes: Vec<u8> = "héllo".bytes().collect();
    match decode_content(&bytes) {
        Decoded::Utf8(s) => assert_eq!(s, "héllo"),
        Decoded::LegacyBestEffort(_) => panic!("valid UTF-8 must decode strictly"),
    }
}

#[test]
fn test_decode_legacy_fallback() {
    // 0xE9 alone is not valid UTF-8; windows-1252 reads it as 'é'.
    let bytes: Vec<u8> = vec![b'c', b'a', b'f', 0xE9];
    match decode_content(&bytes) {
        Decoded::Utf8(_) => panic!("invalid UTF-8 must fall back"),
        Decoded::LegacyBestEffort(s) => assert_eq!(s, "café"),
    }
}

#[test]
fn test_transform_trim_disabled_keeps_padding() {
    let mut config = create_test_config();
    config.trim_whitespace = false;
    config.header_rows_to_skip = 0;
    config.header_match = "Plant\tDelivery\tMaterial".to_string();
    let transformer = Transformer::new(&config).unwrap();
    let content = "Plant\tDelivery\tMaterial\n  A\t1\t2";
    let output = transformer.transform_content(content).unwrap();
    assert_eq!(output, "Plant\tDelivery\tMaterial\n  A\t1\t2\n");
}

#[test]
fn test_decode_legacy_reads_bom_lookalikes_as_bytes() {
    // FF FE is not valid UTF-8; the legacy decoding reads the two bytes
    // as windows-1252 characters rather than sniffing a byte-order mark.
    let bytes: Vec<u8> = vec![0xFF, 0xFE];
    match decode_content(&bytes) {
        Decoded::Utf8(_) => panic!("invalid UTF-8 must fall back"),
        Decoded::LegacyBestEffort(s) => assert_eq!(s, "\u{FF}\u{FE}"),
    }
}
