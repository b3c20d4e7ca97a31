use avr_history::hex::{decode, encode, parse_digit};
use avr_history::{
    DecodeError, ReportField, VerificationReport, VerificationReportShadow,
};

fn sample_report() -> VerificationReport {
    VerificationReport {
        signature: vec![0xde, 0xad, 0xbe, 0xef],
        certificate_chain: vec![vec![0x30, 0x82, 0x01, 0x0a], vec![], vec![0x00, 0xff]],
        body: String::from("{\"isvEnclaveQuoteStatus\":\"OK\"}"),
    }
}

#[test]
fn encode_writes_lowercase_digits() {
    assert_eq!(encode(&[0xDE, 0xAD]), "dead");
}

#[test]
fn encode_of_nothing_is_empty() {
    assert_eq!(encode(&[]), "");
}

#[test]
fn encode_writes_high_nibble_first() {
    assert_eq!(encode(&[0x01, 0x10, 0x0f, 0xf0, 0x9a]), "01100ff09a");
}

#[test]
fn encode_covers_every_byte() {
    let all: Vec<u8> = (0..=255u8).collect();
    let text = encode(&all);
    assert_eq!(text.len(), 512);
    assert!(text.chars().all(|c| matches!(c, '0'..='9' | 'a'..='f')));
    assert_eq!(decode(&text), Some(all));
}

#[test]
fn decode_rejects_what_is_not_a_digit() {
    assert_eq!(decode("zz"), None);
    assert_eq!(decode("0g"), None);
    assert_eq!(decode("de ad"), None);
    assert_eq!(decode("\u{e9}"), None);
}

#[test]
fn decode_rejects_odd_length() {
    assert_eq!(decode("dea"), None);
    assert_eq!(decode("0"), None);
}

#[test]
fn decode_reads_both_cases() {
    assert_eq!(decode("dead"), Some(vec![0xde, 0xad]));
    assert_eq!(decode("DEAD"), Some(vec![0xde, 0xad]));
    assert_eq!(decode("DeAd"), Some(vec![0xde, 0xad]));
    assert_eq!(decode(""), Some(vec![]));
}

#[test]
fn parse_digit_knows_the_digits() {
    assert_eq!(parse_digit('0'), Some(0));
    assert_eq!(parse_digit('9'), Some(9));
    assert_eq!(parse_digit('a'), Some(10));
    assert_eq!(parse_digit('f'), Some(15));
    assert_eq!(parse_digit('A'), Some(10));
    assert_eq!(parse_digit('F'), Some(15));
    assert_eq!(parse_digit('g'), None);
    assert_eq!(parse_digit('/'), None);
    assert_eq!(parse_digit(':'), None);
    assert_eq!(parse_digit('@'), None);
    assert_eq!(parse_digit('G'), None);
    assert_eq!(parse_digit('`'), None);
}

#[test]
fn codec_agrees_with_the_hex_format_of_serde_with() {
    let bytes: Vec<u8> = vec![0x00, 0x7f, 0x80, 0xff, 0x12, 0xab];
    let written = <serde_with::hex::Hex as serde_with::SerializeAs<Vec<u8>>>::serialize_as(
        &bytes,
        serde_json::value::Serializer,
    )
    .unwrap();
    assert_eq!(written, serde_json::Value::String(encode(&bytes)));
    let read: Vec<u8> = <serde_with::hex::Hex as serde_with::DeserializeAs<Vec<u8>>>::deserialize_as(
        serde_json::Value::String(String::from("007F80ffAb")),
    )
    .unwrap();
    assert_eq!(Some(read), decode("007F80ffAb"));
}

#[test]
fn shadow_holds_hex_and_the_body_unchanged() {
    let shadow = VerificationReportShadow::encode(&sample_report());
    assert_eq!(shadow.signature, "deadbeef");
    assert_eq!(shadow.certificate_chain, vec!["3082010a", "", "00ff"]);
    assert_eq!(shadow.body, "{\"isvEnclaveQuoteStatus\":\"OK\"}");
}

#[test]
fn shadow_reads_back_to_the_report() {
    let report = sample_report();
    assert_eq!(VerificationReportShadow::encode(&report).decode(), Ok(report));
}

#[test]
fn shadow_names_the_first_field_that_is_not_hex() {
    let mut shadow = VerificationReportShadow::encode(&sample_report());
    shadow.certificate_chain[2] = String::from("0");
    assert_eq!(
        shadow.decode(),
        Err(DecodeError::InvalidHex { field: ReportField::Certificate { index: 2 } })
    );
    shadow.certificate_chain[0] = String::from("xy");
    assert_eq!(
        shadow.decode(),
        Err(DecodeError::InvalidHex { field: ReportField::Certificate { index: 0 } })
    );
    shadow.signature = String::from("zz");
    assert_eq!(shadow.decode(), Err(DecodeError::InvalidHex { field: ReportField::Signature }));
}

#[test]
fn shadow_with_bad_hex_fails_with_invalid_hex() {
    for bad in ["zz", "dea"] {
        let shadow = VerificationReportShadow {
            signature: String::from(bad),
            certificate_chain: vec![],
            body: String::new(),
        };
        assert_eq!(shadow.decode(), Err(DecodeError::InvalidHex { field: ReportField::Signature }));
        let shadow = VerificationReportShadow {
            signature: String::from("dead"),
            certificate_chain: vec![String::from(bad)],
            body: String::new(),
        };
        assert_eq!(
            shadow.decode(),
            Err(DecodeError::InvalidHex { field: ReportField::Certificate { index: 0 } })
        );
    }
}

#[test]
fn absent_report_is_not_an_empty_report() {
    let empty = VerificationReport {
        signature: vec![],
        certificate_chain: vec![],
        body: String::new(),
    };
    assert_eq!(VerificationReportShadow::encode_optional(&None), None);
    let shadow = VerificationReportShadow::encode_optional(&Some(empty.clone()));
    assert_eq!(
        shadow,
        Some(VerificationReportShadow {
            signature: String::new(),
            certificate_chain: vec![],
            body: String::new(),
        })
    );
    assert_eq!(VerificationReportShadow::decode_optional(&None), Ok(None));
    assert_eq!(VerificationReportShadow::decode_optional(&shadow), Ok(Some(empty)));
}

#[test]
fn optional_shadow_hands_on_the_error() {
    let shadow = Some(VerificationReportShadow {
        signature: String::from("abc"),
        certificate_chain: vec![],
        body: String::new(),
    });
    assert_eq!(
        VerificationReportShadow::decode_optional(&shadow),
        Err(DecodeError::InvalidHex { field: ReportField::Signature })
    );
}

#[test]
fn clone_of_a_report_equals_it() {
    let report = sample_report();
    assert_eq!(report.clone(), report);
}
