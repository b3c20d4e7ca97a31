use avr_history::{
    AvrHistoryConfig, AvrHistoryRecord, AvrHistoryRecordShadow, DecodeError, Format,
    InvariantError, LoadError, LookupResult, ReportField, VerificationReport,
    VerificationReportShadow, Window,
};
use std::cell::Cell;

fn sample_report(tag: u8) -> VerificationReport {
    VerificationReport {
        signature: vec![tag, 0x01, 0xfe],
        certificate_chain: vec![vec![0x30, 0x82, tag], vec![0x30, 0x81, tag, 0x00]],
        body: format!("{{\"id\":\"{}\",\"isvEnclaveQuoteStatus\":\"OK\"}}", tag),
    }
}

fn sample_records() -> Vec<AvrHistoryRecord> {
    vec![
        AvrHistoryRecord {
            node_identity: String::from("node1.prod.example.com:443"),
            first_valid_index: 0,
            last_valid_index: Some(500_000),
            report: Some(sample_report(1)),
        },
        AvrHistoryRecord {
            node_identity: String::from("node1.prod.example.com:443"),
            first_valid_index: 500_001,
            last_valid_index: Some(600_000),
            report: None,
        },
        AvrHistoryRecord {
            node_identity: String::from("node1.prod.example.com:443"),
            first_valid_index: 600_001,
            last_valid_index: None,
            report: Some(sample_report(2)),
        },
        AvrHistoryRecord {
            node_identity: String::from("node2.prod.example.com:443"),
            first_valid_index: 0,
            last_valid_index: None,
            report: Some(sample_report(3)),
        },
    ]
}

fn sample_history() -> AvrHistoryConfig {
    AvrHistoryConfig::new(sample_records()).unwrap()
}

fn json_of(shadows: &[AvrHistoryRecordShadow]) -> String {
    let nodes = shadows
        .iter()
        .map(|shadow| {
            let mut node = serde_json::Map::new();
            node.insert(
                String::from("node_identity"),
                serde_json::Value::from(shadow.node_identity.clone()),
            );
            node.insert(
                String::from("first_valid_index"),
                serde_json::Value::from(shadow.first_valid_index),
            );
            node.insert(
                String::from("last_valid_index"),
                serde_json::Value::from(shadow.last_valid_index),
            );
            let report = match &shadow.report {
                None => serde_json::Value::Null,
                Some(report) => {
                    let mut fields = serde_json::Map::new();
                    fields.insert(
                        String::from("signature"),
                        serde_json::Value::from(report.signature.clone()),
                    );
                    fields.insert(
                        String::from("certificate_chain"),
                        serde_json::Value::from(report.certificate_chain.clone()),
                    );
                    fields.insert(String::from("body"), serde_json::Value::from(report.body.clone()));
                    serde_json::Value::Object(fields)
                }
            };
            node.insert(String::from("report"), report);
            serde_json::Value::Object(node)
        })
        .collect::<Vec<_>>();
    let mut root = serde_json::Map::new();
    root.insert(String::from("node"), serde_json::Value::Array(nodes));
    serde_json::to_string_pretty(&serde_json::Value::Object(root)).unwrap()
}

fn shadows_of_json(text: &str) -> Result<Vec<AvrHistoryRecordShadow>, String> {
    let root: serde_json::Value = serde_json::from_str(text).map_err(|e| e.to_string())?;
    let nodes = root
        .get("node")
        .and_then(|nodes| nodes.as_array())
        .ok_or_else(|| String::from("missing field `node`"))?;
    let mut shadows = Vec::new();
    for node in nodes {
        let report = match node.get("report") {
            None | Some(serde_json::Value::Null) => None,
            Some(report) => Some(VerificationReportShadow {
                signature: report["signature"].as_str().ok_or("signature")?.to_string(),
                certificate_chain: report["certificate_chain"]
                    .as_array()
                    .ok_or("certificate_chain")?
                    .iter()
                    .map(|c| c.as_str().map(String::from).ok_or("certificate"))
                    .collect::<Result<Vec<_>, _>>()?,
                body: report["body"].as_str().ok_or("body")?.to_string(),
            }),
        };
        shadows.push(AvrHistoryRecordShadow {
            node_identity: node["node_identity"].as_str().ok_or("node_identity")?.to_string(),
            first_valid_index: node["first_valid_index"].as_u64().ok_or("first_valid_index")?,
            last_valid_index: node.get("last_valid_index").and_then(|last| last.as_u64()),
            report,
        });
    }
    Ok(shadows)
}

fn toml_of(shadows: &[AvrHistoryRecordShadow]) -> String {
    let nodes = shadows
        .iter()
        .map(|shadow| {
            let mut node = toml::Table::new();
            node.insert(
                String::from("node_identity"),
                toml::Value::String(shadow.node_identity.clone()),
            );
            node.insert(
                String::from("first_valid_index"),
                toml::Value::Integer(i64::try_from(shadow.first_valid_index).unwrap()),
            );
            if let Some(last) = shadow.last_valid_index {
                node.insert(
                    String::from("last_valid_index"),
                    toml::Value::Integer(i64::try_from(last).unwrap()),
                );
            }
            if let Some(report) = &shadow.report {
                let mut fields = toml::Table::new();
                fields.insert(
                    String::from("signature"),
                    toml::Value::String(report.signature.clone()),
                );
                fields.insert(
                    String::from("certificate_chain"),
                    toml::Value::Array(
                        report
                            .certificate_chain
                            .iter()
                            .map(|c| toml::Value::String(c.clone()))
                            .collect(),
                    ),
                );
                fields.insert(String::from("body"), toml::Value::String(report.body.clone()));
                node.insert(String::from("report"), toml::Value::Table(fields));
            }
            toml::Value::Table(node)
        })
        .collect::<Vec<_>>();
    let mut root = toml::Table::new();
    root.insert(String::from("node"), toml::Value::Array(nodes));
    toml::to_string_pretty(&root).unwrap()
}

fn shadows_of_toml(text: &str) -> Result<Vec<AvrHistoryRecordShadow>, String> {
    let root: toml::Table = toml::from_str(text).map_err(|e| e.to_string())?;
    let nodes = root
        .get("node")
        .and_then(|nodes| nodes.as_array())
        .ok_or_else(|| String::from("missing field `node`"))?;
    let index = |value: &toml::Value| value.as_integer().and_then(|i| u64::try_from(i).ok());
    let mut shadows = Vec::new();
    for node in nodes {
        let report = match node.get("report") {
            None => None,
            Some(report) => Some(VerificationReportShadow {
                signature: report["signature"].as_str().ok_or("signature")?.to_string(),
                certificate_chain: report["certificate_chain"]
                    .as_array()
                    .ok_or("certificate_chain")?
                    .iter()
                    .map(|c| c.as_str().map(String::from).ok_or("certificate"))
                    .collect::<Result<Vec<_>, _>>()?,
                body: report["body"].as_str().ok_or("body")?.to_string(),
            }),
        };
        shadows.push(AvrHistoryRecordShadow {
            node_identity: node["node_identity"].as_str().ok_or("node_identity")?.to_string(),
            first_valid_index: index(&node["first_valid_index"]).ok_or("first_valid_index")?,
            last_valid_index: node.get("last_valid_index").and_then(index),
            report,
        });
    }
    Ok(shadows)
}

fn parse(format: Format, text: String) -> Result<Vec<AvrHistoryRecordShadow>, String> {
    match format {
        Format::Json => shadows_of_json(&text),
        Format::Toml => shadows_of_toml(&text),
    }
}

#[test]
fn test_avr_history_serialization_roundtrip_works() {
    let control_avr_history = sample_history();

    let toml_str = toml_of(&control_avr_history.to_shadow());
    let json_str = json_of(&control_avr_history.to_shadow());

    let history_from_toml = AvrHistoryConfig::from_shadow(shadows_of_toml(&toml_str).unwrap()).unwrap();
    let history_from_json = AvrHistoryConfig::from_shadow(shadows_of_json(&json_str).unwrap()).unwrap();

    assert_eq!(control_avr_history, history_from_toml);
    assert_eq!(control_avr_history, history_from_json);
}

#[test]
fn test_avr_history_load_from_disk() {
    let control_avr_history = sample_history();
    let json = json_of(&control_avr_history.to_shadow());
    let toml = toml_of(&control_avr_history.to_shadow());

    let avr_history_from_json =
        AvrHistoryConfig::load("/tmp/x/avr-history.json", |_| Some(json.clone()), parse).unwrap();
    let avr_history_from_toml =
        AvrHistoryConfig::load("/tmp/x/avr-history.toml", |_| Some(toml.clone()), parse).unwrap();

    assert_eq!(control_avr_history, avr_history_from_json);
    assert_eq!(control_avr_history, avr_history_from_toml);
}

#[test]
fn test_bad_load_from_disk() {
    let message = "missing field `node` at line 2815 column 1";
    let avr_history_from_json = AvrHistoryConfig::load(
        "/tmp/x/bad_format.json",
        |_| Some(String::from("{\"id\": \"1\"}")),
        |_, _| Err(String::from(message)),
    );

    let expected_error =
        Err(LoadError::ParseError { format: Format::Json, message: String::from(message) });
    assert_eq!(expected_error, avr_history_from_json);
}

#[test]
fn unsupported_extension() {
    let path_json = "/tmp/x/avrhistory.config";
    let json = json_of(&sample_history().to_shadow());

    let result = AvrHistoryConfig::load(path_json, |_| Some(json.clone()), parse);
    assert_eq!(result, Err(LoadError::UnrecognizedFormat { path: String::from(path_json) }));
}

#[test]
fn no_extension() {
    let path_json = "/tmp/x/avrhistory";
    let json = json_of(&sample_history().to_shadow());

    let result = AvrHistoryConfig::load(path_json, |_| Some(json.clone()), parse);
    assert_eq!(result, Err(LoadError::UnrecognizedFormat { path: String::from(path_json) }));
}

#[test]
fn format_follows_the_extension_and_not_the_content() {
    let toml = toml_of(&sample_history().to_shadow());
    let asked = Cell::new(None);
    let result = AvrHistoryConfig::load(
        "history.json",
        |_| Some(toml.clone()),
        |format, text| {
            asked.set(Some(format));
            parse(format, text)
        },
    );
    assert_eq!(asked.get(), Some(Format::Json));
    assert!(matches!(result, Err(LoadError::ParseError { format: Format::Json, .. })));

    let json = json_of(&sample_history().to_shadow());
    let asked = Cell::new(None);
    let result = AvrHistoryConfig::load(
        "history.toml",
        |_| Some(json.clone()),
        |format, text| {
            asked.set(Some(format));
            parse(format, text)
        },
    );
    assert_eq!(asked.get(), Some(Format::Toml));
    assert!(matches!(result, Err(LoadError::ParseError { format: Format::Toml, .. })));

    let asked = Cell::new(None);
    let result = AvrHistoryConfig::load(
        "history.cfg",
        |_| Some(json.clone()),
        |format, text| {
            asked.set(Some(format));
            parse(format, text)
        },
    );
    assert_eq!(asked.get(), None);
    assert_eq!(result, Err(LoadError::UnrecognizedFormat { path: String::from("history.cfg") }));
}

#[test]
fn load_hands_the_text_it_read_to_the_parser() {
    let seen = Cell::new(false);
    let result = AvrHistoryConfig::load(
        "dir/history.json",
        |path| {
            assert_eq!(path, "dir/history.json");
            Some(String::from("{\"node\": []}"))
        },
        |format, text| {
            assert_eq!(text, "{\"node\": []}");
            seen.set(true);
            parse(format, text)
        },
    );
    assert!(seen.get());
    assert_eq!(result, Ok(AvrHistoryConfig::default()));
}

#[test]
fn load_reports_a_file_that_cannot_be_read() {
    let result = AvrHistoryConfig::load("/nowhere/history.json", |_| None, parse);
    assert_eq!(result, Err(LoadError::IoError { path: String::from("/nowhere/history.json") }));
    let result = AvrHistoryConfig::load("/nowhere/history.cfg", |_| None, parse);
    assert_eq!(result, Err(LoadError::IoError { path: String::from("/nowhere/history.cfg") }));
}

#[test]
fn load_hands_on_the_message_of_the_parser() {
    let result = AvrHistoryConfig::load("h.json", |_| Some(String::from("{\"node\": [")), parse);
    let expected = serde_json::from_str::<serde_json::Value>("{\"node\": [").unwrap_err().to_string();
    assert_eq!(result, Err(LoadError::ParseError { format: Format::Json, message: expected }));

    let result = AvrHistoryConfig::load("h.toml", |_| Some(String::from("node = [")), parse);
    let expected = toml::from_str::<toml::Table>("node = [").unwrap_err().to_string();
    assert_eq!(result, Err(LoadError::ParseError { format: Format::Toml, message: expected }));
}

#[test]
fn load_sorts_what_the_file_held() {
    let mut shadows = sample_history().to_shadow();
    shadows.reverse();
    let json = json_of(&shadows);
    let history = AvrHistoryConfig::load("h.json", |_| Some(json.clone()), parse).unwrap();
    assert_eq!(history, sample_history());
    let firsts: Vec<(String, u64)> = history
        .records()
        .iter()
        .map(|r| (r.node_identity.clone(), r.first_valid_index))
        .collect();
    let mut sorted = firsts.clone();
    sorted.sort();
    assert_eq!(firsts, sorted);
    assert_eq!(history.lookup("node1.prod.example.com:443", 550_000), LookupResult::ExplicitNoReport);
}

#[test]
fn load_rejects_overlapping_windows() {
    let json = "{\"node\": [
        {\"node_identity\": \"A\", \"first_valid_index\": 10, \"last_valid_index\": 20, \"report\": null},
        {\"node_identity\": \"A\", \"first_valid_index\": 15, \"last_valid_index\": 25, \"report\": null}
    ]}";
    let result = AvrHistoryConfig::load("history.json", |_| Some(String::from(json)), parse);
    assert_eq!(
        result,
        Err(LoadError::Invariant(InvariantError::OverlapDetected {
            node: String::from("A"),
            range_a: Window { first: 10, last: Some(20) },
            range_b: Window { first: 15, last: Some(25) },
        }))
    );
}

#[test]
fn load_rejects_a_window_that_ends_before_it_begins() {
    let toml = "[[node]]\nnode_identity = \"A\"\nfirst_valid_index = 7\nlast_valid_index = 3\n";
    let result = AvrHistoryConfig::load("history.toml", |_| Some(String::from(toml)), parse);
    assert_eq!(
        result,
        Err(LoadError::Invariant(InvariantError::InvalidRange {
            node: String::from("A"),
            first: 7,
            last: 3,
        }))
    );
}

#[test]
fn load_names_the_record_and_field_that_is_not_hex() {
    let json = "{\"node\": [
        {\"node_identity\": \"B\", \"first_valid_index\": 0, \"last_valid_index\": null, \"report\": null},
        {\"node_identity\": \"A\", \"first_valid_index\": 0, \"last_valid_index\": null,
         \"report\": {\"signature\": \"00\", \"certificate_chain\": [\"0a\", \"0\"], \"body\": \"\"}},
        {\"node_identity\": \"A\", \"first_valid_index\": 0, \"last_valid_index\": null,
         \"report\": {\"signature\": \"zz\", \"certificate_chain\": [], \"body\": \"\"}}
    ]}";
    let result = AvrHistoryConfig::load("history.json", |_| Some(String::from(json)), parse);
    assert_eq!(
        result,
        Err(LoadError::Decode {
            record: 1,
            error: DecodeError::InvalidHex { field: ReportField::Certificate { index: 1 } },
        })
    );
}

#[test]
fn from_parsed_hands_on_the_format_with_the_message() {
    assert_eq!(
        AvrHistoryConfig::from_parsed(Format::Toml, Err(String::from("expected `=`"))),
        Err(LoadError::ParseError { format: Format::Toml, message: String::from("expected `=`") })
    );
    assert_eq!(
        AvrHistoryConfig::from_parsed(Format::Json, Ok(sample_history().to_shadow())),
        Ok(sample_history())
    );
}

#[test]
fn shadows_read_back_to_the_history() {
    let history = sample_history();
    let shadows = history.to_shadow();
    assert_eq!(shadows.len(), 4);
    assert_eq!(shadows[0].report.as_ref().unwrap().signature, "0101fe");
    assert_eq!(shadows[1].report, None);
    assert_eq!(AvrHistoryConfig::from_shadow(shadows), Ok(history));
}

#[test]
fn record_shadow_reads_back_to_the_record() {
    for record in sample_records() {
        let shadow = AvrHistoryRecordShadow::encode(&record);
        assert_eq!(shadow.node_identity, record.node_identity);
        assert_eq!(shadow.first_valid_index, record.first_valid_index);
        assert_eq!(shadow.last_valid_index, record.last_valid_index);
        assert_eq!(shadow.report.is_none(), record.report.is_none());
        assert_eq!(shadow.decode(), Ok(record));
    }
}

#[test]
fn of_path_reads_the_extension() {
    assert_eq!(Format::of_path("history.json"), Some(Format::Json));
    assert_eq!(Format::of_path("history.toml"), Some(Format::Toml));
    assert_eq!(Format::of_path("/etc/avr/avr-history.toml"), Some(Format::Toml));
    assert_eq!(Format::of_path("archive.tar.json"), Some(Format::Json));
    assert_eq!(Format::of_path("dir.d/history.json"), Some(Format::Json));
    assert_eq!(Format::of_path("a/.hidden.json"), Some(Format::Json));
    assert_eq!(Format::of_path("history.cfg"), None);
    assert_eq!(Format::of_path("history"), None);
    assert_eq!(Format::of_path(""), None);
    assert_eq!(Format::of_path("history."), None);
    assert_eq!(Format::of_path("history.JSON"), None);
    assert_eq!(Format::of_path("history.jsonx"), None);
    assert_eq!(Format::of_path("history.jso"), None);
    assert_eq!(Format::of_path("history.json.bak"), None);
    assert_eq!(Format::of_path("dir.json/history"), None);
    assert_eq!(Format::of_path("dir.toml/"), None);
    assert_eq!(Format::of_path(".json"), None);
    assert_eq!(Format::of_path("dir/.toml"), None);
    assert_eq!(Format::of_path("json"), None);
    assert_eq!(Format::of_path("r\u{e9}sum\u{e9}.toml"), Some(Format::Toml));
}

#[test]
fn of_path_agrees_with_the_extension_of_a_path() {
    let paths = [
        "history.json", "history.toml", "a/b/c.json", "a.b/c", ".json", "a/.toml", "x.tar.toml",
        "history", "history.", "x.json.bak", "a.json/b.toml", "", "/", "a/", "..json", "a/..toml",
    ];
    for path in paths {
        let expected = match std::path::Path::new(path).extension().and_then(|e| e.to_str()) {
            Some("json") => Some(Format::Json),
            Some("toml") => Some(Format::Toml),
            _ => None,
        };
        assert_eq!(Format::of_path(path), expected, "{}", path);
    }
}

#[test]
fn for_path_refuses_with_the_path() {
    assert_eq!(Format::for_path("history.json"), Ok(Format::Json));
    assert_eq!(Format::for_path("history.toml"), Ok(Format::Toml));
    assert_eq!(
        Format::for_path("history.cfg"),
        Err(LoadError::UnrecognizedFormat { path: String::from("history.cfg") })
    );
}
