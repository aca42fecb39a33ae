use garage_door::context::{ConnectionInformation, ConnectionInformationData};

fn data(scheme: &str, host: &str) -> ConnectionInformationData {
    ConnectionInformationData {
        scheme: scheme.to_string(),
        host: host.to_string(),
    }
}

#[test]
fn extension_identifier() {
    assert_eq!(
        ConnectionInformation::id(),
        "garage_door::connection_information"
    );
}

#[test]
fn encode_plain_context() {
    let c = ConnectionInformation(data("https", "example.com:8443"));
    assert_eq!(c.encode(), r#"{"scheme":"https","host":"example.com:8443"}"#);
}

#[test]
fn encoded_context_is_json() {
    let text = data("http", "we\"ird\\host").encode();
    let v: serde_json::Value = serde_json::from_str(&text).unwrap();
    assert_eq!(v["scheme"], "http");
    assert_eq!(v["host"], "we\"ird\\host");
}

#[test]
fn round_trip_contexts() {
    for (s, h) in [
        ("https", "example.com"),
        ("", ""),
        ("h\"t", "a\\b\"c"),
        ("http", "ünïcødé.example"),
        ("\\", "\""),
        ("tab\there", "nul\u{0}\u{1f}end"),
    ] {
        let d = data(s, h);
        assert_eq!(ConnectionInformation::decode(&d.encode()), Some(d.clone()));
    }
}

#[test]
fn decode_rejects_other_texts() {
    assert_eq!(ConnectionInformation::decode(""), None);
    assert_eq!(ConnectionInformation::decode("{}"), None);
    assert_eq!(
        ConnectionInformation::decode(r#"{"scheme":"https","host":"x"} "#),
        None
    );
    assert_eq!(
        ConnectionInformation::decode(r#"{"scheme":"a\q","host":"x"}"#),
        None
    );
    assert_eq!(
        ConnectionInformation::decode(r#"{"host":"x","scheme":"https"}"#),
        None
    );
}

#[test]
fn control_characters_are_escaped() {
    let d = data("a\tb", "\u{1}\n");
    let text = d.encode();
    assert_eq!(text, r#"{"scheme":"a\u0009b","host":"\u0001\u000a"}"#);
    let v: serde_json::Value = serde_json::from_str(&text).unwrap();
    assert_eq!(v["scheme"], "a\tb");
    assert_eq!(v["host"], "\u{1}\n");
    assert_eq!(ConnectionInformation::decode(&text), Some(d));
    assert_eq!(
        ConnectionInformation::decode("{\"scheme\":\"a\tb\",\"host\":\"x\"}"),
        None
    );
    assert_eq!(
        ConnectionInformation::decode(r#"{"scheme":"\u0020","host":"x"}"#),
        None
    );
}
