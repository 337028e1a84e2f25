use serde_json::Value;
use store_journal::codec::{
    decode_agent_record_permissive, decode_agent_store, decode_team_store, unknown_field_name,
};

fn parse(bytes: &[u8]) -> Result<Vec<u64>, String> {
    serde_json::from_slice(bytes).map_err(|e| e.to_string())
}

#[test]
fn stores_are_decoded_fail_closed() {
    assert_eq!(decode_agent_store(b"[1, 2, 3]", parse).unwrap(), vec![1, 2, 3]);
    assert_eq!(decode_team_store(b"[]", parse).unwrap(), Vec::<u64>::new());
    let error = decode_agent_store(b"[1, -2]", parse).unwrap_err();
    assert_eq!(error.message, format!("agent store decode failed: {}", parse(b"[1, -2]").unwrap_err()));
    assert_eq!(error.text(), error.message);
    let error = decode_team_store(b"{", parse).unwrap_err();
    assert_eq!(error.text(), format!("team store decode failed: {}", parse(b"{").unwrap_err()));
}

#[test]
fn unknown_fields_are_recognized() {
    assert_eq!(
        unknown_field_name("unknown field `x`, expected `a` or `b`"),
        Some("x".to_string())
    );
    assert_eq!(unknown_field_name("unknown field ``, expected `a`"), Some(String::new()));
    assert_eq!(unknown_field_name("unknown field `open"), Some("open".to_string()));
    assert_eq!(unknown_field_name("unknown field x"), None);
    assert_eq!(unknown_field_name("missing field `x`"), None);
    assert_eq!(unknown_field_name(""), None);
}

/// A record with the one field `name`, decoded with errors as a strict parser
/// words them.
fn strict(v: &Value) -> Result<String, String> {
    let fields = match v.as_object() {
        Some(fields) => fields,
        None => return Err("invalid type".to_string()),
    };
    for key in fields.keys() {
        if key != "name" {
            return Err(format!("unknown field `{key}`, expected `name`"));
        }
    }
    match fields.get("name").and_then(Value::as_str) {
        Some(name) => Ok(name.to_string()),
        None => Err("missing field `name`".to_string()),
    }
}

fn object(fields: &[(&str, &str)], unknown: usize) -> Value {
    let mut map = serde_json::Map::new();
    for (k, v) in fields {
        map.insert(k.to_string(), Value::String(v.to_string()));
    }
    for i in 0..unknown {
        map.insert(format!("unknown{i}"), Value::Null);
    }
    Value::Object(map)
}

#[test]
fn unknown_fields_are_stripped() {
    let n = Some("n".to_string());
    assert_eq!(decode_agent_record_permissive(object(&[("name", "n")], 0), strict), n);
    assert_eq!(decode_agent_record_permissive(object(&[("name", "n")], 3), strict), n);
}

#[test]
fn attempts_are_limited() {
    let n = Some("n".to_string());
    assert_eq!(decode_agent_record_permissive(object(&[("name", "n")], 31), strict), n);
    assert_eq!(decode_agent_record_permissive(object(&[("name", "n")], 32), strict), None);
}

#[test]
fn invalid_records_are_not_repaired() {
    assert_eq!(decode_agent_record_permissive(object(&[], 0), strict), None);
    assert_eq!(decode_agent_record_permissive(object(&[], 2), strict), None);
    assert_eq!(decode_agent_record_permissive(Value::Null, strict), None);
    let not_an_object =
        |_: &Value| -> Result<String, String> { Err("unknown field `x`, expected `name`".to_string()) };
    assert_eq!(decode_agent_record_permissive(Value::Array(vec![]), not_an_object), None);
}
