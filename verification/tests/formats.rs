use valico::json_schema::errors::ErrorKind;
use valico::json_schema::scope::Scope;
use valico::json_schema::state::ValidationState;
use valico::json_schema::validators::address::{is_ipv4_address, is_ipv6_address};
use valico::json_schema::validators::formats::{prefix_failure, report, Ipv4, Ipv6, Uri, Uuid};
use valico::number::Number;
use valico::value::Value;

fn text(s: &str) -> Value {
    Value::String(s.to_string())
}

fn format_schema(name: &str) -> Value {
    Value::Object(vec![("format".to_string(), text(name))])
}

fn check(format: &str, value: &Value) -> ValidationState {
    let mut scope = Scope::new();
    let schema = scope.compile_and_return(&format_schema(format), true).ok().unwrap();
    schema.validate_in(value, "here")
}

fn others() -> Vec<Value> {
    vec![
        Value::Null,
        Value::Bool(false),
        Value::Number(Number::from_bits(42f64.to_bits()).unwrap()),
        Value::Array(vec![text("999.999.999.999")]),
        Value::Object(vec![("a".to_string(), text("x"))]),
    ]
}

#[test]
fn ipv4_format_scenarios() {
    assert!(check("ipv4", &text("192.168.0.1")).is_valid());
    let state = check("ipv4", &text("999.999.999.999"));
    assert_eq!(state.errors.len(), 1);
    assert_eq!(state.errors[0].kind, ErrorKind::Format);
    assert_eq!(state.errors[0].path, "here");
    assert_eq!(state.errors[0].detail, "Wrong IP address");
    assert!(check("ipv4", &Value::Number(Number::from_bits(42f64.to_bits()).unwrap())).is_valid());
}

#[test]
fn formats_pass_what_is_not_a_string() {
    for format in ["ipv4", "ipv6", "uuid", "uri"] {
        for value in others() {
            assert!(check(format, &value).is_valid(), "{} {:?}", format, value);
        }
    }
}

#[test]
fn format_validators_pass_what_is_not_a_string() {
    let scope = Scope::new();
    for value in others() {
        assert!(Ipv4 { fragment: vec![] }.validate(&value, "p", &scope).is_valid());
        assert!(Ipv6 { fragment: vec![] }.validate(&value, "p", &scope).is_valid());
        assert!(Uuid { fragment: vec![] }.validate(&value, "p", &scope).is_valid());
        assert!(Uri { fragment: vec![] }.validate(&value, "p", &scope).is_valid());
    }
}

#[test]
fn ipv4_addresses() {
    for good in ["0.0.0.0", "255.255.255.255", "1.2.3.4", "127.0.0.1", "10.0.200.99", "192.168.0.1"]
    {
        assert!(is_ipv4_address(good), "{}", good);
    }
    for bad in [
        "",
        "1",
        "1.2.3",
        "1.2.3.4.5",
        "1.2.3.",
        ".1.2.3",
        "1..2.3",
        "256.1.1.1",
        "1.1.1.256",
        "999.999.999.999",
        "01.2.3.4",
        "1.2.3.04",
        "00.0.0.0",
        "1.2.3.4 ",
        " 1.2.3.4",
        "1.2.3.a",
        "1.2.3.-4",
        "+1.2.3.4",
        "1.2.3.1000",
        "0x1.2.3.4",
        "1,2,3,4",
        "１.2.3.4",
        "::1",
    ] {
        assert!(!is_ipv4_address(bad), "{}", bad);
    }
}

#[test]
fn ipv6_addresses() {
    for good in [
        "::",
        "::1",
        "1::",
        "1:2:3:4:5:6:7:8",
        "0:0:0:0:0:0:0:0",
        "ffff:FFFF:abcd:ABCD:0123:4567:89ab:cdef",
        "2001:db8::ff00:42:8329",
        "fe80::1",
        "1:2:3:4:5:6:7::",
        "::2:3:4:5:6:7:8",
        "1::3:4:5:6:7:8",
        "1:2:3:4:5:6::8",
        "::ffff:192.168.0.1",
        "::192.168.0.1",
        "1:2:3:4:5:6:1.2.3.4",
        "1:2:3:4:5::1.2.3.4",
        "64:ff9b::10.0.0.1",
        "0001:0002:0003:0004:0005:0006:0007:0008",
    ] {
        assert!(is_ipv6_address(good), "{}", good);
    }
    for bad in [
        "",
        ":",
        ":::",
        "1",
        "1:2:3:4:5:6:7",
        "1:2:3:4:5:6:7:8:9",
        "1:2:3:4:5:6:7:8::",
        "::1:2:3:4:5:6:7:8",
        "1::2::3",
        "1:::2",
        ":1:2:3:4:5:6:7",
        "1:2:3:4:5:6:7:",
        "12345::",
        "::12345",
        "g::",
        "1:2:3:4:5:6:7:1.2.3.4",
        "1:2:3:4:5:6::1.2.3.4",
        "1.2.3.4::",
        "1.2.3.4:5::",
        "::1.2.3.4:5",
        "::1.2.3",
        "::1.2.3.256",
        "::01.2.3.4",
        "1.2.3.4",
        "::1 ",
        "fe80::1%eth0",
        "[::1]",
        "1:2:3:4:5:6:7:8:",
    ] {
        assert!(!is_ipv6_address(bad), "{}", bad);
    }
}

#[test]
fn ipv6_format_reports_once() {
    assert!(check("ipv6", &text("::1")).is_valid());
    let state = check("ipv6", &text("192.168.0.1"));
    assert_eq!(state.errors.len(), 1);
    assert_eq!(state.errors[0].kind, ErrorKind::Format);
    assert_eq!(state.errors[0].detail, "Wrong IP address");
}

#[test]
fn uuid_format() {
    for good in [
        "550e8400-e29b-41d4-a716-446655440000",
        "550E8400-E29B-41D4-A716-446655440000",
        "550e8400e29b41d4a716446655440000",
        "{550e8400-e29b-41d4-a716-446655440000}",
        "urn:uuid:550e8400-e29b-41d4-a716-446655440000",
        "URN:UUID:550e8400-e29b-41d4-a716-446655440000",
    ] {
        assert!(check("uuid", &text(good)).is_valid(), "{}", good);
    }
    for bad in [
        "",
        "not-a-uuid",
        "550e8400-e29b-41d4-a716-44665544000",
        "550e8400-e29b-41d4-a716-4466554400000",
        "550e8400-e29b-41d4-a716-44665544000g",
        "550e8400e29b-41d4-a716-4466554400000",
        "{550e8400-e29b-41d4-a716-446655440000",
        "(550e8400-e29b-41d4-a716-446655440000)",
        "{550e8400e29b41d4a716446655440000}",
        "urn:uu1d:550e8400-e29b-41d4-a716-446655440000",
        "urn:uuid:550e8400e29b41d4a716446655440000abcd",
        "550e8400-e29b-41d4-a716_446655440000",
    ] {
        let state = check("uuid", &text(bad));
        assert_eq!(state.errors.len(), 1, "{}", bad);
        assert_eq!(state.errors[0].kind, ErrorKind::Format);
        assert_eq!(state.errors[0].path, "here");
        assert!(state.errors[0].detail.starts_with("Malformed UUID: "), "{}", bad);
    }
}

#[test]
fn uuid_detail_is_the_parser_s_own() {
    let state = check("uuid", &text("not-a-uuid"));
    assert_eq!(
        state.errors[0].detail,
        "Malformed UUID: Error(ParseChar { character: 'n', index: 0 })"
    );
    let state = check("uuid", &text("550e8400-e29b-41d4-a716"));
    assert_eq!(state.errors[0].detail, "Malformed UUID: Error(ParseGroupCount { count: 4 })");
}

#[test]
fn uri_format() {
    for good in [
        "http://example.com/",
        "https://example.net/a/b?c=d#e",
        "mailto:someone@example.com",
        "urn:isbn:0451450523",
        "file:///tmp/x",
    ] {
        assert!(check("uri", &text(good)).is_valid(), "{}", good);
    }
    let state = check("uri", &text("http://"));
    assert_eq!(state.errors.len(), 1);
    assert_eq!(state.errors[0].kind, ErrorKind::Format);
    assert_eq!(state.errors[0].path, "here");
    assert_eq!(state.errors[0].detail, "Malformed URI: empty host");
    let state = check("uri", &text("http://example.com:99999/"));
    assert_eq!(state.errors[0].detail, "Malformed URI: invalid port number");
}

#[test]
fn uri_format_admits_relative_locators() {
    for good in [
        "/a/b",
        "a/relative/path",
        "../up/and/over",
        "./here",
        "name.json",
        "?query=1",
        "#fragment",
        "#/definitions/x",
        "//example.com/path",
        "",
    ] {
        assert!(check("uri", &text(good)).is_valid(), "{}", good);
    }
    let scope = Scope::new();
    let state = Uri { fragment: vec![] }.validate(&text("/a/b"), "/link", &scope);
    assert_eq!(state.errors.len(), 0);

    // A relative locator can still be ill-formed.
    let state = check("uri", &text("//[::1/path"));
    assert_eq!(state.errors.len(), 1);
    assert_eq!(state.errors[0].kind, ErrorKind::Format);
    assert_eq!(state.errors[0].path, "here");
    assert_eq!(state.errors[0].detail, "Malformed URI: invalid IPv6 address");
    let state = check("uri", &text("//example.com:port/"));
    assert_eq!(state.errors[0].detail, "Malformed URI: invalid port number");
}

#[test]
fn report_puts_the_failure_at_the_path() {
    assert!(report(None, "x").is_valid());
    let state = report(Some("why".to_string()), "x/y");
    assert_eq!(state.errors.len(), 1);
    assert_eq!(state.errors[0].kind, ErrorKind::Format);
    assert_eq!(state.errors[0].path, "x/y");
    assert_eq!(state.errors[0].detail, "why");
    assert_eq!(prefix_failure("Malformed UUID: ", None), None);
    assert_eq!(
        prefix_failure("Malformed UUID: ", Some("x".to_string())),
        Some("Malformed UUID: x".to_string())
    );
}

#[test]
fn unknown_format_is_no_constraint() {
    assert!(check("date-time", &text("whatever")).is_valid());
    assert!(check("", &text("whatever")).is_valid());
}

#[test]
fn format_must_be_a_string() {
    let mut scope = Scope::new();
    let def = Value::Object(vec![("format".to_string(), Value::Bool(true))]);
    let error = scope.compile_and_return(&def, true).err().unwrap();
    let record = error.record();
    assert_eq!(record.kind, ErrorKind::Malformed);
    assert_eq!(record.path, "");
    assert_eq!(record.detail, "The value of format must be a string");
}
