//! The configuration parser's behaviour.

use gemini_protocol::config::parser::{alt, block, ident, number, property_with_name, string, take_inclusive};
use gemini_protocol::config::Error::{
    InvalidNumber, StringExpectedEndingQuote, StringExpectedStartingQuote,
};
use gemini_protocol::config::{read_and_parse_config, GetProperty, Value};

#[test]
fn test_file() {
    let input = r#"
server
{
    port 1965;

    vhost
    {
        hostname  "localhost";
        tls_cert  "cert.pem";
        tls_key   "key.key";

        route
        {
            path         "/index";
            respond_body "=> Hello, World!";
        }
    }
}
    "#;

    let config = read_and_parse_config(input);
    assert!(config.is_ok());
}

#[test]
fn test_string() {
    let cases = vec![
        ("hello", Err(StringExpectedStartingQuote("hello".to_string()))),
        (r#"hello""#, Err(StringExpectedStartingQuote("hello\"".to_string()))),
        (
            r#""hello"world"#,
            Ok(("world".to_string(), Value::String("hello".to_string()))),
        ),
        (
            r#""unterminated"#,
            Err(StringExpectedEndingQuote("\"unterminated".to_string())),
        ),
        ("\"", Err(StringExpectedEndingQuote("\"".to_string()))),
        ("''", Err(StringExpectedStartingQuote("''".to_string()))),
        (r#""""#, Ok(("".to_string(), Value::String("".to_string())))),
        ("", Err(StringExpectedStartingQuote("".to_string()))),
        (" ", Err(StringExpectedStartingQuote(" ".to_string()))),
        (r#"42"#, Err(StringExpectedStartingQuote("42".to_string()))),
    ];

    for (input, expected) in cases {
        assert_eq!(string(input), expected);
    }
}

#[test]
fn test_number() {
    let cases = vec![
        ("hello", Err(InvalidNumber("hello".to_string()))),
        ("42", Ok(("".to_string(), Value::Number(42)))),
        ("42 ", Ok((" ".to_string(), Value::Number(42)))),
        ("42hello", Ok(("hello".to_string(), Value::Number(42)))),
        ("42.0", Ok((".0".to_string(), Value::Number(42)))),
        ("42.0 ", Ok((".0 ".to_string(), Value::Number(42)))),
        ("42.0hello", Ok((".0hello".to_string(), Value::Number(42)))),
    ];

    for (input, expected) in cases {
        assert_eq!(number(input), expected);
    }
}

#[test]
fn test_number_overflow_is_invalid() {
    assert_eq!(
        number("4294967295"),
        Ok(("".to_string(), Value::Number(4294967295)))
    );
    assert_eq!(
        number("4294967296"),
        Err(InvalidNumber("4294967296".to_string()))
    );
}

#[test]
fn test_config_structure() {
    let input = r#"
server
{
    port 1965;

    vhost
    {
        hostname  "localhost";
        tls_cert  "cert.pem";
        tls_key   "key.key";

        route
        {
            path "/index";
        }
    }
}
    "#;

    let config = read_and_parse_config(input).unwrap();
    assert_eq!(config.get_property_number("port"), Some(1965));
    assert_eq!(config.get_property_string("port"), None);
    assert_eq!(config.server.vhosts.len(), 1);

    let vhost = &config.server.vhosts[0];
    assert_eq!(vhost.vhost.0, "localhost");
    assert_eq!(vhost.get_property_string("tls_cert"), Some("cert.pem"));
    assert_eq!(vhost.get_property_string("tls_key"), Some("key.key"));
    assert_eq!(vhost.get_property_string("absent"), None);

    assert_eq!(vhost.routes.len(), 1);
    assert_eq!(vhost.routes[0].path.0, "/index");
    assert_eq!(vhost.routes[0].get_property_string("path"), Some("/index"));
}

#[test]
fn test_missing_hostname_is_rejected() {
    let input = "server { port 1965; vhost { tls_cert \"c\"; } }";
    let r = read_and_parse_config(input);
    assert_eq!(
        r,
        Err(gemini_protocol::config::Error::UnableToMaterializeStructure(
            "Missing 'hostname' property".to_string()
        ))
    );
}

#[test]
fn test_repeated_property_overrides() {
    let input = "server { port 1965; port 1966; }";
    let config = read_and_parse_config(input).unwrap();
    assert_eq!(config.get_property_number("port"), Some(1966));
}

#[test]
fn test_missing_identifier_is_rejected() {
    let r = read_and_parse_config("123");
    assert_eq!(
        r,
        Err(gemini_protocol::config::Error::ExpectedIdentifier("123".to_string()))
    );
}

#[test]
fn test_numeric_hostname_is_rejected() {
    let input = "server { vhost { hostname 5; } }";
    let r = read_and_parse_config(input);
    assert_eq!(
        r,
        Err(gemini_protocol::config::Error::InvalidBlockTag("hostname".to_string()))
    );
}

#[test]
fn test_ident_splits_off_name() {
    assert_eq!(
        ident("port 1965;"),
        Ok(("1965;".to_string(), "port".to_string()))
    );
    assert_eq!(
        ident("tls_cert \"c\";"),
        Ok(("\"c\";".to_string(), "tls_cert".to_string()))
    );
}

#[test]
fn test_take_inclusive_consumes_through_marker() {
    assert_eq!(take_inclusive(';', "a; b"), ("b".to_string(), true));
    assert_eq!(take_inclusive(';', "no marker"), ("".to_string(), true));
    assert_eq!(take_inclusive(';', ""), ("".to_string(), false));
}

#[test]
fn test_alt_takes_string_then_number() {
    assert_eq!(
        alt("\"x\" rest"),
        Ok(("rest".to_string(), Value::String("x".to_string())))
    );
    assert_eq!(alt("7;"), Ok((";".to_string(), Value::Number(7))));
    assert_eq!(alt("?"), Err(InvalidNumber("?".to_string())));
}

#[test]
fn test_property_with_name_reads_value_and_semicolon() {
    let (rest, p) = property_with_name("1965; next", "port").unwrap();
    assert_eq!(rest, "next");
    assert_eq!(p.name, "port");
    assert_eq!(p.value, Value::Number(1965));
}

#[test]
fn test_block_collects_properties() {
    let (rest, b) = block("srv { a 1; b \"two\"; }").unwrap();
    assert_eq!(rest, "");
    assert_eq!(b.tag.0, "srv");
    assert_eq!(b.properties.len(), 2);
    assert_eq!(b.properties[0].name, "a");
    assert_eq!(b.properties[0].value, Value::Number(1));
    assert_eq!(b.properties[1].name, "b");
    assert_eq!(b.properties[1].value, Value::String("two".to_string()));
    assert!(b.children.is_empty());
}
