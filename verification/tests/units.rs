//! The metadata grammar and the text machinery at the edges: status
//! parsing, template rewriting and formatting, data entries, JSON escaping
//! and key ordering.

use anyhow_http::attr::{parse_and_validate_status_code, parse_data, parse_reason, DataArg, DataKey};
use anyhow_http::emit::format_template;
use anyhow_http::http_error::HttpError;
use anyhow_http::response::Json;
use anyhow_http::schema::{DiagnosticCode, SrcLoc};
use anyhow_http::value::Value;

fn here() -> SrcLoc {
    SrcLoc { line: 1, column: 1 }
}

#[test]
fn status_codes_parse_and_validate() {
    assert_eq!(parse_and_validate_status_code("400", here(), here()), Ok(400));
    assert_eq!(parse_and_validate_status_code(" 502 ", here(), here()), Ok(502));
    assert_eq!(parse_and_validate_status_code("100", here(), here()), Ok(100));
    assert_eq!(parse_and_validate_status_code("999", here(), here()), Ok(999));
    assert_eq!(
        parse_and_validate_status_code("99", here(), here()).map_err(|d| d.code),
        Err(DiagnosticCode::InvalidStatusCode)
    );
    assert_eq!(
        parse_and_validate_status_code("1000", here(), here()).map_err(|d| d.code),
        Err(DiagnosticCode::InvalidStatusCode)
    );
    assert_eq!(
        parse_and_validate_status_code("4x4", here(), here()).map_err(|d| d.code),
        Err(DiagnosticCode::MalformedAttribute)
    );
    assert_eq!(
        parse_and_validate_status_code("123456", here(), here()).map_err(|d| d.code),
        Err(DiagnosticCode::MalformedAttribute)
    );
}

#[test]
fn reason_templates_are_rewritten() {
    assert_eq!(
        parse_reason("\"reason {0}\"", here()),
        Ok("reason {__f_0}".to_string())
    );
    assert_eq!(
        parse_reason("\"plain text\"", here()),
        Ok("plain text".to_string())
    );
    assert_eq!(
        parse_reason("\"a {x} b {y}\"", here()),
        Ok("a {__f_x} b {__f_y}".to_string())
    );
    assert_eq!(
        parse_reason("no quotes", here()).map_err(|d| d.code),
        Err(DiagnosticCode::MalformedAttribute)
    );
}

fn key_text(k: &DataKey) -> String {
    match k {
        DataKey::Lit(s) => format!("lit:{s}"),
        DataKey::Expr(s) => format!("expr:{s}"),
    }
}

fn arg_text(a: &DataArg) -> String {
    match a {
        DataArg::Format(s) => format!("fmt:{s}"),
        DataArg::Lit(Value::Int(n)) => format!("int:{n}"),
        DataArg::Lit(Value::Bool(b)) => format!("bool:{b}"),
        DataArg::Lit(Value::Str(s)) => format!("str:{s}"),
        DataArg::Lit(Value::Null) => "null".to_string(),
        DataArg::Expr(s) => format!("expr:{s}"),
    }
}

#[test]
fn data_entries_parse() {
    let entries = parse_data("code = 1234, info = \"info {0}\"").unwrap();
    let flat: Vec<(String, String)> = entries
        .iter()
        .map(|(k, v)| (key_text(k), arg_text(v)))
        .collect();
    assert_eq!(
        flat,
        vec![
            ("lit:code".to_string(), "int:1234".to_string()),
            ("lit:info".to_string(), "fmt:info {__f_0}".to_string()),
        ]
    );
}

#[test]
fn data_entries_accept_dynamic_keys_and_expressions() {
    let entries = parse_data("{DATA_KEY} = ErrorCode::Invalid as u32, flag = true").unwrap();
    let flat: Vec<(String, String)> = entries
        .iter()
        .map(|(k, v)| (key_text(k), arg_text(v)))
        .collect();
    assert_eq!(
        flat,
        vec![
            (
                "expr:DATA_KEY".to_string(),
                "expr:ErrorCode::Invalid as u32".to_string()
            ),
            ("lit:flag".to_string(), "bool:true".to_string()),
        ]
    );
}

#[test]
fn data_entries_tolerate_commas_inside_literals_and_brackets() {
    let entries = parse_data("msg = \"a, b\", pair = (1, 2),").unwrap();
    let flat: Vec<(String, String)> = entries
        .iter()
        .map(|(k, v)| (key_text(k), arg_text(v)))
        .collect();
    assert_eq!(
        flat,
        vec![
            ("lit:msg".to_string(), "fmt:a, b".to_string()),
            ("lit:pair".to_string(), "expr:(1, 2)".to_string()),
        ]
    );
}

#[test]
fn data_entries_replace_repeated_keys() {
    let entries = parse_data("code = 1, code = 2").unwrap();
    let flat: Vec<(String, String)> = entries
        .iter()
        .map(|(k, v)| (key_text(k), arg_text(v)))
        .collect();
    assert_eq!(flat, vec![("lit:code".to_string(), "int:2".to_string())]);
}

#[test]
fn data_entries_reject_bad_shapes() {
    assert!(parse_data("just_a_word").is_none());
    assert!(parse_data("a = 1,, b = 2").is_none());
    assert!(parse_data("= 3").is_none());
    assert!(parse_data("\"unbalanced = 1").is_none());
}

#[test]
fn templates_format_over_bindings() {
    let binds: Vec<(String, String)> = vec![
        ("__f_0".to_string(), "1234".to_string()),
        ("__f_count".to_string(), "seven".to_string()),
    ];
    assert_eq!(format_template("reason {__f_0}", &binds), "reason 1234");
    assert_eq!(
        format_template("{__f_count} and {__f_0}", &binds),
        "seven and 1234"
    );
    assert_eq!(format_template("no holes", &binds), "no holes");
    assert_eq!(format_template("{__f_missing}", &binds), "{__f_missing}");
    assert_eq!(format_template("open {__f_0", &binds), "open {__f_0");
}

#[test]
fn json_bodies_escape_strings() {
    let mut e = HttpError::from_status_code(400).with_reason("say \"hi\"\n".to_string());
    e.add("k\\ey".to_string(), Value::Str("a\tb".to_string()))
        .unwrap();
    let body = Json::into_http_error_response(e).body;
    assert_eq!(
        body,
        "{\"error\":\"say \\\"hi\\\"\\n\",\"k\\\\ey\":\"a\\tb\"}"
    );
}

#[test]
fn json_keys_come_out_sorted() {
    let mut e = HttpError::from_status_code(400).with_reason("r".to_string());
    e.add("zeta".to_string(), Value::Int(1)).unwrap();
    e.add("alpha".to_string(), Value::Int(2)).unwrap();
    e.add("middle".to_string(), Value::Null).unwrap();
    let body = Json::into_http_error_response(e).body;
    assert_eq!(
        body,
        "{\"alpha\":2,\"error\":\"r\",\"middle\":null,\"zeta\":1}"
    );
}

#[test]
fn payload_values_render_in_templates() {
    let mut e = HttpError::from_status_code(400);
    e.add("neg".to_string(), Value::Int(-42)).unwrap();
    let body = Json::into_http_error_response(e).body;
    assert_eq!(body, "{\"error\":\"Bad Request\",\"neg\":-42}");
}

#[test]
fn repeated_payload_keys_replace_in_place() {
    let mut e = HttpError::from_status_code(400);
    e.add("key".to_string(), Value::Int(1)).unwrap();
    e.add("key".to_string(), Value::Int(2)).unwrap();
    assert_eq!(e.get("key").and_then(|v| v.as_i64()), Some(2));
}

#[test]
fn header_values_replace_under_the_same_name() {
    let e = HttpError::from_status_code(400)
        .with_header("retry-after".to_string(), "1".to_string())
        .with_header("retry-after".to_string(), "2".to_string());
    assert_eq!(e.header("retry-after").map(|v| v.as_str()), Some("2"));
    assert_eq!(e.headers().len(), 1);
}
