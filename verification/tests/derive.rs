//! Generation and evaluation over a full tagged-union declaration: the
//! variants cover auto-wrap, named and positional sources, transparency and
//! dynamic data keys.

use anyhow_http::attr::{Arg, DataArg, DataKey};
use anyhow_http::emit::{to_http_error, wrap_source, FieldValue, VariantInstance};
use anyhow_http::generator::{derive_from_http_error, GeneratedImpl};
use anyhow_http::http_error::{GenericError, HttpError};
use anyhow_http::schema::{
    Diagnostic, DiagnosticCode, ErrorTypeDeclaration, FieldDecl, FieldShape, ItemDeclaration,
    RawMeta, SrcLoc, VariantDeclaration,
};
use anyhow_http::value::Value;

fn loc(line: u32) -> SrcLoc {
    SrcLoc { line, column: 1 }
}

fn meta(name: &str, payload: Option<&str>, line: u32) -> RawMeta {
    RawMeta {
        name: name.to_string(),
        payload: payload.map(|p| p.to_string()),
        loc: loc(line),
    }
}

fn field(name: Option<&str>, ty: &str, has_from: bool, has_source: bool) -> FieldDecl {
    FieldDecl {
        name: name.map(|n| n.to_string()),
        ty: ty.to_string(),
        has_from,
        has_source,
    }
}

/// The declaration the derive examples use throughout.
fn custom_error_decl() -> ErrorTypeDeclaration {
    ErrorTypeDeclaration {
        name: "CustomError".to_string(),
        variants: vec![
            VariantDeclaration {
                name: "From".to_string(),
                fields: FieldShape::Positional(vec![field(None, "anyhow::Error", true, false)]),
                metas: vec![
                    meta("status", Some("400"), 2),
                    meta("reason", Some("\"reason {0}\""), 2),
                ],
                loc: loc(2),
            },
            VariantDeclaration {
                name: "NamedWithSource".to_string(),
                fields: FieldShape::Named(vec![
                    field(Some("count"), "u64", false, false),
                    field(Some("source"), "anyhow::Error", false, true),
                ]),
                metas: vec![
                    meta("status", Some("400"), 4),
                    meta("reason", Some("\"reason {count}\""), 4),
                ],
                loc: loc(4),
            },
            VariantDeclaration {
                name: "UnamedWithSource".to_string(),
                fields: FieldShape::Positional(vec![
                    field(None, "u64", false, false),
                    field(None, "anyhow::Error", false, true),
                ]),
                metas: vec![
                    meta("status", Some("400"), 8),
                    meta("reason", Some("\"reason {0}\""), 8),
                    meta("data", Some("code = 1234, info = \"info {0}\""), 8),
                ],
                loc: loc(8),
            },
            VariantDeclaration {
                name: "Transparent".to_string(),
                fields: FieldShape::Positional(vec![field(None, "HttpError", false, true)]),
                metas: vec![meta("transparent", None, 12)],
                loc: loc(12),
            },
            VariantDeclaration {
                name: "ExprData".to_string(),
                fields: FieldShape::Positional(vec![field(None, "String", false, false)]),
                metas: vec![
                    meta("status", Some("404"), 14),
                    meta("data", Some("{DATA_KEY} = ErrorCode::Invalid as u32"), 14),
                ],
                loc: loc(14),
            },
        ],
        loc: loc(1),
    }
}

fn custom_error_plan() -> GeneratedImpl {
    derive_from_http_error(ItemDeclaration::Enum(custom_error_decl())).unwrap()
}

fn no_env() -> Vec<(String, Value)> {
    Vec::new()
}

#[test]
fn derive_enum_from() {
    let plan = custom_error_plan();
    let inst = wrap_source(&plan, 0, GenericError::Message("source".to_string()));
    let err: HttpError = to_http_error(&plan, inst, &no_env());

    assert_eq!(err.status_code(), 400);
    assert_eq!(err.reason(), Some("reason source".to_string()));
    assert_eq!(
        err.source().map(|s| s.render(false)),
        Some("source".to_string())
    );
}

#[test]
fn derive_enum_named_with_source() {
    let plan = custom_error_plan();
    let inst = VariantInstance {
        variant: 1,
        values: vec![
            FieldValue::Plain(Value::Int(1234)),
            FieldValue::Error(GenericError::Message("source".to_string())),
        ],
    };
    let err: HttpError = to_http_error(&plan, inst, &no_env());

    assert_eq!(err.status_code(), 400);
    assert_eq!(err.reason(), Some("reason 1234".to_string()));
    assert_eq!(
        err.source().map(|s| s.render(false)),
        Some("source".to_string())
    );
}

#[test]
fn derive_enum_unnamed_with_source() {
    let plan = custom_error_plan();
    let inst = VariantInstance {
        variant: 2,
        values: vec![
            FieldValue::Plain(Value::Int(1234)),
            FieldValue::Error(GenericError::Message("source".to_string())),
        ],
    };
    let err: HttpError = to_http_error(&plan, inst, &no_env());

    assert_eq!(err.status_code(), 400);
    assert_eq!(err.reason(), Some("reason 1234".to_string()));
    assert_eq!(err.get("code").and_then(|v| v.as_i64()), Some(1234));
    assert_eq!(
        err.get("info").and_then(|v| v.as_str().map(|s| s.to_string())),
        Some("info 1234".to_string())
    );
    assert_eq!(
        err.source().map(|s| s.render(false)),
        Some("source".to_string())
    );
}

#[test]
fn derive_enum_transparent() {
    let plan = custom_error_plan();
    let cause = HttpError::from_static(400, "bad request");
    let inst = VariantInstance {
        variant: 3,
        values: vec![FieldValue::Error(cause.into_boxed())],
    };
    let err: HttpError = to_http_error(&plan, inst, &no_env());

    assert_eq!(err.status_code(), 400);
    assert_eq!(err.reason(), Some("bad request".to_string()));
    assert!(err.source().is_none());
}

#[test]
fn derive_enum_expr_data() {
    let plan = custom_error_plan();
    let inst = VariantInstance {
        variant: 4,
        values: vec![FieldValue::Plain(Value::Str("expr data".to_string()))],
    };
    let env: Vec<(String, Value)> = vec![
        ("DATA_KEY".to_string(), Value::Str("key".to_string())),
        (
            "ErrorCode::Invalid as u32".to_string(),
            Value::Int(1234),
        ),
    ];
    let err: HttpError = to_http_error(&plan, inst, &env);

    assert_eq!(err.status_code(), 404);
    assert_eq!(err.get("key").and_then(|v| v.as_i64()), Some(1234));
    assert_eq!(err.reason(), None);
    assert_eq!(
        err.source().map(|s| s.render(false)),
        Some("CustomError :: ExprData".to_string())
    );
}

#[test]
fn derive_transparent_passes_through_context() {
    let plan = custom_error_plan();
    let cause = HttpError::from_static(400, "bad request");
    let inst = VariantInstance {
        variant: 3,
        values: vec![FieldValue::Error(GenericError::Context(
            "while talking upstream".to_string(),
            Box::new(cause.into_boxed()),
        ))],
    };
    let err: HttpError = to_http_error(&plan, inst, &no_env());

    assert_eq!(err.status_code(), 400);
    assert_eq!(err.reason(), Some("bad request".to_string()));
    assert!(err.source().is_none());
}

#[test]
fn derive_transparent_wraps_plain_errors() {
    let plan = custom_error_plan();
    let inst = VariantInstance {
        variant: 3,
        values: vec![FieldValue::Error(GenericError::Message("oops".to_string()))],
    };
    let err: HttpError = to_http_error(&plan, inst, &no_env());

    assert_eq!(err.status_code(), 500);
    assert_eq!(err.reason(), None);
    assert_eq!(
        err.source().map(|s| s.render(false)),
        Some("oops".to_string())
    );
}

#[test]
fn derive_transparent_with_status_conflicts() {
    let decl = ErrorTypeDeclaration {
        name: "CustomError".to_string(),
        variants: vec![VariantDeclaration {
            name: "Inner".to_string(),
            fields: FieldShape::Positional(vec![field(None, "anyhow::Error", false, true)]),
            metas: vec![meta("transparent", None, 3), meta("status", Some("400"), 3)],
            loc: loc(3),
        }],
        loc: loc(1),
    };
    let r = derive_from_http_error(ItemDeclaration::Enum(decl));
    assert_eq!(
        r.err().map(|d| d.code),
        Some(DiagnosticCode::TransparentConflict)
    );
}

#[test]
fn derive_rejects_struct_items() {
    let r = derive_from_http_error(ItemDeclaration::Struct {
        name: "NotAnEnum".to_string(),
        loc: loc(5),
    })
    .map(|g| g.name);
    assert_eq!(
        r.err(),
        Some(Diagnostic {
            code: DiagnosticCode::UnsupportedItem,
            loc: loc(5)
        })
    );
}

#[test]
fn derive_missing_status_is_reported() {
    let decl = ErrorTypeDeclaration {
        name: "CustomError".to_string(),
        variants: vec![VariantDeclaration {
            name: "Empty".to_string(),
            fields: FieldShape::Unit,
            metas: vec![meta("reason", Some("\"oops\""), 2)],
            loc: loc(2),
        }],
        loc: loc(1),
    };
    let r = derive_from_http_error(ItemDeclaration::Enum(decl));
    assert_eq!(r.err().map(|d| d.code), Some(DiagnosticCode::MissingStatus));
}

#[test]
fn derive_unrecognized_argument_is_reported() {
    let decl = ErrorTypeDeclaration {
        name: "CustomError".to_string(),
        variants: vec![VariantDeclaration {
            name: "Odd".to_string(),
            fields: FieldShape::Unit,
            metas: vec![meta("serious", None, 2)],
            loc: loc(2),
        }],
        loc: loc(1),
    };
    let r = derive_from_http_error(ItemDeclaration::Enum(decl));
    assert_eq!(
        r.err().map(|d| d.code),
        Some(DiagnosticCode::UnrecognizedArgument)
    );
}

#[test]
fn derive_conflicting_markers_are_reported() {
    let decl = ErrorTypeDeclaration {
        name: "CustomError".to_string(),
        variants: vec![VariantDeclaration {
            name: "Both".to_string(),
            fields: FieldShape::Positional(vec![field(None, "anyhow::Error", true, true)]),
            metas: vec![meta("status", Some("400"), 2)],
            loc: loc(2),
        }],
        loc: loc(1),
    };
    let r = derive_from_http_error(ItemDeclaration::Enum(decl));
    assert_eq!(
        r.err().map(|d| d.code),
        Some(DiagnosticCode::ConflictingRoleMarkers)
    );
}

#[test]
fn derive_from_arity_is_checked() {
    let decl = ErrorTypeDeclaration {
        name: "CustomError".to_string(),
        variants: vec![VariantDeclaration {
            name: "TooWide".to_string(),
            fields: FieldShape::Positional(vec![
                field(None, "u64", false, false),
                field(None, "anyhow::Error", true, false),
            ]),
            metas: vec![meta("status", Some("400"), 2)],
            loc: loc(2),
        }],
        loc: loc(1),
    };
    let r = derive_from_http_error(ItemDeclaration::Enum(decl));
    assert_eq!(
        r.err().map(|d| d.code),
        Some(DiagnosticCode::InvalidFromArity)
    );
}

#[test]
fn derive_invalid_status_code_is_reported() {
    let decl = ErrorTypeDeclaration {
        name: "CustomError".to_string(),
        variants: vec![VariantDeclaration {
            name: "Low".to_string(),
            fields: FieldShape::Unit,
            metas: vec![meta("status", Some("99"), 2)],
            loc: loc(2),
        }],
        loc: loc(1),
    };
    let r = derive_from_http_error(ItemDeclaration::Enum(decl));
    assert_eq!(
        r.err().map(|d| d.code),
        Some(DiagnosticCode::InvalidStatusCode)
    );
}

#[test]
fn derive_malformed_status_is_reported() {
    let decl = ErrorTypeDeclaration {
        name: "CustomError".to_string(),
        variants: vec![VariantDeclaration {
            name: "Odd".to_string(),
            fields: FieldShape::Unit,
            metas: vec![meta("status", Some("abc"), 2)],
            loc: loc(2),
        }],
        loc: loc(1),
    };
    let r = derive_from_http_error(ItemDeclaration::Enum(decl));
    assert_eq!(
        r.err().map(|d| d.code),
        Some(DiagnosticCode::MalformedAttribute)
    );
}

#[test]
fn derive_runs_are_identical() {
    let a = derive_from_http_error(ItemDeclaration::Enum(custom_error_decl())).unwrap();
    let b = derive_from_http_error(ItemDeclaration::Enum(custom_error_decl())).unwrap();
    assert_eq!(a.name, b.name);
    assert_eq!(a.variants.len(), b.variants.len());
    for (x, y) in a.variants.iter().zip(b.variants.iter()) {
        assert_eq!(x.name, y.name);
        match (&x.arg, &y.arg) {
            (
                Arg::Explicit {
                    status_code: s1,
                    reason: r1,
                    data: d1,
                },
                Arg::Explicit {
                    status_code: s2,
                    reason: r2,
                    data: d2,
                },
            ) => {
                assert_eq!(s1, s2);
                assert_eq!(r1, r2);
                let flat = |d: &Option<Vec<(DataKey, DataArg)>>| -> Vec<(String, String)> {
                    d.as_ref()
                        .map(|es| {
                            es.iter()
                                .map(|(k, v)| {
                                    let kt = match k {
                                        DataKey::Lit(s) => format!("lit {s}"),
                                        DataKey::Expr(s) => format!("expr {s}"),
                                    };
                                    let vt = match v {
                                        DataArg::Format(s) => format!("fmt {s}"),
                                        DataArg::Lit(Value::Int(n)) => format!("int {n}"),
                                        DataArg::Lit(Value::Str(s)) => format!("str {s}"),
                                        DataArg::Lit(Value::Bool(b)) => format!("bool {b}"),
                                        DataArg::Lit(Value::Null) => "null".to_string(),
                                        DataArg::Expr(s) => format!("expr {s}"),
                                    };
                                    (kt, vt)
                                })
                                .collect()
                        })
                        .unwrap_or_default()
                };
                assert_eq!(flat(d1), flat(d2));
            }
            (Arg::Transparent, Arg::Transparent) => {}
            _ => panic!("differing classifications"),
        }
    }
}
