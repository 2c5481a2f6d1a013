//! Responses built from a canonical error: a status-bearing body with a
//! content type, and the JSON formatter that turns an error into one.

use vstd::prelude::*;

use crate::emit::{lemma_payload_insert, payload_view, view_insert};
use crate::entries::{insert_entry, spec_insert_entry};
use crate::http_error::{http_wf, HttpError};
use crate::json::{entries_to_json, json_entries_view, json_object, json_string, push_json_string};
use crate::status::canonical_reason_of;
use crate::text::push_char;
use crate::value::{Value, ValueView};

verus! {

/// An error response: the canonical error it reports, the rendered body and
/// its content type.
#[derive(Debug)]
pub struct HttpErrorResponse {
    pub http_error: HttpError,
    pub body: String,
    pub content_type: String,
}

/// Trait for formatting error responses.
pub trait FormatResponse {
    fn format_response(http_error: &HttpError) -> String
        requires
            http_wf(*http_error),
    ;

    fn content_type() -> String;
}

/// Trait for generating whole error responses from a canonical error.
pub trait IntoHttpErrorResponse {
    fn into_http_error_response(http_error: HttpError) -> HttpErrorResponse
        requires
            http_wf(http_error),
    ;
}

impl HttpErrorResponse {
    /// Constructs a plain text error response for the given error.
    pub fn plain(http_error: HttpError, body: String) -> (r: HttpErrorResponse)
        ensures
            r.http_error == http_error,
            r.body == body,
            r.content_type@ == "text/plain"@,
    {
        HttpErrorResponse { http_error, body, content_type: String::from_str("text/plain") }
    }

    /// Constructs a JSON error response for the given error, the body being
    /// the object over the given entries. Plain values always serialize, so
    /// unlike an opaque payload this cannot fall back to plain text.
    pub fn json(http_error: HttpError, body: &Vec<(String, Value)>) -> (r: HttpErrorResponse)
        ensures
            r.http_error == http_error,
            r.body@ == json_object(json_entries_view(body@)),
            r.content_type@ == "application/json"@,
    {
        let rendered = entries_to_json(body);
        HttpErrorResponse {
            http_error,
            body: rendered,
            content_type: String::from_str("application/json"),
        }
    }

    /// Constructs an HTML error response for the given error.
    pub fn html(http_error: HttpError, body: String) -> (r: HttpErrorResponse)
        ensures
            r.http_error == http_error,
            r.body == body,
            r.content_type@ == "text/html"@,
    {
        HttpErrorResponse { http_error, body, content_type: String::from_str("text/html") }
    }
}

/// The message a response reports: the error's reason, or the registry's
/// phrase for its status code.
pub open spec fn spec_error_message(e: HttpError) -> ValueView {
    match e.reason {
        Some(r) => ValueView::Str(r@),
        None => match canonical_reason_of(e.status_code) {
            Some(s) => ValueView::Str(s),
            None => ValueView::Null,
        },
    }
}

/// The payload entries merged over a one-entry base object, left to right.
pub open spec fn spec_merge_entries(
    entries: Seq<(Seq<char>, ValueView)>,
    acc: Seq<(Seq<char>, ValueView)>,
) -> Seq<(Seq<char>, ValueView)>
    decreases entries.len(),
{
    if entries.len() == 0 {
        acc
    } else {
        spec_merge_entries(entries.skip(1), view_insert(acc, entries[0].0, entries[0].1))
    }
}

/// The flat JSON response object: the message under `error`, the payload
/// entries beside it.
pub open spec fn spec_flat_error_entries(e: HttpError) -> Seq<(Seq<char>, ValueView)> {
    spec_merge_entries(
        payload_view(e.data@),
        view_insert(Seq::empty(), "error"@, spec_error_message(e)),
    )
}

/// The nested JSON response object: under `error`, the message (as
/// `message`) together with the payload entries.
pub open spec fn spec_nested_error_entries(e: HttpError) -> Seq<(Seq<char>, ValueView)> {
    spec_merge_entries(
        payload_view(e.data@),
        view_insert(Seq::empty(), "message"@, spec_error_message(e)),
    )
}

/// The nested body text: one `error` member holding the inner object.
pub open spec fn spec_nested_error_body(e: HttpError) -> Seq<char> {
    seq!['{'] + json_string("error"@) + seq![':'] + json_object(spec_nested_error_entries(e))
        + seq!['}']
}

fn error_message(e: &HttpError) -> (r: Value)
    requires
        http_wf(*e),
    ensures
        r@ == spec_error_message(*e),
{
    match &e.reason {
        Some(reason) => Value::Str(reason.clone()),
        None => match crate::status::canonical_reason(e.status_code) {
            Some(s) => Value::Str(s),
            None => Value::Null,
        },
    }
}

/// Builds the entries of a response object: the message under `key`, then
/// the error's payload entries merged over it.
fn merged_entries(e: &HttpError, key: &str) -> (r: Vec<(String, Value)>)
    requires
        http_wf(*e),
    ensures
        json_entries_view(r@) == spec_merge_entries(
            payload_view(e.data@),
            view_insert(Seq::empty(), key@, spec_error_message(*e)),
        ),
{
    let message = error_message(e);
    let owned_key = key.to_owned();
    let ghost okg = owned_key;
    let ghost mg = message;
    let mut out: Vec<(String, Value)> = Vec::new();
    insert_entry(&mut out, owned_key, message);
    proof {
        let empty_entries = Seq::<(String, Value)>::empty();
        assert(out@ == spec_insert_entry(empty_entries, okg, mg));
        lemma_payload_insert(empty_entries, okg, mg);
        assert(payload_view(empty_entries) =~= Seq::<(Seq<char>, ValueView)>::empty());
        assert(payload_view(out@) == view_insert(
            Seq::<(Seq<char>, ValueView)>::empty(),
            key@,
            mg@,
        ));
        assert(payload_view(e.data@).skip(0) =~= payload_view(e.data@));
    }
    let mut i: usize = 0;
    while i < e.data.len()
        invariant
            i <= e.data@.len(),
            spec_merge_entries(
                payload_view(e.data@),
                view_insert(Seq::<(Seq<char>, ValueView)>::empty(), key@, spec_error_message(*e)),
            ) == spec_merge_entries(payload_view(e.data@).skip(i as int), payload_view(out@)),
        decreases e.data@.len() - i,
    {
        let ghost rest = payload_view(e.data@).skip(i as int);
        proof {
            assert(rest[0] == payload_view(e.data@)[i as int]);
            assert(payload_view(e.data@)[i as int] == (e.data@[i as int].0@, e.data@[i as int].1@));
            assert(rest.skip(1) =~= payload_view(e.data@).skip(i + 1));
        }
        let k = e.data[i].0.clone();
        let v = e.data[i].1.clone();
        let ghost kg = k;
        let ghost vg = v;
        proof {
            lemma_payload_insert(out@, kg, vg);
        }
        insert_entry(&mut out, k, v);
        i += 1;
    }
    proof {
        assert(payload_view(e.data@).skip(payload_view(e.data@).len() as int) =~= Seq::<(
            Seq<char>,
            ValueView,
        )>::empty());
        assert(json_entries_view(out@) =~= payload_view(out@));
    }
    out
}

/// A general purpose error response format that reports an error as JSON.
#[derive(Debug)]
pub struct Json;

impl Json {
    /// The nested JSON body for an error: the message and payload under one
    /// `error` member.
    pub fn error_body(http_error: &HttpError) -> (r: String)
        requires
            http_wf(*http_error),
        ensures
            r@ == spec_nested_error_body(*http_error),
    {
        let entries = merged_entries(http_error, "message");
        let inner = entries_to_json(&entries);
        let mut out = String::new();
        push_char(&mut out, '{');
        push_json_string(&mut out, "error");
        push_char(&mut out, ':');
        out.append(inner.as_str());
        push_char(&mut out, '}');
        proof {
            assert(out@ =~= spec_nested_error_body(*http_error));
        }
        out
    }

    /// The flat JSON response for an error: the message under `error`, the
    /// payload entries beside it.
    pub fn into_http_error_response(http_error: HttpError) -> (r: HttpErrorResponse)
        requires
            http_wf(http_error),
        ensures
            r.http_error == http_error,
            r.body@ == json_object(spec_flat_error_entries(http_error)),
            r.content_type@ == "application/json"@,
    {
        let entries = merged_entries(&http_error, "error");
        HttpErrorResponse::json(http_error, &entries)
    }
}

impl FormatResponse for Json {
    fn format_response(http_error: &HttpError) -> String {
        Json::error_body(http_error)
    }

    fn content_type() -> String {
        String::from_str("application/json")
    }
}

impl IntoHttpErrorResponse for Json {
    fn into_http_error_response(http_error: HttpError) -> HttpErrorResponse {
        Json::into_http_error_response(http_error)
    }
}

} // verus!
