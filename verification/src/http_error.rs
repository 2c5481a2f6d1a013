//! The canonical structured error: an HTTP status code, an optional reason,
//! an optional key/value payload and an optional wrapped cause, together with
//! the ambient generic error that carries arbitrary failures around.
//!
//! [`GenericError`] models the dynamic error a cause travels in: a bare
//! message, a message layered as context over another error, or a whole
//! [`HttpError`] moved into the ambient type and recoverable from it (which is
//! what [`HttpError::from_err`] attempts).

use vstd::prelude::*;

use crate::entries::{
    entries_sorted, insert_entry, lookup_entry, spec_insert_entry,
    spec_lookup,
};
use crate::status::{canonical_reason, canonical_reason_of, valid_status_code};
use crate::text::{push_char, spec_ascii_lower, spec_nat_digits, str_eq, str_eq_ignore_ascii_case, u64_to_string};
use crate::value::{value_eq, Value};

verus! {

/// An ambient generic error: what a wrapped cause is stored as.
#[derive(Debug)]
pub enum GenericError {
    /// A rendered message with nothing behind it.
    Message(String),
    /// A context message layered over an underlying error.
    Context(String, Box<GenericError>),
    /// A canonical error travelling intact through the ambient type,
    /// recoverable even from under context layers.
    Http(Box<HttpError>),
}

/// The canonical structured error.
#[derive(Debug)]
pub struct HttpError {
    pub status_code: u16,
    pub reason: Option<String>,
    pub source: Option<GenericError>,
    pub data: Vec<(String, Value)>,
    pub headers: Vec<(String, String)>,
}

/// Well-formedness of a wrapped error: every canonical error inside it is
/// well-formed.
pub open spec fn gen_wf(e: GenericError) -> bool
    decreases e,
{
    match e {
        GenericError::Message(_) => true,
        GenericError::Context(_, inner) => gen_wf(*inner),
        GenericError::Http(h) => http_wf(*h),
    }
}

/// Well-formedness of a canonical error: the status code passes the registry
/// and the payload keys are strictly sorted (hence unique).
pub open spec fn http_wf(e: HttpError) -> bool
    decreases e,
{
    &&& valid_status_code(e.status_code)
    &&& entries_sorted(e.data@)
    &&& match e.source {
        Some(s) => gen_wf(s),
        None => true,
    }
}

/// How a status code prints: its digits, a space, and the registry's phrase
/// (or a fixed fallback for codes the registry does not name).
pub open spec fn spec_status_display(code: u16) -> Seq<char> {
    spec_nat_digits(code as int) + seq![' '] + match canonical_reason_of(code) {
        Some(t) => t,
        None => "<unknown status code>"@,
    }
}

/// The rendering of a generic error. `alternate` asks for the full context
/// chain instead of the outermost message alone.
pub open spec fn spec_gen_render(e: GenericError, alternate: bool) -> Seq<char>
    decreases e,
{
    match e {
        GenericError::Message(m) => m@,
        GenericError::Context(c, inner) => if alternate {
            c@ + ": "@ + spec_gen_render(*inner, true)
        } else {
            c@
        },
        GenericError::Http(h) => spec_http_display(*h, alternate),
    }
}

/// The rendering of a canonical error: the status inside `HttpError(..)`,
/// then the reason and the source's own rendering when present.
pub open spec fn spec_http_display(e: HttpError, alternate: bool) -> Seq<char>
    decreases e,
{
    let head = "HttpError("@ + spec_status_display(e.status_code) + ")"@;
    match e.source {
        None => match e.reason {
            None => head,
            Some(r) => head + ": "@ + r@,
        },
        Some(s) => {
            let src = spec_gen_render(s, alternate);
            match e.reason {
                None => head + ": source: "@ + src,
                Some(r) => head + ": "@ + r@ + ", source: "@ + src,
            }
        },
    }
}

/// The canonical error a generic error carries, if any: the first one found
/// by peeling context layers, the way the ambient error's recovery walks its
/// chain.
pub open spec fn spec_recover_http(err: GenericError) -> Option<HttpError>
    decreases err,
{
    match err {
        GenericError::Http(h) => Some(*h),
        GenericError::Context(_, inner) => spec_recover_http(*inner),
        GenericError::Message(_) => None,
    }
}

/// Peels context layers looking for a canonical error; when none is found
/// the input is handed back unchanged.
fn try_recover(err: GenericError) -> (r: Result<HttpError, GenericError>)
    ensures
        match spec_recover_http(err) {
            Some(h) => r == Ok::<HttpError, GenericError>(h),
            None => r == Err::<HttpError, GenericError>(err),
        },
        gen_wf(err) ==> match r {
            Ok(h) => http_wf(h),
            Err(e) => gen_wf(e),
        },
    decreases err,
{
    match err {
        GenericError::Http(h) => Ok(*h),
        GenericError::Context(c, inner) => match try_recover(*inner) {
            Ok(h) => Ok(h),
            Err(inner_back) => Err(GenericError::Context(c, Box::new(inner_back))),
        },
        other => Err(other),
    }
}

impl GenericError {
    /// Renders the error; with `alternate` the whole context chain.
    pub fn render(&self, alternate: bool) -> (r: String)
        requires
            gen_wf(*self),
        ensures
            r@ == spec_gen_render(*self, alternate),
        decreases *self,
    {
        match self {
            GenericError::Message(m) => m.clone(),
            GenericError::Context(c, inner) => {
                if alternate {
                    let mut out = c.clone();
                    out.append(": ");
                    let rest = inner.render(true);
                    out.append(rest.as_str());
                    out
                } else {
                    c.clone()
                }
            },
            GenericError::Http(h) => h.render(alternate),
        }
    }
}

fn status_display(code: u16) -> (r: String)
    requires
        valid_status_code(code),
    ensures
        r@ == spec_status_display(code),
{
    let mut out = u64_to_string(code as u64);
    push_char(&mut out, ' ');
    match canonical_reason(code) {
        Some(phrase) => {
            out.append(phrase.as_str());
        },
        None => {
            out.append("<unknown status code>");
        },
    }
    out
}

/// Entry-wise equality of two payload lists, strings by contents.
pub open spec fn entries_equal(a: Seq<(String, Value)>, b: Seq<(String, Value)>) -> bool {
    &&& a.len() == b.len()
    &&& forall|i: int|
        0 <= i < a.len() ==> (#[trigger] a[i]).0@ == (#[trigger] b[i]).0@ && value_eq(a[i].1, b[i].1)
}

/// The equality the canonical error compares by: status, reason and payload;
/// the wrapped source and the headers are deliberately left out.
pub open spec fn http_equal(a: HttpError, b: HttpError) -> bool {
    &&& a.status_code == b.status_code
    &&& match (a.reason, b.reason) {
        (None, None) => true,
        (Some(x), Some(y)) => x@ == y@,
        _ => false,
    }
    &&& entries_equal(a.data@, b.data@)
}

impl PartialEq for HttpError {
    fn eq(&self, other: &HttpError) -> (r: bool) {
        if self.status_code != other.status_code {
            return false;
        }
        let reason_eq = match (&self.reason, &other.reason) {
            (None, None) => true,
            (Some(x), Some(y)) => str_eq(x.as_str(), y.as_str()),
            _ => false,
        };
        if !reason_eq {
            return false;
        }
        if self.data.len() != other.data.len() {
            return false;
        }
        let mut i: usize = 0;
        while i < self.data.len()
            invariant
                i <= self.data@.len(),
                self.data@.len() == other.data@.len(),
                forall|j: int|
                    0 <= j < i ==> (#[trigger] self.data@[j]).0@ == (#[trigger] other.data@[j]).0@
                        && value_eq(self.data@[j].1, other.data@[j].1),
            decreases self.data@.len() - i,
        {
            if !str_eq(self.data[i].0.as_str(), other.data[i].0.as_str()) {
                return false;
            }
            if !self.data[i].1.eq(&other.data[i].1) {
                return false;
            }
            i += 1;
        }
        true
    }
}

impl vstd::std_specs::cmp::PartialEqSpecImpl for HttpError {
    open spec fn obeys_eq_spec() -> bool {
        true
    }

    open spec fn eq_spec(&self, other: &HttpError) -> bool {
        http_equal(*self, *other)
    }
}

impl Default for HttpError {
    /// An empty error with status `500`.
    fn default() -> (r: HttpError)
        ensures
            r.status_code == 500,
            r.reason is None,
            r.source is None,
            r.data@ == Seq::<(String, Value)>::empty(),
            r.headers@ == Seq::<(String, String)>::empty(),
            http_wf(r),
    {
        HttpError::new()
    }
}

impl HttpError {
    /// Creates an empty error with status 500.
    pub fn new() -> (r: HttpError)
        ensures
            r.status_code == 500,
            r.reason is None,
            r.source is None,
            r.data@ == Seq::<(String, Value)>::empty(),
            r.headers@ == Seq::<(String, String)>::empty(),
            http_wf(r),
    {
        HttpError {
            status_code: 500,
            reason: None,
            source: None,
            data: Vec::new(),
            headers: Vec::new(),
        }
    }

    /// Creates an error with status code and reason.
    pub fn from_static(status_code: u16, reason: &str) -> (r: HttpError)
        requires
            valid_status_code(status_code),
        ensures
            r.status_code == status_code,
            r.reason matches Some(s) && s@ == reason@,
            r.source is None,
            r.data@ == Seq::<(String, Value)>::empty(),
            r.headers@ == Seq::<(String, String)>::empty(),
            http_wf(r),
    {
        HttpError {
            status_code,
            reason: Some(reason.to_owned()),
            source: None,
            data: Vec::new(),
            headers: Vec::new(),
        }
    }

    /// Creates an error from a status code.
    pub fn from_status_code(status_code: u16) -> (r: HttpError)
        requires
            valid_status_code(status_code),
        ensures
            r.status_code == status_code,
            r.reason is None,
            r.source is None,
            r.data@ == Seq::<(String, Value)>::empty(),
            r.headers@ == Seq::<(String, String)>::empty(),
            http_wf(r),
    {
        HttpError {
            status_code,
            reason: None,
            source: None,
            data: Vec::new(),
            headers: Vec::new(),
        }
    }

    /// Sets the status code.
    pub fn with_status_code(self, status_code: u16) -> (r: HttpError)
        requires
            valid_status_code(status_code),
        ensures
            r == (HttpError { status_code, ..self }),
    {
        HttpError { status_code, ..self }
    }

    /// Sets the error reason.
    pub fn with_reason(self, reason: String) -> (r: HttpError)
        ensures
            r == (HttpError { reason: Some(reason), ..self }),
    {
        HttpError { reason: Some(reason), ..self }
    }

    /// Adds context to the source error; with no source present the context
    /// becomes the source itself.
    pub fn with_source_context(self, context: String) -> (r: HttpError)
        ensures
            r.status_code == self.status_code && r.reason == self.reason && r.data == self.data
                && r.headers == self.headers,
            match self.source {
                Some(s) => r.source matches Some(GenericError::Context(c, inner)) && c == context
                    && *inner == s,
                None => r.source == Some(GenericError::Message(context)),
            },
    {
        let source = match self.source {
            Some(s) => GenericError::Context(context, Box::new(s)),
            None => GenericError::Message(context),
        };
        HttpError { source: Some(source), ..self }
    }

    /// Sets the source from an opaque boxed error: only its rendering is kept.
    pub fn with_boxed_source_err(self, err: GenericError) -> (r: HttpError)
        requires
            gen_wf(err),
        ensures
            r.status_code == self.status_code && r.reason == self.reason && r.data == self.data
                && r.headers == self.headers,
            r.source matches Some(GenericError::Message(m)) && m@ == spec_gen_render(err, false),
    {
        let rendered = err.render(false);
        HttpError { source: Some(GenericError::Message(rendered)), ..self }
    }

    /// Sets the source error.
    pub fn with_source_err(self, err: GenericError) -> (r: HttpError)
        ensures
            r == (HttpError { source: Some(err), ..self }),
    {
        HttpError { source: Some(err), ..self }
    }

    /// Appends each of the key-value pairs to the payload. Payload values are
    /// already plain, so unlike a serialized payload this cannot fail; the
    /// result is always `Some`.
    pub fn with_data(self, values: Vec<(String, Value)>) -> (r: Option<HttpError>)
        ensures
            r matches Some(e) && e.status_code == self.status_code && e.reason == self.reason
                && e.source == self.source && e.headers == self.headers && e.data@
                == spec_insert_entries(self.data@, values@),
    {
        let mut out = self;
        let mut i: usize = 0;
        while i < values.len()
            invariant
                i <= values@.len(),
                out.status_code == self.status_code,
                out.reason == self.reason,
                out.source == self.source,
                out.headers == self.headers,
                out.data@ == spec_insert_entries(self.data@, values@.take(i as int)),
            decreases values@.len() - i,
        {
            let key = values[i].0.clone();
            let value = values[i].1.clone();
            out = out.with_key_value(key, value);
            proof {
                assert(values@.take(i + 1).drop_last() =~= values@.take(i as int));
                assert(values@.take(i + 1).last() == values@[i as int]);
            }
            i += 1;
        }
        proof {
            assert(values@.take(values@.len() as int) =~= values@);
        }
        Some(out)
    }

    /// Adds a key-value pair to the payload.
    pub fn with_key_value(self, key: String, value: Value) -> (r: HttpError)
        ensures
            r.status_code == self.status_code && r.reason == self.reason && r.source == self.source
                && r.headers == self.headers,
            r.data@ == spec_insert_entry(self.data@, key, value),
    {
        let HttpError { status_code, reason, source, mut data, headers } = self;
        insert_entry(&mut data, key, value);
        HttpError { status_code, reason, source, data, headers }
    }

    /// Adds a key-value pair to the payload in place. Plain values always
    /// store successfully.
    pub fn add(&mut self, key: String, value: Value) -> (r: Result<(), GenericError>)
        ensures
            r is Ok,
            final(self).status_code == old(self).status_code && final(self).reason == old(
                self,
            ).reason && final(self).source == old(self).source && final(self).headers == old(
                self,
            ).headers,
            final(self).data@ == spec_insert_entry(old(self).data@, key, value),
    {
        insert_entry(&mut self.data, key, value);
        Ok(())
    }

    /// Sets a response header, replacing an earlier value under the same
    /// name; names match without regard to ASCII case.
    pub fn with_header(self, header_key: String, header_value: String) -> (r: HttpError)
        ensures
            r.status_code == self.status_code && r.reason == self.reason && r.source == self.source
                && r.data == self.data,
            r.headers@ == spec_upsert_header(self.headers@, header_key, header_value),
    {
        let HttpError { status_code, reason, source, data, mut headers } = self;
        upsert_header(&mut headers, header_key, header_value);
        HttpError { status_code, reason, source, data, headers }
    }

    /// Retrieves a payload value by key.
    pub fn get<'a>(&'a self, key: &str) -> (r: Option<&'a Value>)
        ensures
            match spec_lookup(self.data@, key@) {
                Some(v) => r matches Some(x) && *x == v,
                None => r is None,
            },
    {
        lookup_entry(&self.data, key)
    }

    /// Returns the status code.
    pub fn status_code(&self) -> (r: u16)
        ensures
            r == self.status_code,
    {
        self.status_code
    }

    /// Returns the error reason if any.
    pub fn reason(&self) -> (r: Option<String>)
        ensures
            r == self.reason,
    {
        match &self.reason {
            Some(s) => Some(s.clone()),
            None => None,
        }
    }

    /// Returns the source error if any.
    pub fn source(&self) -> (r: Option<&GenericError>)
        ensures
            match self.source {
                Some(s) => r matches Some(x) && *x == s,
                None => r is None,
            },
    {
        match &self.source {
            Some(s) => Some(s),
            None => None,
        }
    }

    /// Returns the response headers.
    pub fn headers(&self) -> (r: &Vec<(String, String)>)
        ensures
            r == self.headers,
    {
        &self.headers
    }

    /// Looks a response header up by name, without regard to ASCII case.
    pub fn header<'a>(&'a self, key: &str) -> (r: Option<&'a String>)
        ensures
            match spec_header_lookup(self.headers@, key@) {
                Some(v) => r matches Some(x) && *x == v,
                None => r is None,
            },
    {
        let mut i: usize = 0;
        proof {
            assert(self.headers@.skip(0) =~= self.headers@);
        }
        while i < self.headers.len()
            invariant
                i <= self.headers@.len(),
                spec_header_lookup(self.headers@.skip(i as int), key@) == spec_header_lookup(
                    self.headers@,
                    key@,
                ),
            decreases self.headers@.len() - i,
        {
            let ghost pre = self.headers@.skip(i as int);
            if str_eq_ignore_ascii_case(self.headers[i].0.as_str(), key) {
                assert(pre[0] == self.headers@[i as int]);
                return Some(&self.headers[i].1);
            }
            proof {
                assert(pre[0] == self.headers@[i as int]);
                assert(pre.skip(1) =~= self.headers@.skip(i + 1));
            }
            i += 1;
        }
        proof {
            assert(self.headers@.skip(self.headers@.len() as int) =~= Seq::<(
                String,
                String,
            )>::empty());
        }
        None
    }

    /// Creates a canonical error from a generic error: a canonical error
    /// travelling inside it — under any number of context layers — is
    /// recovered intact, the peeled context discarded; anything else becomes
    /// the source of an otherwise empty error with status 500.
    pub fn from_err(err: GenericError) -> (r: HttpError)
        ensures
            match spec_recover_http(err) {
                Some(h) => r == h,
                None => r.status_code == 500 && r.reason is None && r.source == Some(err)
                    && r.data@ == Seq::<(String, Value)>::empty() && r.headers@ == Seq::<(
                    String,
                    String,
                )>::empty(),
            },
            gen_wf(err) ==> http_wf(r),
    {
        match try_recover(err) {
            Ok(h) => h,
            Err(original) => HttpError { source: Some(original), ..HttpError::new() },
        }
    }

    /// Moves the error into the ambient generic error type; `from_err`
    /// recovers it unchanged.
    pub fn into_boxed(self) -> (r: GenericError)
        ensures
            r matches GenericError::Http(h) && *h == self,
    {
        GenericError::Http(Box::new(self))
    }

    /// Renders the error; with `alternate` context chains are written in full.
    pub fn render(&self, alternate: bool) -> (r: String)
        requires
            http_wf(*self),
        ensures
            r@ == spec_http_display(*self, alternate),
        decreases *self,
    {
        let mut out = String::new();
        out.append("HttpError(");
        let status = status_display(self.status_code);
        out.append(status.as_str());
        out.append(")");
        match (&self.reason, &self.source) {
            (None, None) => {},
            (Some(r), None) => {
                out.append(": ");
                out.append(r.as_str());
            },
            (None, Some(s)) => {
                out.append(": source: ");
                let rendered = s.render(alternate);
                out.append(rendered.as_str());
            },
            (Some(r), Some(s)) => {
                out.append(": ");
                out.append(r.as_str());
                out.append(", source: ");
                let rendered = s.render(alternate);
                out.append(rendered.as_str());
            },
        }
        assert(out@ =~= spec_http_display(*self, alternate));
        out
    }

    /// The error's textual rendering.
    pub fn to_display_string(&self) -> (r: String)
        requires
            http_wf(*self),
        ensures
            r@ == spec_http_display(*self, false),
    {
        self.render(false)
    }
}

/// Applies the pairs to the payload from left to right.
pub open spec fn spec_insert_entries(
    s: Seq<(String, Value)>,
    values: Seq<(String, Value)>,
) -> Seq<(String, Value)>
    decreases values.len(),
{
    if values.len() == 0 {
        s
    } else {
        spec_insert_entry(
            spec_insert_entries(s, values.drop_last()),
            values.last().0,
            values.last().1,
        )
    }
}

/// The first header stored under `key`, matched without regard to ASCII
/// case, if any.
pub open spec fn spec_header_lookup(s: Seq<(String, String)>, key: Seq<char>) -> Option<String>
    decreases s.len(),
{
    if s.len() == 0 {
        None
    } else if spec_ascii_lower(s[0].0@) == spec_ascii_lower(key) {
        Some(s[0].1)
    } else {
        spec_header_lookup(s.skip(1), key)
    }
}

/// `s` with `value` stored under `key`: the first entry whose name matches
/// up to ASCII case is replaced in place, otherwise the pair is appended.
pub open spec fn spec_upsert_header(
    s: Seq<(String, String)>,
    key: String,
    value: String,
) -> Seq<(String, String)>
    decreases s.len(),
{
    if s.len() == 0 {
        seq![(key, value)]
    } else if spec_ascii_lower(s[0].0@) == spec_ascii_lower(key@) {
        seq![(key, value)] + s.skip(1)
    } else {
        seq![s[0]] + spec_upsert_header(s.skip(1), key, value)
    }
}

fn upsert_header(headers: &mut Vec<(String, String)>, key: String, value: String)
    ensures
        final(headers)@ == spec_upsert_header(old(headers)@, key, value),
{
    let ghost orig = headers@;
    let mut i: usize = 0;
    while i < headers.len() && !str_eq_ignore_ascii_case(headers[i].0.as_str(), key.as_str())
        invariant
            i <= headers@.len(),
            headers@ == orig,
            forall|j: int|
                0 <= j < i ==> spec_ascii_lower(#[trigger] orig[j].0@) != spec_ascii_lower(key@),
        decreases headers@.len() - i,
    {
        i += 1;
    }
    proof {
        lemma_upsert_header_split(orig, key, value, i as int);
    }
    if i < headers.len() {
        headers.remove(i);
        headers.insert(i, (key, value));
        proof {
            assert(headers@ =~= spec_upsert_header(orig, key, value));
        }
    } else {
        headers.push((key, value));
        proof {
            assert(headers@ =~= spec_upsert_header(orig, key, value));
        }
    }
}

proof fn lemma_upsert_header_split(s: Seq<(String, String)>, key: String, value: String, i: int)
    requires
        0 <= i <= s.len(),
        forall|j: int|
            0 <= j < i ==> spec_ascii_lower(#[trigger] s[j].0@) != spec_ascii_lower(key@),
        i < s.len() ==> spec_ascii_lower(s[i].0@) == spec_ascii_lower(key@),
    ensures
        i < s.len() ==> spec_upsert_header(s, key, value) == s.take(i) + seq![(key, value)]
            + s.skip(i + 1),
        i == s.len() ==> spec_upsert_header(s, key, value) == s + seq![(key, value)],
    decreases i,
{
    if i == 0 {
        if s.len() > 0 {
            assert(s.take(0) + seq![(key, value)] + s.skip(1) =~= seq![(key, value)] + s.skip(1));
        } else {
            assert(s + seq![(key, value)] =~= seq![(key, value)]);
        }
    } else {
        let tail = s.skip(1);
        assert(forall|j: int| 0 <= j < i - 1 ==> tail[j] == s[j + 1]);
        lemma_upsert_header_split(tail, key, value, i - 1);
        assert(spec_upsert_header(s, key, value) == seq![s[0]] + spec_upsert_header(
            tail,
            key,
            value,
        ));
        if i < s.len() {
            assert(tail[i - 1] == s[i]);
            assert(seq![s[0]] + (tail.take(i - 1) + seq![(key, value)] + tail.skip(i)) =~= s.take(i)
                + seq![(key, value)] + s.skip(i + 1));
        } else {
            assert(seq![s[0]] + (tail + seq![(key, value)]) =~= s + seq![(key, value)]);
        }
    }
}

} // verus!
