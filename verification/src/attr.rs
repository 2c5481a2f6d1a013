//! The attribute parser: each variant's raw metadata tokens are read into a
//! classification — `Explicit` with status, optional reason template and
//! optional data entries, or `Transparent` — over the documented grammar:
//! `status(<uint>)`, `reason("<template>")`, `data(<key> = <value>, ...)`
//! and the bare `transparent` flag.

use vstd::prelude::*;

use crate::lex::{
    find_assign, is_ident, parse_digits, parse_string_lit, rewrite_template, spec_all_digits,
    spec_digits_val, spec_find_assign, spec_is_ident, spec_parse_string_lit, spec_rewrite_template,
    spec_split_ranges, spec_trim, split_ranges, trim,
};
use crate::schema::{Diagnostic, DiagnosticCode, SrcLoc, VariantDeclaration};
use crate::status::{registry_validate, valid_status_code};
use crate::text::str_eq;
use crate::value::Value;

verus! {

/// A data entry key: a literal string key, or a dynamic key evaluated at the
/// generation site.
#[derive(Debug)]
pub enum DataKey {
    Lit(String),
    Expr(String),
}

/// A data entry value: a rewritten string template, a literal forwarded
/// verbatim, or an expression forwarded unevaluated.
#[derive(Debug)]
pub enum DataArg {
    Format(String),
    Lit(Value),
    Expr(String),
}

/// A variant's classification.
#[derive(Debug)]
pub enum Arg {
    Explicit { status_code: u16, reason: Option<String>, data: Option<Vec<(DataKey, DataArg)>> },
    Transparent,
}

pub ghost enum DataKeyView {
    Lit(Seq<char>),
    Expr(Seq<char>),
}

pub ghost enum DataArgView {
    Format(Seq<char>),
    Lit(crate::value::Value),
    Expr(Seq<char>),
}

pub ghost enum ArgView {
    Explicit {
        status_code: u16,
        reason: Option<Seq<char>>,
        data: Option<Seq<(DataKeyView, DataArgView)>>,
    },
    Transparent,
}

impl View for DataKey {
    type V = DataKeyView;

    open spec fn view(&self) -> DataKeyView {
        match self {
            DataKey::Lit(s) => DataKeyView::Lit(s@),
            DataKey::Expr(s) => DataKeyView::Expr(s@),
        }
    }
}

impl View for DataArg {
    type V = DataArgView;

    open spec fn view(&self) -> DataArgView {
        match self {
            DataArg::Format(s) => DataArgView::Format(s@),
            DataArg::Lit(v) => DataArgView::Lit(*v),
            DataArg::Expr(s) => DataArgView::Expr(s@),
        }
    }
}

/// The entries as view pairs.
pub open spec fn data_entries_view(v: Seq<(DataKey, DataArg)>) -> Seq<(DataKeyView, DataArgView)> {
    v.map_values(|e: (DataKey, DataArg)| (e.0@, e.1@))
}

impl View for Arg {
    type V = ArgView;

    open spec fn view(&self) -> ArgView {
        match self {
            Arg::Explicit { status_code, reason, data } => ArgView::Explicit {
                status_code: *status_code,
                reason: match reason {
                    Some(r) => Some(r@),
                    None => None,
                },
                data: match data {
                    Some(d) => Some(data_entries_view(d@)),
                    None => None,
                },
            },
            Arg::Transparent => ArgView::Transparent,
        }
    }
}

// ---------------------------------------------------------------------------
// status
// ---------------------------------------------------------------------------

/// The meaning of a `status(..)` payload: a decimal number that the registry
/// accepts; ill-formed numbers are grammar errors, well-formed ones outside
/// the registry are invalid status codes.
pub open spec fn spec_parse_status(payload: Seq<char>, mloc: SrcLoc, vloc: SrcLoc) -> Result<
    u16,
    Diagnostic,
> {
    let t = spec_trim(payload);
    if !spec_all_digits(t) || spec_digits_val(t) > 0xFFFF {
        Err(Diagnostic { code: DiagnosticCode::MalformedAttribute, loc: mloc })
    } else if !valid_status_code(spec_digits_val(t) as u16) {
        Err(Diagnostic { code: DiagnosticCode::InvalidStatusCode, loc: vloc })
    } else {
        Ok(spec_digits_val(t) as u16)
    }
}

/// Parses and validates a `status(..)` payload against the registry.
pub fn parse_and_validate_status_code(payload: &str, mloc: SrcLoc, vloc: SrcLoc) -> (r: Result<
    u16,
    Diagnostic,
>)
    ensures
        r == spec_parse_status(payload@, mloc, vloc),
{
    let t = trim(payload);
    match parse_digits(t) {
        None => Err(Diagnostic { code: DiagnosticCode::MalformedAttribute, loc: mloc }),
        Some(v) => {
            if v > 0xFFFF {
                Err(Diagnostic { code: DiagnosticCode::MalformedAttribute, loc: mloc })
            } else {
                let code = v as u16;
                if registry_validate(code) {
                    Ok(code)
                } else {
                    Err(Diagnostic { code: DiagnosticCode::InvalidStatusCode, loc: vloc })
                }
            }
        },
    }
}

// ---------------------------------------------------------------------------
// reason
// ---------------------------------------------------------------------------

/// The meaning of a `reason(..)` payload: a string literal whose contents are
/// rewritten into the internal template form.
pub open spec fn spec_parse_reason(payload: Seq<char>, mloc: SrcLoc) -> Result<
    Seq<char>,
    Diagnostic,
> {
    match spec_parse_string_lit(spec_trim(payload)) {
        Some(s) => Ok(spec_rewrite_template(s)),
        None => Err(Diagnostic { code: DiagnosticCode::MalformedAttribute, loc: mloc }),
    }
}

/// Parses a `reason(..)` payload into the rewritten template.
pub fn parse_reason(payload: &str, mloc: SrcLoc) -> (r: Result<String, Diagnostic>)
    ensures
        match spec_parse_reason(payload@, mloc) {
            Ok(s) => r matches Ok(out) && out@ == s,
            Err(d) => r == Err::<String, Diagnostic>(d),
        },
{
    let t = trim(payload);
    match parse_string_lit(t) {
        Some(s) => Ok(rewrite_template(s.as_str())),
        None => Err(Diagnostic { code: DiagnosticCode::MalformedAttribute, loc: mloc }),
    }
}

// ---------------------------------------------------------------------------
// data
// ---------------------------------------------------------------------------

/// Key equality: same kind, same text.
pub open spec fn key_eq(a: DataKeyView, b: DataKeyView) -> bool {
    match (a, b) {
        (DataKeyView::Lit(x), DataKeyView::Lit(y)) => x == y,
        (DataKeyView::Expr(x), DataKeyView::Expr(y)) => x == y,
        _ => false,
    }
}

fn data_key_matches(a: &DataKey, b: &DataKey) -> (r: bool)
    ensures
        r == key_eq(a@, b@),
{
    match (a, b) {
        (DataKey::Lit(x), DataKey::Lit(y)) => str_eq(x.as_str(), y.as_str()),
        (DataKey::Expr(x), DataKey::Expr(y)) => str_eq(x.as_str(), y.as_str()),
        _ => false,
    }
}

/// The meaning of a data key: a bare identifier is a literal string key, a
/// braced nonblank expression is a dynamic key.
pub open spec fn spec_classify_key(k: Seq<char>) -> Option<DataKeyView> {
    if spec_is_ident(k) {
        Some(DataKeyView::Lit(k))
    } else if k.len() >= 2 && k[0] == '{' && k.last() == '}' && spec_trim(
        k.subrange(1, k.len() - 1),
    ).len() > 0 {
        Some(DataKeyView::Expr(spec_trim(k.subrange(1, k.len() - 1))))
    } else {
        None
    }
}

/// The meaning of a data value: a string literal becomes a rewritten
/// template, an integer or boolean literal is forwarded verbatim, any other
/// nonblank text is an expression forwarded unevaluated.
pub open spec fn spec_classify_value(v: Seq<char>) -> Option<DataArgView> {
    if v.len() > 0 && v[0] == '"' {
        match spec_parse_string_lit(v) {
            Some(s) => Some(DataArgView::Format(spec_rewrite_template(s))),
            None => None,
        }
    } else if spec_all_digits(v) && spec_digits_val(v) <= i64::MAX as int {
        Some(DataArgView::Lit(Value::Int(spec_digits_val(v) as i64)))
    } else if v.len() >= 2 && v[0] == '-' && spec_all_digits(v.skip(1)) && spec_digits_val(
        v.skip(1),
    ) <= 0x8000_0000_0000_0000 {
        Some(DataArgView::Lit(Value::Int((-spec_digits_val(v.skip(1))) as i64)))
    } else if v == "true"@ {
        Some(DataArgView::Lit(Value::Bool(true)))
    } else if v == "false"@ {
        Some(DataArgView::Lit(Value::Bool(false)))
    } else if v.len() > 0 {
        Some(DataArgView::Expr(v))
    } else {
        None
    }
}

fn classify_key(k: &str) -> (r: Option<DataKey>)
    ensures
        match spec_classify_key(k@) {
            Some(kv) => r matches Some(out) && out@ == kv,
            None => r is None,
        },
{
    if is_ident(k) {
        return Some(DataKey::Lit(k.to_owned()));
    }
    let len = k.unicode_len();
    if len >= 2 && k.get_char(0) == '{' && k.get_char(len - 1) == '}' {
        let inner = trim(k.substring_char(1, len - 1));
        if inner.unicode_len() > 0 {
            return Some(DataKey::Expr(inner.to_owned()));
        }
    }
    None
}

fn classify_value(v: &str) -> (r: Option<DataArg>)
    ensures
        match spec_classify_value(v@) {
            Some(av) => r matches Some(out) && out@ == av,
            None => r is None,
        },
{
    proof {
        reveal_strlit("true");
        reveal_strlit("false");
    }
    let len = v.unicode_len();
    if len > 0 && v.get_char(0) == '"' {
        return match parse_string_lit(v) {
            Some(s) => Some(DataArg::Format(rewrite_template(s.as_str()))),
            None => None,
        };
    }
    match parse_digits(v) {
        Some(n) => {
            if n <= 0x7FFF_FFFF_FFFF_FFFF {
                return Some(DataArg::Lit(Value::Int(n as i64)));
            }
            // an unsuffixed number too large for the value type is forwarded
            // as an expression
            return Some(DataArg::Expr(v.to_owned()));
        },
        None => {},
    }
    if len >= 2 && v.get_char(0) == '-' {
        let rest = v.substring_char(1, len);
        match parse_digits(rest) {
            Some(n) => {
                if n <= 0x8000_0000_0000_0000 {
                    let m: i64 = if n == 0x8000_0000_0000_0000 {
                        i64::MIN
                    } else {
                        -(n as i64)
                    };
                    assert(m as int == -spec_digits_val(v@.skip(1)));
                    return Some(DataArg::Lit(Value::Int(m)));
                }
                return Some(DataArg::Expr(v.to_owned()));
            },
            None => {},
        }
    }
    if str_eq(v, "true") {
        return Some(DataArg::Lit(Value::Bool(true)));
    }
    if str_eq(v, "false") {
        return Some(DataArg::Lit(Value::Bool(false)));
    }
    if len > 0 {
        return Some(DataArg::Expr(v.to_owned()));
    }
    None
}

/// Stores an entry, replacing an earlier entry under the same key in place.
pub open spec fn spec_insert_data(
    s: Seq<(DataKeyView, DataArgView)>,
    k: DataKeyView,
    v: DataArgView,
) -> Seq<(DataKeyView, DataArgView)>
    decreases s.len(),
{
    if s.len() == 0 {
        seq![(k, v)]
    } else if key_eq(s[0].0, k) {
        seq![(k, v)] + s.skip(1)
    } else {
        seq![s[0]] + spec_insert_data(s.skip(1), k, v)
    }
}

proof fn lemma_insert_data_split(
    s: Seq<(DataKeyView, DataArgView)>,
    k: DataKeyView,
    v: DataArgView,
    i: int,
)
    requires
        0 <= i <= s.len(),
        forall|j: int| 0 <= j < i ==> !key_eq((#[trigger] s[j]).0, k),
        i < s.len() ==> key_eq(s[i].0, k),
    ensures
        i < s.len() ==> spec_insert_data(s, k, v) == s.take(i) + seq![(k, v)] + s.skip(i + 1),
        i == s.len() ==> spec_insert_data(s, k, v) == s + seq![(k, v)],
    decreases i,
{
    if i == 0 {
        if s.len() > 0 {
            assert(s.take(0) + seq![(k, v)] + s.skip(1) =~= seq![(k, v)] + s.skip(1));
        } else {
            assert(s + seq![(k, v)] =~= seq![(k, v)]);
        }
    } else {
        let tail = s.skip(1);
        assert(forall|j: int| 0 <= j < i - 1 ==> tail[j] == s[j + 1]);
        lemma_insert_data_split(tail, k, v, i - 1);
        assert(spec_insert_data(s, k, v) == seq![s[0]] + spec_insert_data(tail, k, v));
        if i < s.len() {
            assert(tail[i - 1] == s[i]);
            assert(seq![s[0]] + (tail.take(i - 1) + seq![(k, v)] + tail.skip(i)) =~= s.take(i)
                + seq![(k, v)] + s.skip(i + 1));
        } else {
            assert(seq![s[0]] + (tail + seq![(k, v)]) =~= s + seq![(k, v)]);
        }
    }
}

fn insert_data(entries: &mut Vec<(DataKey, DataArg)>, k: DataKey, v: DataArg)
    ensures
        data_entries_view(final(entries)@) == spec_insert_data(
            data_entries_view(old(entries)@),
            k@,
            v@,
        ),
{
    let ghost orig = data_entries_view(entries@);
    let mut i: usize = 0;
    while i < entries.len() && !data_key_matches(&entries[i].0, &k)
        invariant
            i <= entries@.len(),
            orig == data_entries_view(entries@),
            forall|j: int| 0 <= j < i ==> !key_eq((#[trigger] orig[j]).0, k@),
        decreases entries@.len() - i,
    {
        i += 1;
    }
    proof {
        lemma_insert_data_split(orig, k@, v@, i as int);
    }
    if i < entries.len() {
        entries.remove(i);
        entries.insert(i, (k, v));
        proof {
            assert(data_entries_view(entries@) =~= spec_insert_data(orig, k@, v@));
        }
    } else {
        entries.push((k, v));
        proof {
            assert(data_entries_view(entries@) =~= spec_insert_data(orig, k@, v@));
        }
    }
}

/// The meaning of one `key = value` piece.
pub open spec fn spec_parse_entry(s: Seq<char>) -> Option<(DataKeyView, DataArgView)> {
    match spec_find_assign(s) {
        None => None,
        Some(p) => {
            let k = spec_trim(s.take(p));
            let v = spec_trim(s.skip(p + 1));
            match (spec_classify_key(k), spec_classify_value(v)) {
                (Some(kv), Some(av)) => Some((kv, av)),
                _ => None,
            }
        },
    }
}

fn parse_entry(t: &str) -> (r: Option<(DataKey, DataArg)>)
    ensures
        match spec_parse_entry(t@) {
            Some(e) => r matches Some(out) && out.0@ == e.0 && out.1@ == e.1,
            None => r is None,
        },
{
    let len = t.unicode_len();
    match find_assign(t) {
        None => None,
        Some(p) => {
            let k = trim(t.substring_char(0, p));
            let v = trim(t.substring_char(p + 1, len));
            proof {
                assert(t@.subrange(0, p as int) =~= t@.take(p as int));
                assert(t@.subrange(p + 1, len as int) =~= t@.skip(p + 1));
            }
            match (classify_key(k), classify_value(v)) {
                (Some(kv), Some(av)) => Some((kv, av)),
                _ => None,
            }
        },
    }
}

/// The meaning of the pieces from `i` on: blank pieces are allowed only as a
/// trailing comma's remainder, every other piece must be a `key = value`
/// entry; entries accumulate left to right, later duplicates replacing
/// earlier ones in place.
pub open spec fn spec_parse_segments(
    s: Seq<char>,
    ranges: Seq<(int, int)>,
    i: int,
    acc: Seq<(DataKeyView, DataArgView)>,
) -> Option<Seq<(DataKeyView, DataArgView)>>
    decreases ranges.len() - i,
{
    if i < 0 || i >= ranges.len() {
        Some(acc)
    } else if !(0 <= ranges[i].0 <= ranges[i].1 <= s.len()) {
        None
    } else {
        let seg = spec_trim(s.subrange(ranges[i].0, ranges[i].1));
        if seg.len() == 0 {
            if i == ranges.len() - 1 {
                Some(acc)
            } else {
                None
            }
        } else {
            match spec_parse_entry(seg) {
                None => None,
                Some(e) => spec_parse_segments(s, ranges, i + 1, spec_insert_data(acc, e.0, e.1)),
            }
        }
    }
}

/// The meaning of a whole `data(..)` payload.
pub open spec fn spec_parse_data(payload: Seq<char>) -> Option<Seq<(DataKeyView, DataArgView)>> {
    match spec_split_ranges(payload) {
        None => None,
        Some(ranges) => spec_parse_segments(payload, ranges, 0, Seq::empty()),
    }
}

/// Parses a `data(..)` payload into its entries.
pub fn parse_data(payload: &str) -> (r: Option<Vec<(DataKey, DataArg)>>)
    ensures
        match spec_parse_data(payload@) {
            Some(es) => r matches Some(out) && data_entries_view(out@) == es,
            None => r is None,
        },
{
    let ranges = match split_ranges(payload) {
        Some(rs) => rs,
        None => {
            return None;
        },
    };
    let ghost rv = crate::lex::ranges_view(ranges@);
    let mut out: Vec<(DataKey, DataArg)> = Vec::new();
    let mut i: usize = 0;
    while i < ranges.len()
        invariant
            i <= ranges@.len(),
            rv == crate::lex::ranges_view(ranges@),
            spec_parse_data(payload@) == spec_parse_segments(
                payload@,
                rv,
                i as int,
                data_entries_view(out@),
            ),
        decreases ranges@.len() - i,
    {
        let (a, b) = ranges[i];
        proof {
            assert(rv[i as int] == (a as int, b as int));
        }
        if !(a <= b && b <= payload.unicode_len()) {
            return None;
        }
        let seg = trim(payload.substring_char(a, b));
        if seg.unicode_len() == 0 {
            if i == ranges.len() - 1 {
                i += 1;
                continue;
            }
            return None;
        }
        match parse_entry(seg) {
            None => {
                return None;
            },
            Some((k, v)) => {
                insert_data(&mut out, k, v);
            },
        }
        i += 1;
    }
    Some(out)
}

// ---------------------------------------------------------------------------
// the whole metadata block
// ---------------------------------------------------------------------------

/// The running state while scanning a metadata block.
pub ghost struct MetaScanView {
    pub status: Option<u16>,
    pub reason: Option<Seq<char>>,
    pub data: Option<Seq<(DataKeyView, DataArgView)>>,
    pub transparent: bool,
}

/// Scans the metadata tokens from `i` on: recognized keys update the state
/// (a repeated key overwrites), an unrecognized key or an ill-formed payload
/// aborts with a located diagnostic.
pub open spec fn spec_scan_metas(
    metas: Seq<crate::schema::RawMetaView>,
    i: int,
    st: MetaScanView,
    vloc: SrcLoc,
) -> Result<MetaScanView, Diagnostic>
    decreases metas.len() - i,
{
    if i < 0 || i >= metas.len() {
        Ok(st)
    } else {
        let m = metas[i];
        if m.name == "status"@ {
            match m.payload {
                None => Err(Diagnostic { code: DiagnosticCode::MalformedAttribute, loc: m.loc }),
                Some(p) => match spec_parse_status(p, m.loc, vloc) {
                    Err(d) => Err(d),
                    Ok(code) => spec_scan_metas(
                        metas,
                        i + 1,
                        MetaScanView { status: Some(code), ..st },
                        vloc,
                    ),
                },
            }
        } else if m.name == "reason"@ {
            match m.payload {
                None => Err(Diagnostic { code: DiagnosticCode::MalformedAttribute, loc: m.loc }),
                Some(p) => match spec_parse_reason(p, m.loc) {
                    Err(d) => Err(d),
                    Ok(tmpl) => spec_scan_metas(
                        metas,
                        i + 1,
                        MetaScanView { reason: Some(tmpl), ..st },
                        vloc,
                    ),
                },
            }
        } else if m.name == "data"@ {
            match m.payload {
                None => Err(Diagnostic { code: DiagnosticCode::MalformedAttribute, loc: m.loc }),
                Some(p) => match spec_parse_data(p) {
                    None => Err(
                        Diagnostic { code: DiagnosticCode::MalformedAttribute, loc: m.loc },
                    ),
                    Some(es) => spec_scan_metas(
                        metas,
                        i + 1,
                        MetaScanView { data: Some(es), ..st },
                        vloc,
                    ),
                },
            }
        } else if m.name == "transparent"@ {
            match m.payload {
                Some(_) => Err(Diagnostic { code: DiagnosticCode::MalformedAttribute, loc: m.loc }),
                None => spec_scan_metas(metas, i + 1, MetaScanView { transparent: true, ..st }, vloc),
            }
        } else {
            Err(Diagnostic { code: DiagnosticCode::UnrecognizedArgument, loc: m.loc })
        }
    }
}

/// The classification of a variant's metadata block: `transparent` must
/// stand alone, everything else needs a status.
pub open spec fn spec_parse_arg(v: crate::schema::VariantDeclarationView) -> Result<
    ArgView,
    Diagnostic,
> {
    let init = MetaScanView { status: None, reason: None, data: None, transparent: false };
    match spec_scan_metas(v.metas, 0, init, v.loc) {
        Err(d) => Err(d),
        Ok(st) => {
            if st.transparent {
                if st.status is Some || st.reason is Some || st.data is Some {
                    Err(Diagnostic { code: DiagnosticCode::TransparentConflict, loc: v.loc })
                } else {
                    Ok(ArgView::Transparent)
                }
            } else {
                match st.status {
                    None => Err(Diagnostic { code: DiagnosticCode::MissingStatus, loc: v.loc }),
                    Some(code) => Ok(
                        ArgView::Explicit { status_code: code, reason: st.reason, data: st.data },
                    ),
                }
            }
        },
    }
}

impl Arg {
    /// Parses a variant's metadata block into its classification.
    pub fn parse_from_variant(v: &VariantDeclaration) -> (r: Result<Arg, Diagnostic>)
        ensures
            match spec_parse_arg(v@) {
                Ok(a) => r matches Ok(out) && out@ == a,
                Err(d) => r == Err::<Arg, Diagnostic>(d),
            },
    {
        let mut status: Option<u16> = None;
        let mut reason: Option<String> = None;
        let mut data: Option<Vec<(DataKey, DataArg)>> = None;
        let mut transparent: bool = false;
        let mut i: usize = 0;
        while i < v.metas.len()
            invariant
                i <= v.metas@.len(),
                spec_scan_metas(
                    v@.metas,
                    0,
                    (MetaScanView { status: None, reason: None, data: None, transparent: false }),
                    v@.loc,
                ) == spec_scan_metas(
                    v@.metas,
                    i as int,
                    MetaScanView {
                        status,
                        reason: match reason {
                            Some(s) => Some(s@),
                            None => None,
                        },
                        data: match data {
                            Some(d) => Some(data_entries_view(d@)),
                            None => None,
                        },
                        transparent,
                    },
                    v@.loc,
                ),
            decreases v.metas@.len() - i,
        {
            let m = &v.metas[i];
            proof {
                assert(v@.metas[i as int] == v.metas@[i as int]@);
            }
            if str_eq(m.name.as_str(), "status") {
                match &m.payload {
                    None => {
                        return Err(
                            Diagnostic { code: DiagnosticCode::MalformedAttribute, loc: m.loc },
                        );
                    },
                    Some(p) => match parse_and_validate_status_code(p.as_str(), m.loc, v.loc) {
                        Err(d) => {
                            return Err(d);
                        },
                        Ok(code) => {
                            status = Some(code);
                        },
                    },
                }
            } else if str_eq(m.name.as_str(), "reason") {
                match &m.payload {
                    None => {
                        return Err(
                            Diagnostic { code: DiagnosticCode::MalformedAttribute, loc: m.loc },
                        );
                    },
                    Some(p) => match parse_reason(p.as_str(), m.loc) {
                        Err(d) => {
                            return Err(d);
                        },
                        Ok(tmpl) => {
                            reason = Some(tmpl);
                        },
                    },
                }
            } else if str_eq(m.name.as_str(), "data") {
                match &m.payload {
                    None => {
                        return Err(
                            Diagnostic { code: DiagnosticCode::MalformedAttribute, loc: m.loc },
                        );
                    },
                    Some(p) => match parse_data(p.as_str()) {
                        None => {
                            return Err(
                                Diagnostic { code: DiagnosticCode::MalformedAttribute, loc: m.loc },
                            );
                        },
                        Some(es) => {
                            data = Some(es);
                        },
                    },
                }
            } else if str_eq(m.name.as_str(), "transparent") {
                match &m.payload {
                    Some(_) => {
                        return Err(
                            Diagnostic { code: DiagnosticCode::MalformedAttribute, loc: m.loc },
                        );
                    },
                    None => {
                        transparent = true;
                    },
                }
            } else {
                return Err(Diagnostic { code: DiagnosticCode::UnrecognizedArgument, loc: m.loc });
            }
            i += 1;
        }
        if transparent {
            if status.is_some() || reason.is_some() || data.is_some() {
                return Err(Diagnostic { code: DiagnosticCode::TransparentConflict, loc: v.loc });
            }
            return Ok(Arg::Transparent);
        }
        match status {
            None => Err(Diagnostic { code: DiagnosticCode::MissingStatus, loc: v.loc }),
            Some(code) => Ok(Arg::Explicit { status_code: code, reason, data }),
        }
    }
}

} // verus!
