//! The runtime meaning of the generated code. The plan drives four
//! capabilities that share one field-binding function, so they all address
//! fields identically: the textual rendering, the canonical conversion, the
//! bridge into the ambient generic error, and the auto-wrap constructor.
//! Dynamic keys and expression values are evaluated at the generation site;
//! here the site's results arrive as an environment of plain values.

use vstd::prelude::*;

use crate::attr::{Arg, ArgView, DataArg, DataArgView, DataKey, DataKeyView};
use crate::entries::{
    entries_sorted, lemma_insert_entry_sorted, spec_insert_entry,
};
use crate::generator::{GeneratedImpl, GeneratedImplView, VariantPlanView};
use crate::http_error::{gen_wf, http_wf, spec_gen_render, GenericError, HttpError};
use crate::resolver::VariantAttributeView;
use crate::schema::{shape_fields, FieldShape, FieldShapeView};
use crate::status::valid_status_code;
use crate::text::{char_seq_lt, i64_to_string, push_char, spec_int_digits, spec_nat_digits, str_eq, u64_to_string};
use crate::value::{Value, ValueView};

verus! {

/// One field of a variant instance: a plain value, or an error value (the
/// only kind a cause marker may sit on).
#[derive(Debug)]
pub enum FieldValue {
    Plain(Value),
    Error(GenericError),
}

/// A value of the declared tagged union: which variant, and its field
/// values in declaration order.
#[derive(Debug)]
pub struct VariantInstance {
    pub variant: usize,
    pub values: Vec<FieldValue>,
}

pub open spec fn field_value_wf(v: FieldValue) -> bool {
    match v {
        FieldValue::Plain(_) => true,
        FieldValue::Error(e) => gen_wf(e),
    }
}

/// The field a cause marker points at.
pub open spec fn cause_index(c: VariantAttributeView) -> int {
    match c {
        VariantAttributeView::From { index, .. } => index,
        VariantAttributeView::Source { index } => index,
    }
}

/// What expansion guarantees of every plan it emits: valid status codes,
/// cause indices in range (an auto-wrap cause on the only positional field),
/// a cause behind every transparent variant, and named fields with names.
pub open spec fn plan_variant_wf(p: VariantPlanView) -> bool {
    &&& match p.arg {
        ArgView::Explicit { status_code, .. } => valid_status_code(status_code),
        ArgView::Transparent => true,
    }
    &&& match p.cause {
        Some(VariantAttributeView::From { index, .. }) => p.shape is Positional && shape_fields(
            p.shape,
        ).len() == 1 && index == 0,
        Some(VariantAttributeView::Source { index }) => 0 <= index < shape_fields(p.shape).len(),
        None => true,
    }
    &&& (p.arg is Transparent ==> p.cause is Some)
}

pub open spec fn plan_wf(g: GeneratedImplView) -> bool {
    forall|i: int| 0 <= i < g.variants.len() ==> plan_variant_wf(#[trigger] g.variants[i])
}

/// A well-typed instance of the plan: the variant exists, the arity matches,
/// error fields are well-formed, and the cause field holds an error value.
pub open spec fn instance_wf(g: GeneratedImplView, variant: int, values: Seq<FieldValue>) -> bool {
    &&& 0 <= variant < g.variants.len()
    &&& values.len() == shape_fields(g.variants[variant].shape).len()
    &&& forall|i: int| 0 <= i < values.len() ==> field_value_wf(#[trigger] values[i])
    &&& match g.variants[variant].cause {
        Some(c) => values[cause_index(c)] is Error,
        None => true,
    }
}

// ---------------------------------------------------------------------------
// field bindings
// ---------------------------------------------------------------------------

/// How a field value prints when a template or a rendering refers to it.
pub open spec fn spec_value_render(v: ValueView) -> Seq<char> {
    match v {
        ValueView::Null => Seq::empty(),
        ValueView::Bool(b) => if b {
            "true"@
        } else {
            "false"@
        },
        ValueView::Int(n) => spec_int_digits(n as int),
        ValueView::Str(s) => s,
    }
}

pub open spec fn spec_field_render(v: FieldValue) -> Seq<char> {
    match v {
        FieldValue::Plain(x) => spec_value_render(x@),
        FieldValue::Error(e) => spec_gen_render(e, false),
    }
}

/// The generator-private alias of field `i`: the marker followed by the
/// field's name, or by its position for positional fields.
pub open spec fn spec_alias(shape: FieldShapeView, i: int) -> Seq<char> {
    "__f_"@ + match shape {
        FieldShapeView::Named(fs) => match fs[i].name {
            Some(n) => n,
            None => Seq::empty(),
        },
        _ => spec_nat_digits(i),
    }
}

/// The shared field bindings: every emitter resolves fields through these.
pub open spec fn spec_bindings(shape: FieldShapeView, values: Seq<FieldValue>) -> Seq<
    (Seq<char>, Seq<char>),
> {
    Seq::new(values.len(), |i: int| (spec_alias(shape, i), spec_field_render(values[i])))
}

/// The exec bindings as view pairs.
pub open spec fn binds_view(binds: Seq<(String, String)>) -> Seq<(Seq<char>, Seq<char>)> {
    binds.map_values(|b: (String, String)| (b.0@, b.1@))
}

fn render_field_value(v: &FieldValue) -> (r: String)
    requires
        field_value_wf(*v),
    ensures
        r@ == spec_field_render(*v),
{
    match v {
        FieldValue::Plain(Value::Null) => String::new(),
        FieldValue::Plain(Value::Bool(b)) => {
            if *b {
                let mut s = String::new();
                s.append("true");
                s
            } else {
                let mut s = String::new();
                s.append("false");
                s
            }
        },
        FieldValue::Plain(Value::Int(n)) => i64_to_string(*n),
        FieldValue::Plain(Value::Str(s)) => s.clone(),
        FieldValue::Error(e) => e.render(false),
    }
}

/// Computes the shared bindings of a variant's fields.
pub fn bind_fields(shape: &FieldShape, values: &Vec<FieldValue>) -> (r: Vec<(String, String)>)
    requires
        (shape@ matches FieldShapeView::Named(fs) ==> fs.len() == values@.len()),
        forall|i: int| 0 <= i < values@.len() ==> field_value_wf(#[trigger] values@[i]),
    ensures
        binds_view(r@) == spec_bindings(shape@, values@),
{
    let mut out: Vec<(String, String)> = Vec::new();
    let mut i: usize = 0;
    while i < values.len()
        invariant
            i <= values@.len(),
            (shape@ matches FieldShapeView::Named(fs) ==> fs.len() == values@.len()),
            forall|j: int| 0 <= j < values@.len() ==> field_value_wf(#[trigger] values@[j]),
            binds_view(out@) =~= spec_bindings(shape@, values@).take(i as int),
        decreases values@.len() - i,
    {
        let mut alias = String::new();
        alias.append("__f_");
        match shape {
            FieldShape::Named(fs) => {
                proof {
                    assert(shape@->Named_0[i as int] == fs@[i as int]@);
                }
                match &fs[i].name {
                    Some(n) => {
                        alias.append(n.as_str());
                    },
                    None => {
                        proof {
                            assert(alias@ =~= "__f_"@ + Seq::<char>::empty());
                        }
                    },
                }
            },
            _ => {
                let digits = u64_to_string(i as u64);
                alias.append(digits.as_str());
            },
        }
        assert(alias@ == spec_alias(shape@, i as int));
        let rendered = render_field_value(&values[i]);
        let ghost a_view = alias@;
        let ghost r_view = rendered@;
        let ghost out_pre = out@;
        out.push((alias, rendered));
        proof {
            let sb = spec_bindings(shape@, values@);
            assert(r_view == spec_field_render(values@[i as int]));
            assert(binds_view(out@) =~= binds_view(out_pre).push((a_view, r_view)));
            assert(sb[i as int] == (a_view, r_view));
            assert(sb.take(i + 1) =~= sb.take(i as int).push(sb[i as int]));
            assert(binds_view(out@) =~= sb.take(i + 1));
        }
        i += 1;
    }
    proof {
        assert(spec_bindings(shape@, values@).take(values@.len() as int) =~= spec_bindings(
            shape@,
            values@,
        ));
    }
    out
}

// ---------------------------------------------------------------------------
// template formatting
// ---------------------------------------------------------------------------

/// The first `}` at or after `i`.
pub open spec fn spec_find_close(t: Seq<char>, i: int) -> Option<int>
    decreases t.len() - i,
{
    if i < 0 || i >= t.len() {
        None
    } else if t[i] == '}' {
        Some(i)
    } else {
        spec_find_close(t, i + 1)
    }
}

/// The first binding under `name`.
pub open spec fn spec_lookup_bind(binds: Seq<(Seq<char>, Seq<char>)>, name: Seq<char>) -> Option<
    Seq<char>,
>
    decreases binds.len(),
{
    if binds.len() == 0 {
        None
    } else if binds[0].0 == name {
        Some(binds[0].1)
    } else {
        spec_lookup_bind(binds.skip(1), name)
    }
}

/// Template formatting: a brace opens a placeholder running to the next
/// closing brace; a bound alias is replaced by its rendering, an unbound one
/// and an unterminated placeholder are left as they stand.
pub open spec fn spec_format(t: Seq<char>, binds: Seq<(Seq<char>, Seq<char>)>) -> Seq<char>
    decreases t.len(),
{
    if t.len() == 0 {
        Seq::empty()
    } else if t[0] == '{' {
        match spec_find_close(t, 1) {
            None => t,
            Some(j) => {
                if 1 <= j < t.len() {
                    let name = t.subrange(1, j);
                    let rest = t.skip(j + 1);
                    match spec_lookup_bind(binds, name) {
                        Some(r) => r + spec_format(rest, binds),
                        None => t.take(j + 1) + spec_format(rest, binds),
                    }
                } else {
                    t
                }
            },
        }
    } else {
        seq![t[0]] + spec_format(t.skip(1), binds)
    }
}

fn find_close(t: &str, from: usize) -> (r: Option<usize>)
    requires
        from <= t@.len(),
    ensures
        match spec_find_close(t@, from as int) {
            Some(j) => r matches Some(x) && x as int == j && from <= j < t@.len(),
            None => r is None,
        },
{
    let len = t.unicode_len();
    let mut i: usize = from;
    while i < len
        invariant
            from <= i <= len,
            len == t@.len(),
            spec_find_close(t@, from as int) == spec_find_close(t@, i as int),
        decreases len - i,
    {
        if t.get_char(i) == '}' {
            return Some(i);
        }
        i += 1;
    }
    None
}

fn lookup_bind<'a>(binds: &'a Vec<(String, String)>, name: &str) -> (r: Option<&'a String>)
    ensures
        match spec_lookup_bind(binds_view(binds@), name@) {
            Some(v) => r matches Some(x) && x@ == v,
            None => r is None,
        },
{
    let ghost bv = binds_view(binds@);
    let mut i: usize = 0;
    proof {
        assert(bv.skip(0) =~= bv);
    }
    while i < binds.len()
        invariant
            i <= binds@.len(),
            bv == binds_view(binds@),
            spec_lookup_bind(bv.skip(i as int), name@) == spec_lookup_bind(bv, name@),
        decreases binds@.len() - i,
    {
        let ghost pre = bv.skip(i as int);
        if str_eq(binds[i].0.as_str(), name) {
            assert(pre[0] == bv[i as int]);
            return Some(&binds[i].1);
        }
        proof {
            assert(pre[0] == bv[i as int]);
            assert(pre.skip(1) =~= bv.skip(i + 1));
        }
        i += 1;
    }
    proof {
        assert(bv.skip(bv.len() as int) =~= Seq::<(Seq<char>, Seq<char>)>::empty());
    }
    None
}

/// Formats a rewritten template over the shared bindings.
pub fn format_template(t: &str, binds: &Vec<(String, String)>) -> (r: String)
    ensures
        r@ == spec_format(t@, binds_view(binds@)),
    decreases t@.len(),
{
    let len = t.unicode_len();
    if len == 0 {
        return String::new();
    }
    let c0 = t.get_char(0);
    if c0 == '{' {
        match find_close(t, 1) {
            None => t.to_owned(),
            Some(j) => {
                let name = t.substring_char(1, j);
                let rest = t.substring_char(j + 1, len);
                proof {
                    assert(name@ == t@.subrange(1, j as int));
                    assert(rest@ =~= t@.skip(j + 1));
                }
                let piece: String = match lookup_bind(binds, name) {
                    Some(r) => r.clone(),
                    None => {
                        let raw = t.substring_char(0, j + 1);
                        proof {
                            assert(raw@ =~= t@.take(j + 1));
                        }
                        raw.to_owned()
                    },
                };
                let formatted_rest = format_template(rest, binds);
                piece.concat(formatted_rest.as_str())
            },
        }
    } else {
        let mut out = String::new();
        push_char(&mut out, c0);
        let rest = t.substring_char(1, len);
        proof {
            assert(rest@ =~= t@.skip(1));
        }
        let formatted_rest = format_template(rest, binds);
        out.concat(formatted_rest.as_str())
    }
}

// ---------------------------------------------------------------------------
// rendering
// ---------------------------------------------------------------------------

/// The printed path of a variant.
pub open spec fn spec_variant_path(g: GeneratedImplView, variant: int) -> Seq<char> {
    g.name + " :: "@ + g.variants[variant].name
}

/// The rendering the generated code gives an instance: explicit variants
/// print their path, with the cause's own rendering behind it when one is
/// marked; transparent variants delegate entirely to the cause.
pub open spec fn spec_render_variant(
    g: GeneratedImplView,
    variant: int,
    values: Seq<FieldValue>,
) -> Seq<char> {
    let p = g.variants[variant];
    match p.arg {
        ArgView::Explicit { .. } => match p.cause {
            Some(c) => spec_variant_path(g, variant) + ": "@ + spec_field_render(
                values[cause_index(c)],
            ),
            None => spec_variant_path(g, variant),
        },
        ArgView::Transparent => match p.cause {
            Some(c) => spec_field_render(values[cause_index(c)]),
            None => spec_variant_path(g, variant),
        },
    }
}

/// Renders an instance of the declared union.
pub fn render_variant(g: &GeneratedImpl, inst: &VariantInstance) -> (r: String)
    requires
        plan_wf(g@),
        instance_wf(g@, inst.variant as int, inst.values@),
    ensures
        r@ == spec_render_variant(g@, inst.variant as int, inst.values@),
{
    let p = &g.variants[inst.variant];
    proof {
        assert(g@.variants[inst.variant as int] == g.variants@[inst.variant as int]@);
    }
    let mut path = g.name.clone();
    path.append(" :: ");
    path.append(p.name.as_str());
    let cause_idx: Option<usize> = match &p.cause {
        Some(crate::resolver::VariantAttribute::From { index, .. }) => Some(*index),
        Some(crate::resolver::VariantAttribute::Source { index }) => Some(*index),
        None => None,
    };
    match &p.arg {
        Arg::Explicit { .. } => match cause_idx {
            Some(idx) => {
                let rendered = render_field_value(&inst.values[idx]);
                path.append(": ");
                path.append(rendered.as_str());
                path
            },
            None => path,
        },
        Arg::Transparent => match cause_idx {
            Some(idx) => render_field_value(&inst.values[idx]),
            None => path,
        },
    }
}

// ---------------------------------------------------------------------------
// the generation-site environment
// ---------------------------------------------------------------------------

/// The environment as view pairs: expression text to the value the
/// generation site computed for it.
pub open spec fn env_view(env: Seq<(String, Value)>) -> Seq<(Seq<char>, ValueView)> {
    env.map_values(|e: (String, Value)| (e.0@, e.1@))
}

/// The first value bound to `name`.
pub open spec fn spec_env_lookup(env: Seq<(Seq<char>, ValueView)>, name: Seq<char>) -> Option<
    ValueView,
>
    decreases env.len(),
{
    if env.len() == 0 {
        None
    } else if env[0].0 == name {
        Some(env[0].1)
    } else {
        spec_env_lookup(env.skip(1), name)
    }
}

fn env_lookup<'a>(env: &'a Vec<(String, Value)>, name: &str) -> (r: Option<&'a Value>)
    ensures
        match spec_env_lookup(env_view(env@), name@) {
            Some(v) => r matches Some(x) && x@ == v,
            None => r is None,
        },
{
    let ghost ev = env_view(env@);
    let mut i: usize = 0;
    proof {
        assert(ev.skip(0) =~= ev);
    }
    while i < env.len()
        invariant
            i <= env@.len(),
            ev == env_view(env@),
            spec_env_lookup(ev.skip(i as int), name@) == spec_env_lookup(ev, name@),
        decreases env@.len() - i,
    {
        let ghost pre = ev.skip(i as int);
        if str_eq(env[i].0.as_str(), name) {
            assert(pre[0] == ev[i as int]);
            return Some(&env[i].1);
        }
        proof {
            assert(pre[0] == ev[i as int]);
            assert(pre.skip(1) =~= ev.skip(i + 1));
        }
        i += 1;
    }
    proof {
        assert(ev.skip(ev.len() as int) =~= Seq::<(Seq<char>, ValueView)>::empty());
    }
    None
}

// ---------------------------------------------------------------------------
// data evaluation
// ---------------------------------------------------------------------------

/// The payload entries as view pairs.
pub open spec fn payload_view(s: Seq<(String, Value)>) -> Seq<(Seq<char>, ValueView)> {
    s.map_values(|e: (String, Value)| (e.0@, e.1@))
}

/// The view-level counterpart of storing a payload entry under its key.
pub open spec fn view_insert(
    s: Seq<(Seq<char>, ValueView)>,
    key: Seq<char>,
    value: ValueView,
) -> Seq<(Seq<char>, ValueView)>
    decreases s.len(),
{
    if s.len() == 0 {
        seq![(key, value)]
    } else if char_seq_lt(s[0].0, key) {
        seq![s[0]] + view_insert(s.skip(1), key, value)
    } else if s[0].0 == key {
        seq![(key, value)] + s.skip(1)
    } else {
        seq![(key, value)] + s
    }
}

/// Storing an entry commutes with taking views.
pub proof fn lemma_payload_insert(s: Seq<(String, Value)>, key: String, value: Value)
    ensures
        payload_view(spec_insert_entry(s, key, value)) == view_insert(payload_view(s), key@, value@),
    decreases s.len(),
{
    let pv = payload_view(s);
    if s.len() == 0 {
        assert(payload_view(spec_insert_entry(s, key, value)) =~= view_insert(pv, key@, value@));
    } else {
        assert(pv[0] == (s[0].0@, s[0].1@));
        lemma_payload_insert(s.skip(1), key, value);
        assert(payload_view(s.skip(1)) =~= pv.skip(1));
        if char_seq_lt(s[0].0@, key@) {
            assert(spec_insert_entry(s, key, value) == seq![s[0]] + spec_insert_entry(
                s.skip(1),
                key,
                value,
            ));
            assert(payload_view(seq![s[0]] + spec_insert_entry(s.skip(1), key, value)) =~= seq![
                (s[0].0@, s[0].1@),
            ] + payload_view(spec_insert_entry(s.skip(1), key, value)));
            assert(view_insert(pv, key@, value@) == seq![pv[0]] + view_insert(
                pv.skip(1),
                key@,
                value@,
            ));
            assert(payload_view(spec_insert_entry(s, key, value)) =~= view_insert(
                pv,
                key@,
                value@,
            ));
        } else if s[0].0@ == key@ {
            assert(payload_view(seq![(key, value)] + s.skip(1)) =~= seq![(key@, value@)]
                + payload_view(s.skip(1)));
            assert(payload_view(spec_insert_entry(s, key, value)) =~= view_insert(
                pv,
                key@,
                value@,
            ));
        } else {
            assert(payload_view(seq![(key, value)] + s) =~= seq![(key@, value@)] + pv);
            assert(payload_view(spec_insert_entry(s, key, value)) =~= view_insert(
                pv,
                key@,
                value@,
            ));
        }
    }
}

/// The key text an entry stores under: a literal key is itself, a dynamic
/// key is whatever string the generation site computed.
pub open spec fn spec_eval_key(
    k: DataKeyView,
    env: Seq<(Seq<char>, ValueView)>,
) -> Option<Seq<char>> {
    match k {
        DataKeyView::Lit(s) => Some(s),
        DataKeyView::Expr(t) => match spec_env_lookup(env, t) {
            Some(ValueView::Str(s)) => Some(s),
            _ => None,
        },
    }
}

/// The value an entry stores: a template formats over the bindings, a
/// literal is forwarded verbatim, an expression takes the site's value.
pub open spec fn spec_eval_value(
    a: DataArgView,
    binds: Seq<(Seq<char>, Seq<char>)>,
    env: Seq<(Seq<char>, ValueView)>,
) -> Option<ValueView> {
    match a {
        DataArgView::Format(t) => Some(ValueView::Str(spec_format(t, binds))),
        DataArgView::Lit(v) => Some(v@),
        DataArgView::Expr(t) => spec_env_lookup(env, t),
    }
}

/// What the generation site owes: a string for every dynamic key and a value
/// for every expression value of the chosen variant.
pub open spec fn env_covers(
    data: Option<Seq<(DataKeyView, DataArgView)>>,
    env: Seq<(Seq<char>, ValueView)>,
) -> bool {
    match data {
        None => true,
        Some(es) => forall|i: int|
            0 <= i < es.len() ==> spec_eval_key((#[trigger] es[i]).0, env) is Some && match es[i].1 {
                DataArgView::Expr(t) => spec_env_lookup(env, t) is Some,
                _ => true,
            },
    }
}

/// The payload after attaching the entries from `i` on, in declaration
/// order; an entry the environment does not cover is skipped.
pub open spec fn spec_eval_entries(
    es: Seq<(DataKeyView, DataArgView)>,
    binds: Seq<(Seq<char>, Seq<char>)>,
    env: Seq<(Seq<char>, ValueView)>,
    acc: Seq<(Seq<char>, ValueView)>,
) -> Seq<(Seq<char>, ValueView)>
    decreases es.len(),
{
    if es.len() == 0 {
        acc
    } else {
        let next = match (spec_eval_key(es[0].0, env), spec_eval_value(es[0].1, binds, env)) {
            (Some(k), Some(v)) => view_insert(acc, k, v),
            _ => acc,
        };
        spec_eval_entries(es.skip(1), binds, env, next)
    }
}

// ---------------------------------------------------------------------------
// the canonical conversion and the bridge
// ---------------------------------------------------------------------------

/// What recovering a canonical error from a generic one yields (the
/// contract of `HttpError::from_err`, as a relation): a canonical error
/// found under any number of context layers comes back unchanged; otherwise
/// the whole input becomes the source of an empty 500 error.
pub open spec fn spec_from_err_rel(err: GenericError, r: HttpError) -> bool {
    match crate::http_error::spec_recover_http(err) {
        Some(h) => r == h,
        None => r.status_code == 500 && r.reason is None && r.source == Some(err) && r.data@
            == Seq::<(String, Value)>::empty() && r.headers@ == Seq::<(String, String)>::empty(),
    }
}

/// The canonical conversion, pinned field by field: an explicit variant
/// builds status, formatted reason, evaluated data and the marked cause (or
/// the rendered instance as a synthetic cause); a transparent variant is
/// exactly the recovery from its cause.
pub open spec fn spec_conversion_post(
    g: GeneratedImplView,
    variant: int,
    values: Seq<FieldValue>,
    env: Seq<(Seq<char>, ValueView)>,
    r: HttpError,
) -> bool {
    let p = g.variants[variant];
    let binds = spec_bindings(p.shape, values);
    match p.arg {
        ArgView::Explicit { status_code, reason, data } => {
            &&& r.status_code == status_code
            &&& match reason {
                Some(t) => r.reason matches Some(s) && s@ == spec_format(t, binds),
                None => r.reason is None,
            }
            &&& payload_view(r.data@) == spec_eval_entries(
                match data {
                    Some(es) => es,
                    None => Seq::empty(),
                },
                binds,
                env,
                Seq::empty(),
            )
            &&& match p.cause {
                Some(c) => values[cause_index(c)] matches FieldValue::Error(e) && r.source == Some(
                    e,
                ),
                None => r.source matches Some(GenericError::Message(m)) && m@
                    == spec_render_variant(g, variant, values),
            }
            &&& r.headers@ == Seq::<(String, String)>::empty()
        },
        ArgView::Transparent => match p.cause {
            Some(c) => values[cause_index(c)] matches FieldValue::Error(e) && spec_from_err_rel(
                e,
                r,
            ),
            None => true,
        },
    }
}

/// Converts an instance of the declared union into the canonical error.
pub fn to_http_error(g: &GeneratedImpl, inst: VariantInstance, env: &Vec<(String, Value)>) -> (r:
    HttpError)
    requires
        plan_wf(g@),
        instance_wf(g@, inst.variant as int, inst.values@),
        env_covers(
            match g@.variants[inst.variant as int].arg {
                ArgView::Explicit { data, .. } => data,
                ArgView::Transparent => None,
            },
            env_view(env@),
        ),
    ensures
        spec_conversion_post(g@, inst.variant as int, inst.values@, env_view(env@), r),
        http_wf(r),
{
    let ghost gv = g@;
    let ghost vi = inst.variant as int;
    let ghost vals = inst.values@;
    let ghost ev = env_view(env@);
    let fallback = render_variant(g, &inst);
    let p = &g.variants[inst.variant];
    proof {
        assert(gv.variants[vi] == g.variants@[vi]@);
    }
    let binds = bind_fields(&p.shape, &inst.values);
    let cause_idx: Option<usize> = match &p.cause {
        Some(crate::resolver::VariantAttribute::From { index, .. }) => Some(*index),
        Some(crate::resolver::VariantAttribute::Source { index }) => Some(*index),
        None => None,
    };
    match &p.arg {
        Arg::Transparent => {
            let idx = match cause_idx {
                Some(idx) => idx,
                None => {
                    assert(false);
                    0
                },
            };
            let mut values = inst.values;
            let fv = values.remove(idx);
            match fv {
                FieldValue::Error(e) => HttpError::from_err(e),
                FieldValue::Plain(_) => {
                    assert(false);
                    HttpError::new()
                },
            }
        },
        Arg::Explicit { status_code, reason, data } => {
            let mut e = HttpError::new().with_status_code(*status_code);
            match reason {
                Some(t) => {
                    let formatted = format_template(t.as_str(), &binds);
                    e = e.with_reason(formatted);
                },
                None => {},
            }
            let ghost es_full: Seq<(DataKeyView, DataArgView)> = match gv.variants[vi].arg {
                ArgView::Explicit { data: Some(es), .. } => es,
                _ => Seq::empty(),
            };
            match data {
                Some(ds) => {
                    proof {
                        assert(crate::attr::data_entries_view(ds@) == es_full);
                        assert(es_full.skip(0) =~= es_full);
                        assert(payload_view(e.data@) =~= Seq::<(Seq<char>, ValueView)>::empty());
                    }
                    let mut i: usize = 0;
                    while i < ds.len()
                        invariant
                            i <= ds@.len(),
                            gv == g@,
                            vi == inst.variant as int,
                            0 <= vi < gv.variants.len(),
                            ev == env_view(env@),
                            es_full == crate::attr::data_entries_view(ds@),
                            es_full.len() == ds@.len(),
                            binds_view(binds@) == spec_bindings(
                                gv.variants[vi].shape,
                                inst.values@,
                            ),
                            env_covers(Some(es_full), ev),
                            entries_sorted(e.data@),
                            e.headers@ == Seq::<(String, String)>::empty(),
                            gv.variants[vi].arg matches ArgView::Explicit {
                                status_code: sc,
                                reason: re,
                                data: _da,
                            } && e.status_code == sc && (match re {
                                Some(t) => e.reason matches Some(s2) && s2@ == spec_format(
                                    t,
                                    binds_view(binds@),
                                ),
                                None => e.reason is None,
                            }),
                            spec_eval_entries(es_full, binds_view(binds@), ev, Seq::empty())
                                == spec_eval_entries(
                                es_full.skip(i as int),
                                binds_view(binds@),
                                ev,
                                payload_view(e.data@),
                            ),
                        decreases ds@.len() - i,
                    {
                        let ghost rest = es_full.skip(i as int);
                        proof {
                            assert(rest[0] == es_full[i as int]);
                            assert(es_full[i as int] == (ds@[i as int].0@, ds@[i as int].1@));
                            assert(rest.skip(1) =~= es_full.skip(i + 1));
                        }
                        let key: Option<String> = match &ds[i].0 {
                            DataKey::Lit(s) => Some(s.clone()),
                            DataKey::Expr(t) => match env_lookup(env, t.as_str()) {
                                Some(Value::Str(s)) => Some(s.clone()),
                                _ => None,
                            },
                        };
                        let value: Option<Value> = match &ds[i].1 {
                            DataArg::Format(t) => Some(
                                Value::Str(format_template(t.as_str(), &binds)),
                            ),
                            DataArg::Lit(v) => Some(v.clone()),
                            DataArg::Expr(t) => match env_lookup(env, t.as_str()) {
                                Some(v) => Some(v.clone()),
                                None => None,
                            },
                        };
                        match (key, value) {
                            (Some(k), Some(v)) => {
                                let ghost pre = e.data@;
                                proof {
                                    lemma_insert_entry_sorted(pre, k, v);
                                    lemma_payload_insert(pre, k, v);
                                }
                                e = e.with_key_value(k, v);
                            },
                            _ => {},
                        }
                        i += 1;
                    }
                    proof {
                        assert(es_full.skip(es_full.len() as int) =~= Seq::<(
                            DataKeyView,
                            DataArgView,
                        )>::empty());
                    }
                },
                None => {
                    proof {
                        assert(payload_view(e.data@) =~= Seq::<(Seq<char>, ValueView)>::empty());
                    }
                },
            }
            match cause_idx {
                Some(idx) => {
                    let mut values = inst.values;
                    let fv = values.remove(idx);
                    match fv {
                        FieldValue::Error(err) => e.with_source_err(err),
                        FieldValue::Plain(_) => {
                            assert(false);
                            e
                        },
                    }
                },
                None => e.with_source_err(GenericError::Message(fallback)),
            }
        },
    }
}

// ---------------------------------------------------------------------------
// the bridge and the auto-wrap constructor
// ---------------------------------------------------------------------------

/// Converts an instance into the ambient generic error, by way of the
/// canonical conversion: the canonical representation is the single source
/// of truth.
pub fn to_generic_error(g: &GeneratedImpl, inst: VariantInstance, env: &Vec<(String, Value)>) -> (r:
    GenericError)
    requires
        plan_wf(g@),
        instance_wf(g@, inst.variant as int, inst.values@),
        env_covers(
            match g@.variants[inst.variant as int].arg {
                ArgView::Explicit { data, .. } => data,
                ArgView::Transparent => None,
            },
            env_view(env@),
        ),
    ensures
        r matches GenericError::Http(h) && spec_conversion_post(
            g@,
            inst.variant as int,
            inst.values@,
            env_view(env@),
            *h,
        ) && http_wf(*h),
{
    let e = to_http_error(g, inst, env);
    e.into_boxed()
}

/// The auto-wrap constructor: a bare cause value goes straight into the
/// tagged union, as the marked variant's sole positional field.
pub fn wrap_source(g: &GeneratedImpl, variant: usize, source: GenericError) -> (r: VariantInstance)
    requires
        plan_wf(g@),
        variant < g@.variants.len(),
        g@.variants[variant as int].cause matches Some(VariantAttributeView::From { .. }),
        gen_wf(source),
    ensures
        r.variant == variant,
        r.values@ == seq![FieldValue::Error(source)],
        instance_wf(g@, variant as int, r.values@),
{
    let mut values: Vec<FieldValue> = Vec::new();
    values.push(FieldValue::Error(source));
    proof {
        assert(values@ =~= seq![FieldValue::Error(source)]);
    }
    VariantInstance { variant, values }
}

// ---------------------------------------------------------------------------
// expansion emits only well-formed plans
// ---------------------------------------------------------------------------

proof fn lemma_scan_status_valid(
    metas: Seq<crate::schema::RawMetaView>,
    i: int,
    st: crate::attr::MetaScanView,
    vloc: crate::schema::SrcLoc,
)
    requires
        st.status matches Some(c) ==> valid_status_code(c),
    ensures
        crate::attr::spec_scan_metas(metas, i, st, vloc) matches Ok(st2) ==> (st2.status matches
            Some(c) ==> valid_status_code(c)),
    decreases metas.len() - i,
{
    if 0 <= i < metas.len() {
        let m = metas[i];
        if m.name == "status"@ {
            match m.payload {
                None => {},
                Some(p) => match crate::attr::spec_parse_status(p, m.loc, vloc) {
                    Err(_) => {},
                    Ok(code) => {
                        lemma_scan_status_valid(
                            metas,
                            i + 1,
                            crate::attr::MetaScanView { status: Some(code), ..st },
                            vloc,
                        );
                    },
                },
            }
        } else if m.name == "reason"@ {
            match m.payload {
                None => {},
                Some(p) => match crate::attr::spec_parse_reason(p, m.loc) {
                    Err(_) => {},
                    Ok(tmpl) => {
                        lemma_scan_status_valid(
                            metas,
                            i + 1,
                            crate::attr::MetaScanView { reason: Some(tmpl), ..st },
                            vloc,
                        );
                    },
                },
            }
        } else if m.name == "data"@ {
            match m.payload {
                None => {},
                Some(p) => match crate::attr::spec_parse_data(p) {
                    None => {},
                    Some(es) => {
                        lemma_scan_status_valid(
                            metas,
                            i + 1,
                            crate::attr::MetaScanView { data: Some(es), ..st },
                            vloc,
                        );
                    },
                },
            }
        } else if m.name == "transparent"@ {
            match m.payload {
                Some(_) => {},
                None => {
                    lemma_scan_status_valid(
                        metas,
                        i + 1,
                        crate::attr::MetaScanView { transparent: true, ..st },
                        vloc,
                    );
                },
            }
        }
    }
}

proof fn lemma_first_marked_bounds(fields: Seq<crate::schema::FieldDeclView>, from_marker: bool)
    ensures
        crate::resolver::spec_first_marked(fields, from_marker) matches Some(i) ==> 0 <= i
            < fields.len(),
    decreases fields.len(),
{
    if fields.len() > 0 {
        lemma_first_marked_bounds(fields.skip(1), from_marker);
    }
}

proof fn lemma_plan_variant_wf(v: crate::schema::VariantDeclarationView)
    ensures
        crate::generator::spec_plan_variant(v) matches Ok(p) ==> plan_variant_wf(p),
{
    match crate::generator::spec_plan_variant(v) {
        Err(_) => {},
        Ok(p) => {
            lemma_scan_status_valid(
                v.metas,
                0,
                crate::attr::MetaScanView {
                    status: None,
                    reason: None,
                    data: None,
                    transparent: false,
                },
                v.loc,
            );
            lemma_first_marked_bounds(shape_fields(v.fields), true);
            lemma_first_marked_bounds(shape_fields(v.fields), false);
        },
    }
}

proof fn lemma_plan_variants_wf(
    vs: Seq<crate::schema::VariantDeclarationView>,
    i: int,
    acc: Seq<VariantPlanView>,
)
    requires
        forall|j: int| 0 <= j < acc.len() ==> plan_variant_wf(#[trigger] acc[j]),
    ensures
        crate::generator::spec_plan_variants(vs, i, acc) matches Ok(ps) ==> forall|j: int|
            0 <= j < ps.len() ==> plan_variant_wf(#[trigger] ps[j]),
    decreases vs.len() - i,
{
    if 0 <= i < vs.len() {
        match crate::generator::spec_plan_variant(vs[i]) {
            Err(_) => {},
            Ok(p) => {
                lemma_plan_variant_wf(vs[i]);
                assert(forall|j: int|
                    0 <= j < acc.push(p).len() ==> plan_variant_wf(#[trigger] acc.push(p)[j]));
                lemma_plan_variants_wf(vs, i + 1, acc.push(p));
            },
        }
    }
}

/// Every plan that generation emits is well-formed: valid status codes,
/// cause roles within the variant's fields, a cause behind every
/// transparent variant.
pub proof fn lemma_expansion_wf(item: crate::schema::ItemDeclarationView)
    ensures
        crate::generator::spec_expand_item(item) matches Ok(g) ==> plan_wf(g),
{
    match item {
        crate::schema::ItemDeclarationView::Enum(d) => {
            lemma_plan_variants_wf(d.variants, 0, Seq::empty());
        },
        _ => {},
    }
}

// ---------------------------------------------------------------------------
// laws of the conversion
// ---------------------------------------------------------------------------

/// For an explicit variant with no data: the canonical status equals the
/// declared status, and the reason is the formatted template, or absent if
/// none was declared.
pub proof fn lemma_explicit_status_reason(
    g: GeneratedImplView,
    variant: int,
    values: Seq<FieldValue>,
    env: Seq<(Seq<char>, ValueView)>,
    r: HttpError,
)
    requires
        plan_wf(g),
        instance_wf(g, variant, values),
        g.variants[variant].arg matches ArgView::Explicit { data: None, .. },
        spec_conversion_post(g, variant, values, env, r),
    ensures
        g.variants[variant].arg matches ArgView::Explicit { status_code, reason, .. } && {
            &&& r.status_code == status_code
            &&& match reason {
                Some(t) => r.reason matches Some(s) && s@ == spec_format(
                    t,
                    spec_bindings(g.variants[variant].shape, values),
                ),
                None => r.reason is None,
            }
        },
{
}

/// For a variant with an auto-wrap marker: a cause value wrapped into the
/// union and then converted yields a canonical error whose cause renders
/// identically to the value's own rendering.
pub proof fn lemma_auto_wrap_cause_rendering(
    g: GeneratedImplView,
    variant: int,
    cause: GenericError,
    values: Seq<FieldValue>,
    env: Seq<(Seq<char>, ValueView)>,
    r: HttpError,
)
    requires
        plan_wf(g),
        0 <= variant < g.variants.len(),
        g.variants[variant].cause matches Some(VariantAttributeView::From { .. }),
        g.variants[variant].arg is Explicit,
        values == seq![FieldValue::Error(cause)],
        instance_wf(g, variant, values),
        spec_conversion_post(g, variant, values, env, r),
    ensures
        r.source matches Some(e) && spec_gen_render(e, false) == spec_gen_render(cause, false),
{
    let c = g.variants[variant].cause->0;
    assert(cause_index(c) == 0);
    assert(values[0] == FieldValue::Error(cause));
}

/// For a transparent variant: the canonical representation is identical in
/// status, reason and data to the cause's own canonical representation.
pub proof fn lemma_transparent_passthrough(
    g: GeneratedImplView,
    variant: int,
    values: Seq<FieldValue>,
    env: Seq<(Seq<char>, ValueView)>,
    r: HttpError,
    own: HttpError,
)
    requires
        plan_wf(g),
        instance_wf(g, variant, values),
        g.variants[variant].arg is Transparent,
        spec_conversion_post(g, variant, values, env, r),
        g.variants[variant].cause matches Some(c) && spec_from_err_rel(
            values[cause_index(c)]->Error_0,
            own,
        ),
    ensures
        r.status_code == own.status_code,
        r.reason == own.reason,
        payload_view(r.data@) == payload_view(own.data@),
{
}

} // verus!
