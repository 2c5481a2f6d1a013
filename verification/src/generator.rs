//! The code generator. A declaration is turned into a [`GeneratedImpl`]: the
//! validated plan that carries, for every variant, its classification and
//! resolved cause role. The emitters share this plan — and one field-binding
//! function — so the rendering, the canonical conversion, the bridge to the
//! ambient error and the auto-wrap constructors all address fields
//! identically. Generation either yields the plan or aborts with the first
//! located diagnostic; it emits nothing else.

use vstd::prelude::*;

use crate::attr::{spec_parse_arg, Arg, ArgView};
use crate::resolver::{spec_resolve, VariantAttribute, VariantAttributeView};
use crate::schema::{
    Diagnostic, DiagnosticCode, ErrorTypeDeclaration, ErrorTypeDeclarationView, FieldShape,
    FieldShapeView, ItemDeclaration, ItemDeclarationView, SrcLoc, VariantDeclaration,
    VariantDeclarationView,
};

verus! {

/// One variant's validated plan.
#[derive(Debug)]
pub struct VariantPlan {
    pub name: String,
    pub shape: FieldShape,
    pub arg: Arg,
    pub cause: Option<VariantAttribute>,
    pub loc: SrcLoc,
}

/// The emitted artifact: the plan every generated capability runs on.
#[derive(Debug)]
pub struct GeneratedImpl {
    pub name: String,
    pub variants: Vec<VariantPlan>,
}

pub ghost struct VariantPlanView {
    pub name: Seq<char>,
    pub shape: FieldShapeView,
    pub arg: ArgView,
    pub cause: Option<VariantAttributeView>,
    pub loc: SrcLoc,
}

pub ghost struct GeneratedImplView {
    pub name: Seq<char>,
    pub variants: Seq<VariantPlanView>,
}

impl View for VariantPlan {
    type V = VariantPlanView;

    open spec fn view(&self) -> VariantPlanView {
        VariantPlanView {
            name: self.name@,
            shape: self.shape@,
            arg: self.arg@,
            cause: match self.cause {
                Some(c) => Some(c@),
                None => None,
            },
            loc: self.loc,
        }
    }
}

impl View for GeneratedImpl {
    type V = GeneratedImplView;

    open spec fn view(&self) -> GeneratedImplView {
        GeneratedImplView {
            name: self.name@,
            variants: self.variants@.map_values(|p: VariantPlan| p@),
        }
    }
}

/// The plan of one variant: its classification, its cause role, and the
/// check that a transparent variant has a cause to forward to.
pub open spec fn spec_plan_variant(v: VariantDeclarationView) -> Result<VariantPlanView, Diagnostic> {
    match spec_parse_arg(v) {
        Err(d) => Err(d),
        Ok(arg) => match spec_resolve(v) {
            Err(d) => Err(d),
            Ok(cause) => {
                if arg is Transparent && cause is None {
                    Err(Diagnostic { code: DiagnosticCode::TransparentConflict, loc: v.loc })
                } else {
                    Ok(
                        VariantPlanView {
                            name: v.name,
                            shape: v.fields,
                            arg,
                            cause,
                            loc: v.loc,
                        },
                    )
                }
            },
        },
    }
}

/// The variants' plans from `i` on, accumulated in order; the first
/// diagnostic aborts.
pub open spec fn spec_plan_variants(
    vs: Seq<VariantDeclarationView>,
    i: int,
    acc: Seq<VariantPlanView>,
) -> Result<Seq<VariantPlanView>, Diagnostic>
    decreases vs.len() - i,
{
    if i < 0 || i >= vs.len() {
        Ok(acc)
    } else {
        match spec_plan_variant(vs[i]) {
            Err(d) => Err(d),
            Ok(p) => spec_plan_variants(vs, i + 1, acc.push(p)),
        }
    }
}

/// The whole declaration's plan.
pub open spec fn spec_expand_enum(d: ErrorTypeDeclarationView) -> Result<
    GeneratedImplView,
    Diagnostic,
> {
    match spec_plan_variants(d.variants, 0, Seq::empty()) {
        Err(diag) => Err(diag),
        Ok(vars) => Ok(GeneratedImplView { name: d.name, variants: vars }),
    }
}

/// The generator as a whole: a pure function from the declaration to the
/// plan or the first diagnostic. Only tagged unions are supported.
pub open spec fn spec_expand_item(item: ItemDeclarationView) -> Result<
    GeneratedImplView,
    Diagnostic,
> {
    match item {
        ItemDeclarationView::Enum(d) => spec_expand_enum(d),
        ItemDeclarationView::Struct { loc } => Err(
            Diagnostic { code: DiagnosticCode::UnsupportedItem, loc },
        ),
        ItemDeclarationView::Other { loc } => Err(
            Diagnostic { code: DiagnosticCode::UnsupportedItem, loc },
        ),
    }
}

fn plan_variant(v: VariantDeclaration) -> (r: Result<VariantPlan, Diagnostic>)
    ensures
        match spec_plan_variant(v@) {
            Ok(p) => r matches Ok(out) && out@ == p,
            Err(d) => r == Err::<VariantPlan, Diagnostic>(d),
        },
{
    let arg = match Arg::parse_from_variant(&v) {
        Ok(a) => a,
        Err(d) => {
            return Err(d);
        },
    };
    let cause = match VariantAttribute::parse_from_variant(&v) {
        Ok(c) => c,
        Err(d) => {
            return Err(d);
        },
    };
    let transparent = match &arg {
        Arg::Transparent => true,
        _ => false,
    };
    if transparent && cause.is_none() {
        return Err(Diagnostic { code: DiagnosticCode::TransparentConflict, loc: v.loc });
    }
    let VariantDeclaration { name, fields, metas: _, loc } = v;
    Ok(VariantPlan { name, shape: fields, arg, cause, loc })
}

/// Expands a tagged-union declaration into its plan.
pub fn expand_enum(decl: ErrorTypeDeclaration) -> (r: Result<GeneratedImpl, Diagnostic>)
    ensures
        match spec_expand_enum(decl@) {
            Ok(g) => r matches Ok(out) && out@ == g,
            Err(d) => r == Err::<GeneratedImpl, Diagnostic>(d),
        },
{
    let ghost dv = decl@;
    let ErrorTypeDeclaration { name, mut variants, loc } = decl;
    let mut out: Vec<VariantPlan> = Vec::new();
    let ghost total = dv.variants.len() as int;
    proof {
        assert(variants@.map_values(|v: VariantDeclaration| v@) =~= dv.variants.skip(0));
        assert(out@.map_values(|p: VariantPlan| p@) =~= Seq::<VariantPlanView>::empty());
    }
    while variants.len() > 0
        invariant
            dv == decl@,
            out@.len() + variants@.len() == dv.variants.len(),
            variants@.map_values(|v: VariantDeclaration| v@) == dv.variants.skip(out@.len() as int),
            spec_plan_variants(dv.variants, 0, Seq::empty()) == spec_plan_variants(
                dv.variants,
                out@.len() as int,
                out@.map_values(|p: VariantPlan| p@),
            ),
        decreases variants@.len(),
    {
        let ghost k = out@.len() as int;
        let ghost pre = variants@;
        let v = variants.remove(0);
        proof {
            assert(variants@ =~= pre.skip(1));
            assert(pre.skip(1).map_values(|x: VariantDeclaration| x@) =~= pre.map_values(
                |x: VariantDeclaration| x@,
            ).skip(1));
            assert(dv.variants.skip(k).skip(1) =~= dv.variants.skip(k + 1));
            assert(pre.map_values(|x: VariantDeclaration| x@)[0] == v@);
            assert(dv.variants.skip(k)[0] == dv.variants[k]);
            assert(v@ == dv.variants[k]);
        }
        match plan_variant(v) {
            Err(d) => {
                return Err(d);
            },
            Ok(p) => {
                let ghost out_pre = out@;
                let ghost pv = p@;
                out.push(p);
                proof {
                    assert(out@ == out_pre.push(p));
                    assert(out@.map_values(|x: VariantPlan| x@) =~= out_pre.map_values(
                        |x: VariantPlan| x@,
                    ).push(pv));
                    assert(spec_plan_variants(dv.variants, k, out_pre.map_values(|x: VariantPlan| x@))
                        == spec_plan_variants(
                        dv.variants,
                        k + 1,
                        out_pre.map_values(|x: VariantPlan| x@).push(pv),
                    ));
                }
            },
        }
    }
    proof {
        assert(dv.variants.skip(out@.len() as int).len() == 0);
    }
    Ok(GeneratedImpl { name: name, variants: out })
}

/// The generator's entry: dispatches on the declaration's kind.
pub fn derive_from_http_error(item: ItemDeclaration) -> (r: Result<GeneratedImpl, Diagnostic>)
    ensures
        match spec_expand_item(item@) {
            Ok(g) => r matches Ok(out) && out@ == g,
            Err(d) => r == Err::<GeneratedImpl, Diagnostic>(d),
        },
{
    match item {
        ItemDeclaration::Enum(decl) => expand_enum(decl),
        ItemDeclaration::Struct { name: _, loc } => Err(
            Diagnostic { code: DiagnosticCode::UnsupportedItem, loc },
        ),
        ItemDeclaration::Other { loc } => Err(
            Diagnostic { code: DiagnosticCode::UnsupportedItem, loc },
        ),
    }
}

/// Generation is a pure function of the declaration: two runs over the same
/// declaration yield identical output — the same plan, or the same
/// diagnostic.
pub proof fn lemma_generation_idempotent(
    item1: ItemDeclaration,
    item2: ItemDeclaration,
    r1: Result<GeneratedImpl, Diagnostic>,
    r2: Result<GeneratedImpl, Diagnostic>,
)
    requires
        item1@ == item2@,
        match spec_expand_item(item1@) {
            Ok(g) => r1 matches Ok(out) && out@ == g,
            Err(d) => r1 == Err::<GeneratedImpl, Diagnostic>(d),
        },
        match spec_expand_item(item2@) {
            Ok(g) => r2 matches Ok(out) && out@ == g,
            Err(d) => r2 == Err::<GeneratedImpl, Diagnostic>(d),
        },
    ensures
        r1 is Ok <==> r2 is Ok,
        r1 matches Ok(g1) ==> r2 matches Ok(g2) && g1@ == g2@,
        r1 matches Err(d1) ==> r2 == Err::<GeneratedImpl, Diagnostic>(d1),
{
}

} // verus!
