//! The cross-reference resolver: scans a variant's fields for the auto-wrap
//! and marked-source cause markers and resolves the variant's cause role.
//! At most one field may carry a marker; the auto-wrap marker is only legal
//! on a variant with exactly one positional field.

use vstd::prelude::*;

use crate::schema::{
    shape_fields, Diagnostic, DiagnosticCode, FieldDecl, FieldDeclView, FieldShape,
    VariantDeclaration, VariantDeclarationView,
};

verus! {

/// A resolved cause marker: an auto-wrap field (which also gets a conversion
/// from its type), or a marked-source field.
#[derive(Debug)]
pub enum VariantAttribute {
    From { index: usize, field_ty: String },
    Source { index: usize },
}

pub ghost enum VariantAttributeView {
    From { index: int, field_ty: Seq<char> },
    Source { index: int },
}

impl View for VariantAttribute {
    type V = VariantAttributeView;

    open spec fn view(&self) -> VariantAttributeView {
        match self {
            VariantAttribute::From { index, field_ty } => VariantAttributeView::From {
                index: *index as int,
                field_ty: field_ty@,
            },
            VariantAttribute::Source { index } => VariantAttributeView::Source {
                index: *index as int,
            },
        }
    }
}

/// Whether the field carries the asked-for marker.
pub open spec fn has_marker(f: FieldDeclView, from_marker: bool) -> bool {
    if from_marker {
        f.has_from
    } else {
        f.has_source
    }
}

/// The first field carrying the marker, if any.
pub open spec fn spec_first_marked(fields: Seq<FieldDeclView>, from_marker: bool) -> Option<int>
    decreases fields.len(),
{
    if fields.len() == 0 {
        None
    } else if has_marker(fields[0], from_marker) {
        Some(0)
    } else {
        match spec_first_marked(fields.skip(1), from_marker) {
            Some(i) => Some(i + 1),
            None => None,
        }
    }
}

proof fn lemma_first_marked_at(fields: Seq<FieldDeclView>, from_marker: bool, i: int)
    requires
        0 <= i <= fields.len(),
        forall|j: int| 0 <= j < i ==> !has_marker(#[trigger] fields[j], from_marker),
        i < fields.len() ==> has_marker(fields[i], from_marker),
    ensures
        i < fields.len() ==> spec_first_marked(fields, from_marker) == Some(i),
        i == fields.len() ==> spec_first_marked(fields, from_marker) is None,
    decreases i,
{
    if i == 0 {
    } else {
        let tail = fields.skip(1);
        assert(forall|j: int| 0 <= j < i - 1 ==> tail[j] == fields[j + 1]);
        lemma_first_marked_at(tail, from_marker, i - 1);
        if i < fields.len() {
            assert(tail[i - 1] == fields[i]);
        }
    }
}

fn first_marked(fields: &Vec<FieldDecl>, from_marker: bool) -> (r: Option<usize>)
    ensures
        match spec_first_marked(fields@.map_values(|f: FieldDecl| f@), from_marker) {
            Some(i) => r matches Some(x) && x as int == i && i < fields@.len(),
            None => r is None,
        },
{
    let ghost fv = fields@.map_values(|f: FieldDecl| f@);
    let mut i: usize = 0;
    while i < fields.len()
        invariant
            i <= fields@.len(),
            fv == fields@.map_values(|f: FieldDecl| f@),
            forall|j: int| 0 <= j < i ==> !has_marker(#[trigger] fv[j], from_marker),
        decreases fields@.len() - i,
    {
        let marked = if from_marker {
            fields[i].has_from
        } else {
            fields[i].has_source
        };
        if marked {
            proof {
                lemma_first_marked_at(fv, from_marker, i as int);
            }
            return Some(i);
        }
        i += 1;
    }
    proof {
        lemma_first_marked_at(fv, from_marker, fields@.len() as int);
    }
    None
}

/// The meaning of a variant's markers: a marker on both kinds is a conflict,
/// an auto-wrap marker demands exactly one positional field, a source marker
/// names its field, and no marker resolves to no cause.
pub open spec fn spec_resolve(v: VariantDeclarationView) -> Result<
    Option<VariantAttributeView>,
    Diagnostic,
> {
    let fields = shape_fields(v.fields);
    match (spec_first_marked(fields, true), spec_first_marked(fields, false)) {
        (Some(_), Some(_)) => Err(
            Diagnostic { code: DiagnosticCode::ConflictingRoleMarkers, loc: v.loc },
        ),
        (Some(i), None) => {
            if v.fields is Positional && fields.len() == 1 {
                Ok(Some(VariantAttributeView::From { index: i, field_ty: fields[i].ty }))
            } else {
                Err(Diagnostic { code: DiagnosticCode::InvalidFromArity, loc: v.loc })
            }
        },
        (None, Some(i)) => Ok(Some(VariantAttributeView::Source { index: i })),
        (None, None) => Ok(None),
    }
}

impl VariantAttribute {
    /// Resolves a variant's cause markers.
    pub fn parse_from_variant(v: &VariantDeclaration) -> (r: Result<
        Option<VariantAttribute>,
        Diagnostic,
    >)
        ensures
            match spec_resolve(v@) {
                Ok(Some(a)) => r matches Ok(Some(out)) && out@ == a,
                Ok(None) => r == Ok::<Option<VariantAttribute>, Diagnostic>(None),
                Err(d) => r == Err::<Option<VariantAttribute>, Diagnostic>(d),
            },
    {
        let empty: Vec<FieldDecl> = Vec::new();
        let fields: &Vec<FieldDecl> = match &v.fields {
            FieldShape::Unit => &empty,
            FieldShape::Named(fs) => fs,
            FieldShape::Positional(fs) => fs,
        };
        proof {
            assert(empty@.map_values(|f: FieldDecl| f@) =~= Seq::<FieldDeclView>::empty());
            assert(fields@.map_values(|f: FieldDecl| f@) == shape_fields(v@.fields));
        }
        let from_field = first_marked(fields, true);
        let source_field = first_marked(fields, false);
        match (from_field, source_field) {
            (Some(_), Some(_)) => Err(
                Diagnostic { code: DiagnosticCode::ConflictingRoleMarkers, loc: v.loc },
            ),
            (Some(i), None) => {
                let positional = match &v.fields {
                    FieldShape::Positional(_) => true,
                    _ => false,
                };
                if positional && fields.len() == 1 {
                    Ok(
                        Some(
                            VariantAttribute::From { index: i, field_ty: fields[i].ty.clone() },
                        ),
                    )
                } else {
                    Err(Diagnostic { code: DiagnosticCode::InvalidFromArity, loc: v.loc })
                }
            },
            (None, Some(i)) => Ok(Some(VariantAttribute::Source { index: i })),
            (None, None) => Ok(None),
        }
    }
}

} // verus!
