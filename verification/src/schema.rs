//! The declaration model the generator consumes: a tagged-union error
//! declaration read into plain values — variant names, field shapes with
//! their cause markers, and the raw metadata tokens of each variant — plus
//! the located diagnostics that generation can produce.

use vstd::prelude::*;

verus! {

/// A source location carried by every declaration node, so diagnostics point
/// at the offending construct.
#[derive(Debug, Clone, Copy, PartialEq, Eq, Structural)]
pub struct SrcLoc {
    pub line: u32,
    pub column: u32,
}

/// What a failed generation reports.
#[derive(Debug, Clone, Copy, PartialEq, Eq, Structural)]
pub enum DiagnosticCode {
    /// The declaration is not a tagged union.
    UnsupportedItem,
    /// A non-transparent variant declares no status.
    MissingStatus,
    /// An unrecognized metadata key.
    UnrecognizedArgument,
    /// Cause markers that contradict each other.
    ConflictingRoleMarkers,
    /// An auto-wrap marker on a variant without exactly one positional field.
    InvalidFromArity,
    /// `transparent` combined with status, reason or data — or declared
    /// without any cause marker to forward to.
    TransparentConflict,
    /// A status code the registry rejects.
    InvalidStatusCode,
    /// Metadata text that does not follow the attribute grammar.
    MalformedAttribute,
}

/// A diagnostic: what went wrong, and where.
#[derive(Debug, Clone, Copy, PartialEq, Eq, Structural)]
pub struct Diagnostic {
    pub code: DiagnosticCode,
    pub loc: SrcLoc,
}

/// One field of a variant, with its cause markers.
#[derive(Debug)]
pub struct FieldDecl {
    /// The field name; `None` for positional fields.
    pub name: Option<String>,
    /// The declared type, as text; the auto-wrap conversion is emitted for it.
    pub ty: String,
    /// The auto-wrap marker.
    pub has_from: bool,
    /// The marked-source marker.
    pub has_source: bool,
}

/// The shape of a variant's fields.
#[derive(Debug)]
pub enum FieldShape {
    Unit,
    Named(Vec<FieldDecl>),
    Positional(Vec<FieldDecl>),
}

/// One raw metadata token: a key, and the raw text inside its parentheses if
/// it has any.
#[derive(Debug)]
pub struct RawMeta {
    pub name: String,
    pub payload: Option<String>,
    pub loc: SrcLoc,
}

/// One variant of the declaration.
#[derive(Debug)]
pub struct VariantDeclaration {
    pub name: String,
    pub fields: FieldShape,
    /// The raw tokens of the variant's metadata block, in declaration order.
    pub metas: Vec<RawMeta>,
    pub loc: SrcLoc,
}

/// The whole tagged-union declaration.
#[derive(Debug)]
pub struct ErrorTypeDeclaration {
    pub name: String,
    pub variants: Vec<VariantDeclaration>,
    pub loc: SrcLoc,
}

/// The raw item handed to the generator; only tagged unions are supported.
#[derive(Debug)]
pub enum ItemDeclaration {
    Enum(ErrorTypeDeclaration),
    Struct { name: String, loc: SrcLoc },
    Other { loc: SrcLoc },
}

// ---------------------------------------------------------------------------
// View types: the mathematical shape of a declaration, with text as
// character sequences.
// ---------------------------------------------------------------------------

pub ghost struct FieldDeclView {
    pub name: Option<Seq<char>>,
    pub ty: Seq<char>,
    pub has_from: bool,
    pub has_source: bool,
}

pub ghost enum FieldShapeView {
    Unit,
    Named(Seq<FieldDeclView>),
    Positional(Seq<FieldDeclView>),
}

pub ghost struct RawMetaView {
    pub name: Seq<char>,
    pub payload: Option<Seq<char>>,
    pub loc: SrcLoc,
}

pub ghost struct VariantDeclarationView {
    pub name: Seq<char>,
    pub fields: FieldShapeView,
    pub metas: Seq<RawMetaView>,
    pub loc: SrcLoc,
}

pub ghost struct ErrorTypeDeclarationView {
    pub name: Seq<char>,
    pub variants: Seq<VariantDeclarationView>,
    pub loc: SrcLoc,
}

pub ghost enum ItemDeclarationView {
    Enum(ErrorTypeDeclarationView),
    Struct { loc: SrcLoc },
    Other { loc: SrcLoc },
}

impl View for FieldDecl {
    type V = FieldDeclView;

    open spec fn view(&self) -> FieldDeclView {
        FieldDeclView {
            name: match self.name {
                Some(n) => Some(n@),
                None => None,
            },
            ty: self.ty@,
            has_from: self.has_from,
            has_source: self.has_source,
        }
    }
}

impl View for FieldShape {
    type V = FieldShapeView;

    open spec fn view(&self) -> FieldShapeView {
        match self {
            FieldShape::Unit => FieldShapeView::Unit,
            FieldShape::Named(fields) => FieldShapeView::Named(
                fields@.map_values(|f: FieldDecl| f@),
            ),
            FieldShape::Positional(fields) => FieldShapeView::Positional(
                fields@.map_values(|f: FieldDecl| f@),
            ),
        }
    }
}

impl View for RawMeta {
    type V = RawMetaView;

    open spec fn view(&self) -> RawMetaView {
        RawMetaView {
            name: self.name@,
            payload: match self.payload {
                Some(p) => Some(p@),
                None => None,
            },
            loc: self.loc,
        }
    }
}

impl View for VariantDeclaration {
    type V = VariantDeclarationView;

    open spec fn view(&self) -> VariantDeclarationView {
        VariantDeclarationView {
            name: self.name@,
            fields: self.fields@,
            metas: self.metas@.map_values(|m: RawMeta| m@),
            loc: self.loc,
        }
    }
}

impl View for ErrorTypeDeclaration {
    type V = ErrorTypeDeclarationView;

    open spec fn view(&self) -> ErrorTypeDeclarationView {
        ErrorTypeDeclarationView {
            name: self.name@,
            variants: self.variants@.map_values(|v: VariantDeclaration| v@),
            loc: self.loc,
        }
    }
}

impl View for ItemDeclaration {
    type V = ItemDeclarationView;

    open spec fn view(&self) -> ItemDeclarationView {
        match self {
            ItemDeclaration::Enum(decl) => ItemDeclarationView::Enum(decl@),
            ItemDeclaration::Struct { name: _, loc } => ItemDeclarationView::Struct { loc: *loc },
            ItemDeclaration::Other { loc } => ItemDeclarationView::Other { loc: *loc },
        }
    }
}

/// The fields of a shape, named or positional; a unit shape has none.
pub open spec fn shape_fields(shape: FieldShapeView) -> Seq<FieldDeclView> {
    match shape {
        FieldShapeView::Unit => Seq::empty(),
        FieldShapeView::Named(fields) => fields,
        FieldShapeView::Positional(fields) => fields,
    }
}

} // verus!
