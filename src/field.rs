//! One field of a layout: its output name and its type.

use heck::MixedCase;
use vstd::prelude::*;
use vstd::string::StringExecFns;
use crate::borsh_type::{
    class_text, parse_type, renderable, result_view, schema_text, BorshType, ParseError,
    SyntaxError, TypeExpr,
};
use crate::text::{decimal, push_decimal};

verus! {

/// Represents a field in a TypeScript class and a borsh schema.
#[derive(Debug)]
pub struct LayoutField {
    pub name: String,
    pub ty: BorshType,
}

/// The mathematical value of a [`LayoutField`].
pub struct FieldModel {
    pub name: Seq<char>,
    pub ty: TypeExpr,
}

impl View for LayoutField {
    type V = FieldModel;

    open spec fn view(&self) -> FieldModel {
        FieldModel { name: self.name@, ty: self.ty@ }
    }
}

/// Why a field could not be built.
#[derive(Debug)]
pub enum FieldError {
    /// The field's type signature is malformed.
    Syntax(ParseError),
    /// A positional field was given no index.
    MissingIndex,
}

/// The mathematical value of a [`FieldError`].
pub enum FieldFault {
    Syntax(SyntaxError),
    MissingIndex,
}

impl View for FieldError {
    type V = FieldFault;

    open spec fn view(&self) -> FieldFault {
        match self {
            FieldError::Syntax(e) => FieldFault::Syntax(e@),
            FieldError::MissingIndex => FieldFault::MissingIndex,
        }
    }
}

pub open spec fn field_result_view(r: Result<LayoutField, FieldError>) -> Result<
    FieldModel,
    FieldFault,
> {
    match r {
        Ok(f) => Ok(f@),
        Err(e) => Err(e@),
    }
}

/// What heck's mixed-case transform makes of a text.
pub uninterp spec fn mixed_case_of(s: Seq<char>) -> Seq<char>;

/// Relies on heck's `MixedCase::to_mixed_case`: the result is a function of
/// the text alone.
#[verifier::external_body]
fn mixed_case(s: &str) -> (r: String)
    ensures
        r@ == mixed_case_of(s@),
{
    s.to_mixed_case()
}

/// The name given to a field: its declared name in mixed case, or
/// `unnamed_<index>` for a positional field.
pub open spec fn field_name(name: Option<Seq<char>>, idx: Option<usize>) -> Option<Seq<char>> {
    match name {
        Some(n) => Some(mixed_case_of(n)),
        None => match idx {
            Some(i) => Some("unnamed_"@ + decimal(i as nat)),
            None => None,
        },
    }
}

/// The field declared with `name` (or at position `idx`) and type signature
/// `field`. A missing name and index is reported before a syntax error.
pub open spec fn declared_field(name: Option<Seq<char>>, field: Seq<char>, idx: Option<usize>) -> Result<
    FieldModel,
    FieldFault,
> {
    match field_name(name, idx) {
        None => Err(FieldFault::MissingIndex),
        Some(n) => match parse_type(field) {
            Ok(ty) => Ok(FieldModel { name: n, ty }),
            Err(e) => Err(FieldFault::Syntax(e)),
        },
    }
}

/// The marker field of an enum variant whose struct is declared as `decl`:
/// named `decl` itself, and typed by reading `decl` as a signature.
pub open spec fn variant_field(decl: Seq<char>) -> Result<FieldModel, FieldFault> {
    match parse_type(decl) {
        Ok(ty) => Ok(FieldModel { name: decl, ty }),
        Err(e) => Err(FieldFault::Syntax(e)),
    }
}

pub open spec fn opt_str_view(s: Option<&str>) -> Option<Seq<char>> {
    match s {
        Some(x) => Some(x@),
        None => None,
    }
}

/// `name: type`, as a TypeScript class field.
pub open spec fn class_field_text(f: FieldModel) -> Seq<char> {
    f.name + ": "@ + class_text(f.ty)
}

/// `['name', type]`, as a borsh-js schema field.
pub open spec fn schema_field_text(f: FieldModel) -> Seq<char> {
    "['"@ + f.name + "', "@ + schema_text(f.ty) + "]"@
}

impl LayoutField {
    pub fn from_declaration(name: Option<&str>, field: &str, idx: Option<usize>) -> (r: Result<
        Self,
        FieldError,
    >)
        ensures
            field_result_view(r) == declared_field(opt_str_view(name), field@, idx),
    {
        let name = match name {
            Some(name) => mixed_case(name),
            None => match idx {
                Some(i) => {
                    let mut n = String::new();
                    n.append("unnamed_");
                    push_decimal(&mut n, i);
                    n
                },
                None => {
                    return Err(FieldError::MissingIndex);
                },
            },
        };
        match BorshType::from_str(field) {
            Ok(ty) => Ok(Self { name, ty }),
            Err(e) => Err(FieldError::Syntax(e)),
        }
    }

    pub fn from_enum_variant(name_str: &str) -> (r: Result<Self, FieldError>)
        ensures
            field_result_view(r) == variant_field(name_str@),
    {
        match BorshType::from_str(name_str) {
            Ok(ty) => Ok(Self { name: name_str.to_owned(), ty }),
            Err(e) => Err(FieldError::Syntax(e)),
        }
    }

    pub(crate) fn write_class_field(&self, out: &mut String)
        requires
            renderable(self.ty@),
        ensures
            final(out)@ == old(out)@ + class_field_text(self@),
    {
        out.append(self.name.as_str());
        out.append(": ");
        self.ty.write_class_type(out);
        assert(out@ =~= old(out)@ + class_field_text(self@));
    }

    pub(crate) fn write_schema_field(&self, out: &mut String)
        requires
            renderable(self.ty@),
        ensures
            final(out)@ == old(out)@ + schema_field_text(self@),
    {
        out.append("['");
        out.append(self.name.as_str());
        out.append("', ");
        self.ty.write_schema(out);
        out.append("]");
        assert(out@ =~= old(out)@ + schema_field_text(self@));
    }

    /// Converts the field into a TypeScript class field representation.
    pub fn to_class_field(&self) -> (r: String)
        requires
            renderable(self.ty@),
        ensures
            r@ == class_field_text(self@),
    {
        let mut out = String::new();
        self.write_class_field(&mut out);
        assert(out@ =~= class_field_text(self@));
        out
    }

    /// Converts the field into a borsh schema field representation.
    pub fn to_borsh_schema(&self) -> (r: String)
        requires
            renderable(self.ty@),
        ensures
            r@ == schema_field_text(self@),
    {
        let mut out = String::new();
        self.write_schema_field(&mut out);
        assert(out@ =~= schema_field_text(self@));
        out
    }

    /// Whether the field is left out of the generated output.
    pub fn should_skip(&self) -> (r: bool)
        ensures
            r == (self.ty@ is Skip),
    {
        matches!(self.ty, BorshType::Skip)
    }
}

} // verus!
