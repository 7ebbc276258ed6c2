//! The canonical type model: the resolver's sum-type representation of a
//! field's wire type, and its two textual renderings (TypeScript class
//! annotation and borsh schema annotation).

use vstd::prelude::*;

use crate::text::{append_decimal, chars_to_string, dec_digits};

verus! {

/// Mathematical model of a canonical type: the same shape as [`BorshType`],
/// with identifier names as character sequences.
pub enum TyModel {
    Bool,
    U8,
    U16,
    U32,
    U64,
    U128,
    I8,
    I16,
    I32,
    I64,
    I128,
    String,
    FixedBytes(usize),
    Option(Box<TyModel>),
    Vec(Box<TyModel>),
    FixedArray(Box<TyModel>, usize),
    Custom(Seq<char>),
    Skip,
}

/// The canonical representation of a field's wire type.
///
/// `Skip` marks a field that exists in the source but must not appear in
/// either output artifact. Any identifier that is not a known primitive or
/// compound form resolves to `Custom`, a reference to another generated
/// layout.
#[derive(Debug, PartialEq, Eq)]
pub enum BorshType {
    Bool,
    U8,
    U16,
    U32,
    U64,
    U128,
    I8,
    I16,
    I32,
    I64,
    I128,
    String,
    FixedBytes(usize),
    Option(Box<BorshType>),
    Vec(Box<BorshType>),
    FixedArray(Box<BorshType>, usize),
    Custom(String),
    Skip,
}

pub open spec fn ty_model(t: BorshType) -> TyModel
    decreases t,
{
    match t {
        BorshType::Bool => TyModel::Bool,
        BorshType::U8 => TyModel::U8,
        BorshType::U16 => TyModel::U16,
        BorshType::U32 => TyModel::U32,
        BorshType::U64 => TyModel::U64,
        BorshType::U128 => TyModel::U128,
        BorshType::I8 => TyModel::I8,
        BorshType::I16 => TyModel::I16,
        BorshType::I32 => TyModel::I32,
        BorshType::I64 => TyModel::I64,
        BorshType::I128 => TyModel::I128,
        BorshType::String => TyModel::String,
        BorshType::FixedBytes(n) => TyModel::FixedBytes(n),
        BorshType::Option(inner) => TyModel::Option(Box::new(ty_model(*inner))),
        BorshType::Vec(inner) => TyModel::Vec(Box::new(ty_model(*inner))),
        BorshType::FixedArray(inner, n) => TyModel::FixedArray(Box::new(ty_model(*inner)), n),
        BorshType::Custom(name) => TyModel::Custom(name@),
        BorshType::Skip => TyModel::Skip,
    }
}

impl View for BorshType {
    type V = TyModel;

    open spec fn view(&self) -> TyModel {
        ty_model(*self)
    }
}

/// The TypeScript class annotation of a canonical type.
///
/// Eight-byte and wider integers map to the arbitrary-precision wrapper `BN`;
/// `FixedBytes(n)` maps to the fixed-length byte-array marker `[n]`; options
/// become a union with `null`; sequences and fixed arrays become array
/// annotations (the array length is informative only at this layer and is not
/// rendered); a custom type is a bare reference to its generated class.
pub open spec fn class_annotation(t: TyModel) -> Seq<char>
    decreases t,
{
    match t {
        TyModel::Bool => "boolean"@,
        TyModel::U8 => "number"@,
        TyModel::U16 => "number"@,
        TyModel::U32 => "number"@,
        TyModel::U64 => "BN"@,
        TyModel::U128 => "BN"@,
        TyModel::I8 => "number"@,
        TyModel::I16 => "number"@,
        TyModel::I32 => "number"@,
        TyModel::I64 => "BN"@,
        TyModel::I128 => "BN"@,
        TyModel::String => "string"@,
        TyModel::FixedBytes(n) => "["@ + dec_digits(n as nat) + "]"@,
        TyModel::Option(inner) => class_annotation(*inner) + " | null"@,
        TyModel::Vec(inner) => class_annotation(*inner) + "[]"@,
        TyModel::FixedArray(inner, n) => class_annotation(*inner) + "[]"@,
        TyModel::Custom(name) => name,
        TyModel::Skip => Seq::empty(),
    }
}

/// The borsh schema annotation of a canonical type.
///
/// Scalars and strings render as quoted lowercase type tags; `FixedBytes(n)`
/// renders as the bare numeric-length array literal `[n]`; an option renders
/// as an option-wrapper descriptor; a sequence renders as a one-element array
/// of its element's annotation; a fixed array adds its length; a custom type
/// renders as a bare identifier reference (not a quoted string) so that the
/// consuming runtime resolves it to another generated schema entry.
pub open spec fn schema_annotation(t: TyModel) -> Seq<char>
    decreases t,
{
    match t {
        TyModel::Bool => "'bool'"@,
        TyModel::U8 => "'u8'"@,
        TyModel::U16 => "'u16'"@,
        TyModel::U32 => "'u32'"@,
        TyModel::U64 => "'u64'"@,
        TyModel::U128 => "'u128'"@,
        TyModel::I8 => "'i8'"@,
        TyModel::I16 => "'i16'"@,
        TyModel::I32 => "'i32'"@,
        TyModel::I64 => "'i64'"@,
        TyModel::I128 => "'i128'"@,
        TyModel::String => "'string'"@,
        TyModel::FixedBytes(n) => "["@ + dec_digits(n as nat) + "]"@,
        TyModel::Option(inner) => "{ kind: 'option', type: "@ + schema_annotation(*inner)
            + " }"@,
        TyModel::Vec(inner) => "["@ + schema_annotation(*inner) + "]"@,
        TyModel::FixedArray(inner, n) => "["@ + schema_annotation(*inner) + ", "@ + dec_digits(
            n as nat,
        ) + "]"@,
        TyModel::Custom(name) => name,
        TyModel::Skip => Seq::empty(),
    }
}

/// Renders the decimal digits of `n` as a string.
pub(crate) fn decimal_string(n: usize) -> (r: String)
    ensures
        r@ == dec_digits(n as nat),
{
    let mut v: Vec<char> = Vec::new();
    append_decimal(n, &mut v);
    chars_to_string(&v)
}

impl BorshType {
    /// Renders the TypeScript class annotation of this type.
    pub fn to_class_type(&self) -> (r: String)
        ensures
            r@ == class_annotation(self@),
        decreases *self,
    {
        match self {
            BorshType::Bool => "boolean".to_owned(),
            BorshType::U8 => "number".to_owned(),
            BorshType::U16 => "number".to_owned(),
            BorshType::U32 => "number".to_owned(),
            BorshType::U64 => "BN".to_owned(),
            BorshType::U128 => "BN".to_owned(),
            BorshType::I8 => "number".to_owned(),
            BorshType::I16 => "number".to_owned(),
            BorshType::I32 => "number".to_owned(),
            BorshType::I64 => "BN".to_owned(),
            BorshType::I128 => "BN".to_owned(),
            BorshType::String => "string".to_owned(),
            BorshType::FixedBytes(n) => {
                let mut s = "[".to_owned();
                let digits = decimal_string(*n);
                s.append(digits.as_str());
                s.append("]");
                s
            },
            BorshType::Option(inner) => {
                let mut s = inner.to_class_type();
                s.append(" | null");
                s
            },
            BorshType::Vec(inner) => {
                let mut s = inner.to_class_type();
                s.append("[]");
                s
            },
            BorshType::FixedArray(inner, _n) => {
                let mut s = inner.to_class_type();
                s.append("[]");
                s
            },
            BorshType::Custom(name) => name.clone(),
            BorshType::Skip => String::new(),
        }
    }

    /// Renders the borsh schema annotation of this type.
    pub fn to_borsh_schema(&self) -> (r: String)
        ensures
            r@ == schema_annotation(self@),
        decreases *self,
    {
        match self {
            BorshType::Bool => "'bool'".to_owned(),
            BorshType::U8 => "'u8'".to_owned(),
            BorshType::U16 => "'u16'".to_owned(),
            BorshType::U32 => "'u32'".to_owned(),
            BorshType::U64 => "'u64'".to_owned(),
            BorshType::U128 => "'u128'".to_owned(),
            BorshType::I8 => "'i8'".to_owned(),
            BorshType::I16 => "'i16'".to_owned(),
            BorshType::I32 => "'i32'".to_owned(),
            BorshType::I64 => "'i64'".to_owned(),
            BorshType::I128 => "'i128'".to_owned(),
            BorshType::String => "'string'".to_owned(),
            BorshType::FixedBytes(n) => {
                let mut s = "[".to_owned();
                let digits = decimal_string(*n);
                s.append(digits.as_str());
                s.append("]");
                s
            },
            BorshType::Option(inner) => {
                let mut s = "{ kind: 'option', type: ".to_owned();
                let inner_text = inner.to_borsh_schema();
                s.append(inner_text.as_str());
                s.append(" }");
                s
            },
            BorshType::Vec(inner) => {
                let mut s = "[".to_owned();
                let inner_text = inner.to_borsh_schema();
                s.append(inner_text.as_str());
                s.append("]");
                s
            },
            BorshType::FixedArray(inner, n) => {
                let mut s = "[".to_owned();
                let inner_text = inner.to_borsh_schema();
                s.append(inner_text.as_str());
                s.append(", ");
                let digits = decimal_string(*n);
                s.append(digits.as_str());
                s.append("]");
                s
            },
            BorshType::Custom(name) => name.clone(),
            BorshType::Skip => String::new(),
        }
    }

    /// Whether this type is the `Skip` marker.
    pub fn is_skip(&self) -> (r: bool)
        ensures
            r == (self@ is Skip),
    {
        matches!(self, BorshType::Skip)
    }
}

} // verus!
