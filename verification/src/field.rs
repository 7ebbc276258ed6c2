//! The field model: binds a declared name (or position), a resolved canonical
//! type, and the per-field directive overrides into one field descriptor.

use vstd::prelude::*;

use crate::resolve::{resolve, resolve_spec, TypeError};
use crate::text::{chars_to_string, dec_digits, lower_camel, str_to_chars, to_lower_camel};
use crate::ty::{class_annotation, schema_annotation, BorshType, TyModel};

verus! {

/// One raw field declaration as extracted from the source: its name (absent
/// for positional fields), the literal declared type expression, and the
/// directive overrides attached to it.
#[derive(Debug)]
pub struct RawField {
    pub name: Option<String>,
    pub ty: String,
    pub alias: Option<String>,
    pub skip: bool,
}

/// Mathematical model of a raw field declaration.
pub struct RawFieldModel {
    pub name: Option<Seq<char>>,
    pub ty: Seq<char>,
    pub alias: Option<Seq<char>>,
    pub skip: bool,
}

impl View for RawField {
    type V = RawFieldModel;

    open spec fn view(&self) -> RawFieldModel {
        RawFieldModel {
            name: match self.name {
                Some(n) => Some(n@),
                None => None,
            },
            ty: self.ty@,
            alias: match self.alias {
                Some(a) => Some(a@),
                None => None,
            },
            skip: self.skip,
        }
    }
}

/// The canonical type of a raw field, after directive precedence: `skip`
/// overrides everything and yields `Skip`; otherwise an `alias` expression
/// replaces the literal declared type entirely; otherwise the declared type
/// is resolved. `None` is a resolution failure.
pub open spec fn field_ty_spec(f: RawFieldModel) -> Option<TyModel> {
    if f.skip {
        Some(TyModel::Skip)
    } else if f.alias is Some {
        resolve_spec(f.alias->0)
    } else {
        resolve_spec(f.ty)
    }
}

/// The expression whose resolution decides the field's type (the alias when
/// one is given, the declared type otherwise).
pub open spec fn field_expr_spec(f: RawFieldModel) -> Seq<char> {
    if f.alias is Some {
        f.alias->0
    } else {
        f.ty
    }
}

/// The rendered name of a raw field: the declared identifier in lower camel
/// case, or `unnamed_<n>` for the positional field at declared position `n`.
pub open spec fn field_name_spec(f: RawFieldModel, n: nat) -> Seq<char> {
    match f.name {
        Some(id) => lower_camel(id),
        None => "unnamed_"@ + dec_digits(n),
    }
}

/// Model of a field descriptor: a rendered name and a canonical type.
pub struct LayoutFieldModel {
    pub name: Seq<char>,
    pub ty: TyModel,
}

/// A field descriptor: one field of a TypeScript class and of a borsh schema
/// entry.
#[derive(Debug)]
pub struct LayoutField {
    name: String,
    ty: BorshType,
}

impl View for LayoutField {
    type V = LayoutFieldModel;

    closed spec fn view(&self) -> LayoutFieldModel {
        LayoutFieldModel { name: self.name@, ty: self.ty@ }
    }
}

/// A type-resolution failure at one field: the rendered field name and the
/// raw expression that could not be resolved.
#[derive(Debug)]
pub struct FieldError {
    pub field: String,
    pub expr: String,
}

/// The TypeScript class line of a field descriptor: `name: annotation`.
pub open spec fn class_field_spec(f: LayoutFieldModel) -> Seq<char> {
    f.name + ": "@ + class_annotation(f.ty)
}

/// The borsh schema pair of a field descriptor: `['name', annotation]`, with
/// the name quoted and the type annotation rendered bare.
pub open spec fn borsh_field_spec(f: LayoutFieldModel) -> Seq<char> {
    "['"@ + f.name + "', "@ + schema_annotation(f.ty) + "]"@
}

/// Law: an `alias` directive overrides the literal declared type entirely —
/// a non-skipped field's resolved type is exactly the resolution of its alias
/// expression, whatever its declared type says.
pub proof fn lemma_alias_overrides(f: RawFieldModel)
    requires
        f.alias is Some,
        !f.skip,
    ensures
        field_ty_spec(f) == resolve_spec(f.alias->0),
{
}

/// Law: a `skip` directive forces the field's type to `Skip`, regardless of
/// the declared type and of any alias.
pub proof fn lemma_skip_overrides(f: RawFieldModel)
    requires
        f.skip,
    ensures
        field_ty_spec(f) == Some(TyModel::Skip),
{
}

impl LayoutField {
    /// Converts one raw field declaration, at declared position `n`, into a
    /// field descriptor by rendering its name and resolving its type.
    pub fn from_raw(field: &RawField, n: usize) -> (r: Result<LayoutField, FieldError>)
        ensures
            match r {
                Ok(f) => field_ty_spec(field@) == Some(f@.ty) && f@.name == field_name_spec(
                    field@,
                    n as nat,
                ),
                Err(e) => field_ty_spec(field@) is None && e.expr@ == field_expr_spec(field@)
                    && e.field@ == field_name_spec(field@, n as nat),
            },
    {
        let name: String = match &field.name {
            Some(id) => {
                let chars = str_to_chars(id.as_str());
                let cam = to_lower_camel(&chars);
                chars_to_string(&cam)
            },
            None => {
                let mut s = "unnamed_".to_owned();
                let digits = crate::ty::decimal_string(n);
                s.append(digits.as_str());
                s
            },
        };
        if field.skip {
            return Ok(LayoutField { name, ty: BorshType::Skip });
        }
        let expr: &String = match &field.alias {
            Some(a) => a,
            None => &field.ty,
        };
        match resolve(expr.as_str()) {
            Ok(ty) => Ok(LayoutField { name, ty }),
            Err(e) => Err(FieldError { field: name, expr: e.expr }),
        }
    }

    /// Converts an enum variant name into the field-like entry that
    /// represents the variant inside its enum's layout: the name in lower
    /// camel case, the type resolved from the variant name itself (normally a
    /// bare reference to the variant's own nested layout).
    pub fn from_enum_variant(name_str: &str) -> (r: Result<LayoutField, TypeError>)
        ensures
            match r {
                Ok(f) => resolve_spec(name_str@) == Some(f@.ty) && f@.name == lower_camel(
                    name_str@,
                ),
                Err(e) => resolve_spec(name_str@) is None && e.expr@ == name_str@,
            },
    {
        match resolve(name_str) {
            Ok(ty) => {
                let chars = str_to_chars(name_str);
                let cam = to_lower_camel(&chars);
                Ok(LayoutField { name: chars_to_string(&cam), ty })
            },
            Err(e) => Err(e),
        }
    }

    /// Renders the field as a TypeScript class field.
    pub fn to_class_field(&self) -> (r: String)
        ensures
            r@ == class_field_spec(self@),
    {
        let mut s = self.name.clone();
        s.append(": ");
        let ann = self.ty.to_class_type();
        s.append(ann.as_str());
        s
    }

    /// Renders the field as a borsh schema pair.
    pub fn to_borsh_schema(&self) -> (r: String)
        ensures
            r@ == borsh_field_spec(self@),
    {
        let mut s = "['".to_owned();
        s.append(self.name.as_str());
        s.append("', ");
        let ann = self.ty.to_borsh_schema();
        s.append(ann.as_str());
        s.append("]");
        s
    }

    /// Whether this field is excluded from both output artifacts.
    pub fn should_skip(&self) -> (r: bool)
        ensures
            r == (self@.ty is Skip),
    {
        self.ty.is_skip()
    }
}

} // verus!
