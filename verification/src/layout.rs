//! The layout model: an ordered collection of field descriptors under a name
//! and a struct/enum discriminator, and its rendering into one TypeScript
//! class and one borsh schema entry. Field order is the serialization order
//! and is preserved exactly as declared.

use vstd::prelude::*;

use crate::field::{
    borsh_field_spec,
    class_field_spec,
    field_expr_spec,
    field_name_spec,
    field_ty_spec,
    FieldError,
    LayoutField,
    LayoutFieldModel,
    RawField,
    RawFieldModel,
};
use crate::text::lower_camel;
use crate::ty::TyModel;

verus! {

/// Indicates whether the layout was generated for a `struct` or an `enum`
/// declaration.
#[derive(Debug, Clone, Copy, PartialEq, Eq, Structural)]
pub enum Kind {
    Enum,
    Struct,
}

/// The label under which a layout's kind is rendered in the class artifact.
pub open spec fn kind_label(k: Kind) -> Seq<char> {
    match k {
        Kind::Struct => "Struct"@,
        Kind::Enum => "Enum"@,
    }
}

/// Model of a layout: its name, kind, and ordered field descriptors.
pub struct LayoutModel {
    pub name: Seq<char>,
    pub kind: Kind,
    pub fields: Seq<LayoutFieldModel>,
}

/// The layout of one data-structure declaration, ready to be rendered into a
/// TypeScript class and the respective borsh schema entry.
#[derive(Debug)]
pub struct Layout {
    pub name: String,
    pub kind: Kind,
    pub fields: Vec<LayoutField>,
}

/// The field-descriptor models of a vector of field descriptors.
pub open spec fn fields_view(v: Seq<LayoutField>) -> Seq<LayoutFieldModel> {
    v.map_values(|f: LayoutField| f@)
}

impl View for Layout {
    type V = LayoutModel;

    open spec fn view(&self) -> LayoutModel {
        LayoutModel { name: self.name@, kind: self.kind, fields: fields_view(self.fields@) }
    }
}

/// The raw-field models of a vector of raw fields.
pub open spec fn raw_fields_view(v: Seq<RawField>) -> Seq<RawFieldModel> {
    v.map_values(|f: RawField| f@)
}

/// The field descriptors of a sequence of raw fields whose first one sits at
/// declared position `start`; `None` as soon as one field fails to resolve.
pub open spec fn build_fields_spec(fields: Seq<RawFieldModel>, start: nat) -> Option<
    Seq<LayoutFieldModel>,
>
    decreases fields.len(),
{
    if fields.len() == 0 {
        Some(Seq::empty())
    } else {
        match field_ty_spec(fields[0]) {
            Some(t) => match build_fields_spec(fields.skip(1), start + 1) {
                Some(rest) => Some(
                    seq![LayoutFieldModel { name: field_name_spec(fields[0], start), ty: t }]
                        + rest,
                ),
                None => None,
            },
            None => None,
        }
    }
}

/// The index of the first raw field that fails to resolve, or `-1` when every
/// field resolves.
pub open spec fn first_fail_spec(fields: Seq<RawFieldModel>) -> int
    decreases fields.len(),
{
    if fields.len() == 0 {
        -1
    } else if field_ty_spec(fields[0]) is None {
        0
    } else {
        let r = first_fail_spec(fields.skip(1));
        if r == -1 {
            -1
        } else {
            1 + r
        }
    }
}

/// Field building succeeds exactly when no field fails.
pub proof fn lemma_build_fields_fail(fields: Seq<RawFieldModel>, start: nat)
    ensures
        (build_fields_spec(fields, start) is None) <==> first_fail_spec(fields) >= 0,
    decreases fields.len(),
{
    if fields.len() > 0 && field_ty_spec(fields[0]) is Some {
        lemma_build_fields_fail(fields.skip(1), start + 1);
    }
}

/// The concatenated class field lines of the non-skipped fields, each on its
/// own indented line and terminated by a semicolon.
pub open spec fn class_lines_spec(fields: Seq<LayoutFieldModel>) -> Seq<char>
    decreases fields.len(),
{
    if fields.len() == 0 {
        Seq::empty()
    } else {
        let head = if fields[0].ty is Skip {
            Seq::<char>::empty()
        } else {
            "\n    "@ + class_field_spec(fields[0]) + ";"@
        };
        head + class_lines_spec(fields.skip(1))
    }
}

/// The concatenated borsh schema pairs of the non-skipped fields, each on its
/// own tab-indented line and terminated by a comma.
pub open spec fn schema_lines_spec(fields: Seq<LayoutFieldModel>) -> Seq<char>
    decreases fields.len(),
{
    if fields.len() == 0 {
        Seq::empty()
    } else {
        let head = if fields[0].ty is Skip {
            Seq::<char>::empty()
        } else {
            "\n\t\t\t"@ + borsh_field_spec(fields[0]) + ","@
        };
        head + schema_lines_spec(fields.skip(1))
    }
}

/// The TypeScript class rendering of a layout.
pub open spec fn ts_class_spec(l: LayoutModel) -> Seq<char> {
    "export class "@ + l.name + " extends "@ + kind_label(l.kind) + " {"@ + class_lines_spec(
        l.fields,
    ) + "\n};\n\n"@
}

/// The heading of a borsh schema entry, by layout kind.
pub open spec fn schema_heading(k: Kind) -> Seq<char> {
    match k {
        Kind::Struct => "kind: 'struct', fields:"@,
        Kind::Enum => "kind: 'enum', field: 'enum', values:"@,
    }
}

/// The borsh schema entry rendering of a layout: its name as a bare
/// identifier key, then its kind heading and its field pairs.
pub open spec fn schema_entry_spec(l: LayoutModel) -> Seq<char> {
    "\n    [\n            "@ + l.name + ",\n            {\n                "@ + schema_heading(
        l.kind,
    ) + " ["@ + schema_lines_spec(l.fields) + "\n                ],\n            },\n    ],"@
}

impl Layout {
    /// Generates a struct layout from the raw fields of one declaration, in
    /// declaration order, failing on the first field whose type does not
    /// resolve.
    pub fn from_raw(name: &str, fields: &Vec<RawField>) -> (r: Result<Layout, FieldError>)
        ensures
            match r {
                Ok(l) => build_fields_spec(raw_fields_view(fields@), 0) == Some(l@.fields)
                    && l@.name == name@ && l@.kind == Kind::Struct,
                Err(e) => {
                    let k = first_fail_spec(raw_fields_view(fields@));
                    &&& build_fields_spec(raw_fields_view(fields@), 0) is None
                    &&& 0 <= k < fields@.len()
                    &&& e.field@ == field_name_spec(raw_fields_view(fields@)[k], k as nat)
                    &&& e.expr@ == field_expr_spec(raw_fields_view(fields@)[k])
                },
            },
    {
        let ghost raw = raw_fields_view(fields@);
        let mut out: Vec<LayoutField> = Vec::new();
        let mut i: usize = 0;
        proof {
            assert(raw.skip(0) =~= raw);
        }
        while i < fields.len()
            invariant
                i <= fields@.len(),
                raw == raw_fields_view(fields@),
                fields_view(out@).len() == i,
                forall|j: int| 0 <= j < i ==> field_ty_spec(raw[j]) is Some,
                build_fields_spec(raw, 0) == match build_fields_spec(raw.skip(i as int), i as nat) {
                    Some(rest) => Some(fields_view(out@) + rest),
                    None => None::<Seq<LayoutFieldModel>>,
                },
            decreases fields@.len() - i,
        {
            let ghost tail = raw.skip(i as int);
            proof {
                assert(tail[0] == raw[i as int]);
                assert(raw[i as int] == fields@[i as int]@);
                assert(tail.skip(1) =~= raw.skip(i as int + 1));
            }
            let ghost prev = fields_view(out@);
            match LayoutField::from_raw(&fields[i], i) {
                Ok(f) => {
                    let ghost fm = f@;
                    out.push(f);
                    proof {
                        assert(fields_view(out@) =~= prev.push(fm));
                        if build_fields_spec(raw.skip(i as int + 1), i as nat + 1) is Some {
                            let rest = build_fields_spec(
                                raw.skip(i as int + 1),
                                i as nat + 1,
                            ).unwrap();
                            assert(prev + (seq![fm] + rest) =~= prev.push(fm) + rest);
                        }
                    }
                    i = i + 1;
                },
                Err(e) => {
                    proof {
                        lemma_first_fail_at(raw, i as int);
                    }
                    return Err(e);
                },
            }
        }
        proof {
            assert(raw.skip(i as int).len() == 0);
            assert(build_fields_spec(raw.skip(i as int), i as nat) == Some(
                Seq::<LayoutFieldModel>::empty(),
            ));
            assert(fields_view(out@) + Seq::<LayoutFieldModel>::empty() =~= fields_view(out@));
        }
        Ok(Layout { name: name.to_owned(), kind: Kind::Struct, fields: out })
    }

    /// Converts the layout into a TypeScript class declaration, keeping only
    /// the non-skipped fields, in declaration order.
    pub fn to_ts_class(&self) -> (r: String)
        ensures
            r@ == ts_class_spec(self@),
    {
        let mut s = "export class ".to_owned();
        s.append(self.name.as_str());
        s.append(" extends ");
        match self.kind {
            Kind::Struct => s.append("Struct"),
            Kind::Enum => s.append("Enum"),
        }
        s.append(" {");
        let lines = class_lines(&self.fields);
        s.append(lines.as_str());
        s.append("\n};\n\n");
        s
    }

    /// Converts the layout into its borsh schema entry, keeping only the
    /// non-skipped fields, in declaration order.
    pub fn to_borsh_schema(&self) -> (r: String)
        ensures
            r@ == schema_entry_spec(self@),
    {
        let mut s = "\n    [\n            ".to_owned();
        s.append(self.name.as_str());
        s.append(",\n            {\n                ");
        match self.kind {
            Kind::Struct => s.append("kind: 'struct', fields:"),
            Kind::Enum => s.append("kind: 'enum', field: 'enum', values:"),
        }
        s.append(" [");
        let lines = schema_lines(&self.fields);
        s.append(lines.as_str());
        s.append("\n                ],\n            },\n    ],");
        s
    }
}

/// The field descriptors left after removing every `Skip` field.
pub open spec fn drop_skips(fs: Seq<LayoutFieldModel>) -> Seq<LayoutFieldModel>
    decreases fs.len(),
{
    if fs.len() == 0 {
        Seq::empty()
    } else if fs[0].ty is Skip {
        drop_skips(fs.skip(1))
    } else {
        seq![fs[0]] + drop_skips(fs.skip(1))
    }
}

/// Law: skipped fields are absent from both rendered artifacts — a layout's
/// class lines and schema pairs are exactly those of the same field list with
/// every `Skip` field removed, and that list holds no `Skip` field.
pub proof fn lemma_skip_fields_absent(fs: Seq<LayoutFieldModel>)
    ensures
        class_lines_spec(fs) == class_lines_spec(drop_skips(fs)),
        schema_lines_spec(fs) == schema_lines_spec(drop_skips(fs)),
        forall|k: int| 0 <= k < drop_skips(fs).len() ==> !(#[trigger] drop_skips(fs)[k].ty
            is Skip),
    decreases fs.len(),
{
    if fs.len() == 0 {
    } else {
        lemma_skip_fields_absent(fs.skip(1));
        if fs[0].ty is Skip {
            assert(class_lines_spec(fs) =~= class_lines_spec(fs.skip(1)));
            assert(schema_lines_spec(fs) =~= schema_lines_spec(fs.skip(1)));
        } else {
            let d = seq![fs[0]] + drop_skips(fs.skip(1));
            assert(d[0] == fs[0]);
            assert(d.skip(1) =~= drop_skips(fs.skip(1)));
            assert(class_lines_spec(d) == ("\n    "@ + class_field_spec(fs[0]) + ";"@)
                + class_lines_spec(drop_skips(fs.skip(1))));
            assert(schema_lines_spec(d) == ("\n\t\t\t"@ + borsh_field_spec(fs[0]) + ","@)
                + schema_lines_spec(drop_skips(fs.skip(1))));
        }
    }
}

/// The first field of `fields` failing to resolve, after `k` resolving ones,
/// pins the first-failure index at `k`.
proof fn lemma_first_fail_at(fields: Seq<RawFieldModel>, k: int)
    requires
        0 <= k < fields.len(),
        forall|j: int| 0 <= j < k ==> field_ty_spec(fields[j]) is Some,
        field_ty_spec(fields[k]) is None,
    ensures
        first_fail_spec(fields) == k,
        build_fields_spec(fields, 0) is None,
    decreases k,
{
    if k == 0 {
    } else {
        assert(forall|j: int| 0 <= j < k - 1 ==> fields.skip(1)[j] == fields[j + 1]);
        assert(fields.skip(1)[k - 1] == fields[k]);
        lemma_first_fail_at(fields.skip(1), k - 1);
    }
    lemma_build_fields_fail(fields, 0);
}

/// Renders the class field lines of the non-skipped fields.
fn class_lines(fields: &Vec<LayoutField>) -> (r: String)
    ensures
        r@ == class_lines_spec(fields_view(fields@)),
{
    let ghost fm = fields_view(fields@);
    let mut s = String::new();
    let mut i: usize = 0;
    proof {
        assert(fm.skip(0) =~= fm);
    }
    while i < fields.len()
        invariant
            i <= fields@.len(),
            fm == fields_view(fields@),
            class_lines_spec(fm) == s@ + class_lines_spec(fm.skip(i as int)),
        decreases fields@.len() - i,
    {
        let ghost tail = fm.skip(i as int);
        proof {
            assert(tail[0] == fm[i as int]);
            assert(fm[i as int] == fields@[i as int]@);
            assert(tail.skip(1) =~= fm.skip(i as int + 1));
        }
        let f = &fields[i];
        if !f.should_skip() {
            s.append("\n    ");
            let line = f.to_class_field();
            s.append(line.as_str());
            s.append(";");
        }
        proof {
            assert(class_lines_spec(fm) =~= s@ + class_lines_spec(fm.skip(i as int + 1)));
        }
        i = i + 1;
    }
    proof {
        assert(class_lines_spec(fm.skip(i as int)) =~= Seq::<char>::empty());
        assert(s@ + Seq::<char>::empty() =~= s@);
    }
    s
}

/// Renders the borsh schema pairs of the non-skipped fields.
fn schema_lines(fields: &Vec<LayoutField>) -> (r: String)
    ensures
        r@ == schema_lines_spec(fields_view(fields@)),
{
    let ghost fm = fields_view(fields@);
    let mut s = String::new();
    let mut i: usize = 0;
    proof {
        assert(fm.skip(0) =~= fm);
    }
    while i < fields.len()
        invariant
            i <= fields@.len(),
            fm == fields_view(fields@),
            schema_lines_spec(fm) == s@ + schema_lines_spec(fm.skip(i as int)),
        decreases fields@.len() - i,
    {
        let ghost tail = fm.skip(i as int);
        proof {
            assert(tail[0] == fm[i as int]);
            assert(fm[i as int] == fields@[i as int]@);
            assert(tail.skip(1) =~= fm.skip(i as int + 1));
        }
        let f = &fields[i];
        if !f.should_skip() {
            s.append("\n\t\t\t");
            let line = f.to_borsh_schema();
            s.append(line.as_str());
            s.append(",");
        }
        proof {
            assert(schema_lines_spec(fm) =~= s@ + schema_lines_spec(fm.skip(i as int + 1)));
        }
        i = i + 1;
    }
    proof {
        assert(schema_lines_spec(fm.skip(i as int)) =~= Seq::<char>::empty());
        assert(s@ + Seq::<char>::empty() =~= s@);
    }
    s
}

} // verus!
