//! The walker and emitter: turns an ordered list of source files into the
//! ordered list of layouts of their marked declarations, checks the layout
//! names for collisions, and renders the two output artifacts. A run either
//! yields both artifacts or fails before producing either; the first error
//! aborts the whole run.

use vstd::prelude::*;

use crate::field::{LayoutField, LayoutFieldModel, RawFieldModel};
use crate::layout::{
    build_fields_spec,
    fields_view,
    schema_entry_spec,
    ts_class_spec,
    Kind,
    Layout,
    LayoutModel,
};
use crate::resolve::resolve_spec;
use crate::scan::{scan_file, scan_file_spec, RawDecl, RawDeclModel, RawVariantModel};
use crate::text::lower_camel;

verus! {

/// One source file handed to the walker: its path (used only in error
/// reports) and its full text.
#[derive(Debug)]
pub struct SourceFile {
    pub path: String,
    pub content: String,
}

/// Model of a source file.
#[verifier::ext_equal]
pub struct SourceFileModel {
    pub path: Seq<char>,
    pub content: Seq<char>,
}

impl View for SourceFile {
    type V = SourceFileModel;

    open spec fn view(&self) -> SourceFileModel {
        SourceFileModel { path: self.path@, content: self.content@ }
    }
}

pub open spec fn files_view(v: Seq<SourceFile>) -> Seq<SourceFileModel> {
    v.map_values(|f: SourceFile| f@)
}

/// A fatal error of a run. Every failure aborts the run before any output is
/// produced.
#[derive(Debug)]
pub enum SchemaError {
    /// A file's marked declaration could not be parsed.
    Syntax { path: String },
    /// A field's type expression could not be resolved.
    Resolution { path: String, declaration: String, field: String, expr: String },
    /// Two layouts share one emitted name.
    Collision { name: String, first_path: String, second_path: String },
}

/// Model of a fatal error.
#[verifier::ext_equal]
pub enum SchemaErrorModel {
    Syntax { path: Seq<char> },
    Resolution { path: Seq<char>, declaration: Seq<char>, field: Seq<char>, expr: Seq<char> },
    Collision { name: Seq<char>, first_path: Seq<char>, second_path: Seq<char> },
}

impl View for SchemaError {
    type V = SchemaErrorModel;

    open spec fn view(&self) -> SchemaErrorModel {
        match self {
            SchemaError::Syntax { path } => SchemaErrorModel::Syntax { path: path@ },
            SchemaError::Resolution { path, declaration, field, expr } => {
                SchemaErrorModel::Resolution {
                    path: path@,
                    declaration: declaration@,
                    field: field@,
                    expr: expr@,
                }
            },
            SchemaError::Collision { name, first_path, second_path } => {
                SchemaErrorModel::Collision {
                    name: name@,
                    first_path: first_path@,
                    second_path: second_path@,
                }
            },
        }
    }
}

/// The field-like entries of an enum layout: one per variant, in declaration
/// order, each named after the variant in lower camel case and typed by
/// resolving the variant name itself (normally a bare reference to the
/// variant's own nested layout).
pub open spec fn variant_entries_spec(vs: Seq<RawVariantModel>) -> Option<Seq<LayoutFieldModel>>
    decreases vs.len(),
{
    if vs.len() == 0 {
        Some(Seq::empty())
    } else {
        match resolve_spec(vs[0].name) {
            Some(t) => match variant_entries_spec(vs.skip(1)) {
                Some(rest) => Some(
                    seq![LayoutFieldModel { name: lower_camel(vs[0].name), ty: t }] + rest,
                ),
                None => None,
            },
            None => None,
        }
    }
}

/// The nested struct layouts of an enum's variants, one per variant in
/// declaration order (an empty struct shape for a payload-less variant).
pub open spec fn variant_layouts_spec(vs: Seq<RawVariantModel>) -> Option<Seq<LayoutModel>>
    decreases vs.len(),
{
    if vs.len() == 0 {
        Some(Seq::empty())
    } else {
        match build_fields_spec(vs[0].fields, 0) {
            Some(fs) => match variant_layouts_spec(vs.skip(1)) {
                Some(rest) => Some(
                    seq![LayoutModel { name: vs[0].name, kind: Kind::Struct, fields: fs }] + rest,
                ),
                None => None,
            },
            None => None,
        }
    }
}

/// The layouts generated by one declaration: a single struct layout, or, for
/// an enum, the nested layout of each variant followed by the enum layout
/// itself (whose one-byte discriminant is the variant's ordinal position).
pub open spec fn decl_layouts_spec(d: RawDeclModel) -> Option<Seq<LayoutModel>> {
    if d.is_enum {
        match variant_layouts_spec(d.variants) {
            Some(vl) => match variant_entries_spec(d.variants) {
                Some(entries) => Some(
                    vl + seq![LayoutModel { name: d.name, kind: Kind::Enum, fields: entries }],
                ),
                None => None,
            },
            None => None,
        }
    } else {
        match build_fields_spec(d.fields, 0) {
            Some(fs) => Some(seq![LayoutModel { name: d.name, kind: Kind::Struct, fields: fs }]),
            None => None,
        }
    }
}

/// The layouts of a file's declarations, concatenated in declaration order.
pub open spec fn decls_layouts_spec(ds: Seq<RawDeclModel>) -> Option<Seq<LayoutModel>>
    decreases ds.len(),
{
    if ds.len() == 0 {
        Some(Seq::empty())
    } else {
        match decl_layouts_spec(ds[0]) {
            Some(h) => match decls_layouts_spec(ds.skip(1)) {
                Some(rest) => Some(h + rest),
                None => None,
            },
            None => None,
        }
    }
}

/// The layouts of one source file, or `None` when the file's marked
/// declarations cannot be scanned or a field fails to resolve.
pub open spec fn file_layouts_spec(f: SourceFileModel) -> Option<Seq<LayoutModel>> {
    match scan_file_spec(f.content) {
        Some(ds) => decls_layouts_spec(ds),
        None => None,
    }
}

/// Pairs every layout of a file with the file's path.
pub open spec fn with_path(p: Seq<char>, ls: Seq<LayoutModel>) -> Seq<(Seq<char>, LayoutModel)> {
    ls.map_values(|l: LayoutModel| (p, l))
}

/// The layouts of a whole source tree, in file order then declaration order,
/// each paired with the path of the file it came from.
pub open spec fn pipeline_layouts_spec(files: Seq<SourceFileModel>) -> Option<
    Seq<(Seq<char>, LayoutModel)>,
>
    decreases files.len(),
{
    if files.len() == 0 {
        Some(Seq::empty())
    } else {
        match file_layouts_spec(files[0]) {
            Some(ls) => match pipeline_layouts_spec(files.skip(1)) {
                Some(rest) => Some(with_path(files[0].path, ls) + rest),
                None => None,
            },
            None => None,
        }
    }
}

/// The layouts of a path-layout pairing, with the paths dropped.
pub open spec fn pair_layouts(pairs: Seq<(Seq<char>, LayoutModel)>) -> Seq<LayoutModel> {
    pairs.map_values(|p: (Seq<char>, LayoutModel)| p.1)
}

/// Whether two layouts at positions `j < k` share one name.
pub open spec fn dup_at(pairs: Seq<(Seq<char>, LayoutModel)>, j: int, k: int) -> bool {
    0 <= j < k < pairs.len() && pairs[j].1.name == pairs[k].1.name
}

/// Whether any two layouts share one name.
pub open spec fn has_dup(pairs: Seq<(Seq<char>, LayoutModel)>) -> bool {
    exists|j: int, k: int| #[trigger] dup_at(pairs, j, k)
}

/// A file whose marked declarations cannot be scanned.
pub open spec fn syntax_fail_at(files: Seq<SourceFileModel>, k: int, path: Seq<char>) -> bool {
    0 <= k < files.len() && files[k].path == path && scan_file_spec(files[k].content) is None
}

/// Two layouts share the reported name, at the reported source locations.
pub open spec fn collision_reported(
    pairs: Seq<(Seq<char>, LayoutModel)>,
    name: Seq<char>,
    first_path: Seq<char>,
    second_path: Seq<char>,
) -> bool {
    exists|j: int, k: int|
        #[trigger] dup_at(pairs, j, k) && pairs[j].1.name == name && pairs[j].0 == first_path
            && pairs[k].0 == second_path
}

/// A file that scans but holds a field whose type fails to resolve.
pub open spec fn resolution_fail_at(files: Seq<SourceFileModel>, k: int, path: Seq<char>) -> bool {
    0 <= k < files.len() && files[k].path == path && scan_file_spec(files[k].content) is Some
        && file_layouts_spec(files[k]) is None
}

/// The emitted TypeScript class module: the classes of all layouts, in order.
pub open spec fn render_classes_spec(ls: Seq<LayoutModel>) -> Seq<char>
    decreases ls.len(),
{
    if ls.len() == 0 {
        Seq::empty()
    } else {
        ts_class_spec(ls[0]) + render_classes_spec(ls.skip(1))
    }
}

/// The emitted borsh schema module: the schema entries of all layouts, in the
/// same order as the class module.
pub open spec fn render_schema_spec(ls: Seq<LayoutModel>) -> Seq<char>
    decreases ls.len(),
{
    if ls.len() == 0 {
        Seq::empty()
    } else {
        schema_entry_spec(ls[0]) + render_schema_spec(ls.skip(1))
    }
}

pub open spec fn layouts_view(v: Seq<Layout>) -> Seq<LayoutModel> {
    v.map_values(|l: Layout| l@)
}

/// Renders the TypeScript class module of an ordered layout list.
pub fn render_ts_classes(layouts: &Vec<Layout>) -> (r: String)
    ensures
        r@ == render_classes_spec(layouts_view(layouts@)),
{
    let ghost lv = layouts_view(layouts@);
    let mut s = String::new();
    let mut i: usize = 0;
    proof {
        assert(lv.skip(0) =~= lv);
    }
    while i < layouts.len()
        invariant
            i <= layouts@.len(),
            lv == layouts_view(layouts@),
            render_classes_spec(lv) == s@ + render_classes_spec(lv.skip(i as int)),
        decreases layouts@.len() - i,
    {
        proof {
            assert(lv.skip(i as int)[0] == lv[i as int]);
            assert(lv[i as int] == layouts@[i as int]@);
            assert(lv.skip(i as int).skip(1) =~= lv.skip(i as int + 1));
        }
        let piece = layouts[i].to_ts_class();
        s.append(piece.as_str());
        i = i + 1;
    }
    proof {
        assert(render_classes_spec(lv.skip(i as int)) =~= Seq::<char>::empty());
        assert(s@ + Seq::<char>::empty() =~= s@);
    }
    s
}

/// Renders the borsh schema module of an ordered layout list.
pub fn render_borsh_schemas(layouts: &Vec<Layout>) -> (r: String)
    ensures
        r@ == render_schema_spec(layouts_view(layouts@)),
{
    let ghost lv = layouts_view(layouts@);
    let mut s = String::new();
    let mut i: usize = 0;
    proof {
        assert(lv.skip(0) =~= lv);
    }
    while i < layouts.len()
        invariant
            i <= layouts@.len(),
            lv == layouts_view(layouts@),
            render_schema_spec(lv) == s@ + render_schema_spec(lv.skip(i as int)),
        decreases layouts@.len() - i,
    {
        proof {
            assert(lv.skip(i as int)[0] == lv[i as int]);
            assert(lv[i as int] == layouts@[i as int]@);
            assert(lv.skip(i as int).skip(1) =~= lv.skip(i as int + 1));
        }
        let piece = layouts[i].to_borsh_schema();
        s.append(piece.as_str());
        i = i + 1;
    }
    proof {
        assert(render_schema_spec(lv.skip(i as int)) =~= Seq::<char>::empty());
        assert(s@ + Seq::<char>::empty() =~= s@);
    }
    s
}

/// Converts one declaration into its layouts.
#[verifier::rlimit(100)]
fn decl_to_layouts(path: &str, d: &RawDecl) -> (r: Result<Vec<Layout>, SchemaError>)
    ensures
        match r {
            Ok(v) => decl_layouts_spec(d@) == Some(layouts_view(v@)),
            Err(e) => decl_layouts_spec(d@) is None && (match e@ {
                SchemaErrorModel::Resolution { path: p, .. } => p == path@,
                _ => false,
            }),
        },
{
    if !d.is_enum {
        match Layout::from_raw(d.name.as_str(), &d.fields) {
            Ok(l) => {
                let ghost lm = l@;
                let mut v: Vec<Layout> = Vec::new();
                v.push(l);
                proof {
                    assert(layouts_view(v@) =~= seq![lm]);
                    assert(lm =~= LayoutModel {
                        name: d@.name,
                        kind: Kind::Struct,
                        fields: lm.fields,
                    });
                }
                Ok(v)
            },
            Err(e) => Err(
                SchemaError::Resolution {
                    path: path.to_owned(),
                    declaration: d.name.clone(),
                    field: e.field,
                    expr: e.expr,
                },
            ),
        }
    } else {
        let ghost vs = crate::scan::variants_view(d.variants@);
        let mut vlayouts: Vec<Layout> = Vec::new();
        let mut entries: Vec<LayoutField> = Vec::new();
        let mut vi: usize = 0;
        proof {
            assert(vs.skip(0) =~= vs);
        }
        while vi < d.variants.len()
            invariant
                vi <= d.variants@.len(),
                d.is_enum,
                vs == crate::scan::variants_view(d.variants@),
                variant_layouts_spec(vs) == (match variant_layouts_spec(vs.skip(vi as int)) {
                    Some(rest) => Some(layouts_view(vlayouts@) + rest),
                    None => None::<Seq<LayoutModel>>,
                }),
                variant_entries_spec(vs) == (match variant_entries_spec(vs.skip(vi as int)) {
                    Some(rest) => Some(fields_view(entries@) + rest),
                    None => None::<Seq<LayoutFieldModel>>,
                }),
            decreases d.variants@.len() - vi,
        {
            let ghost prev_l = layouts_view(vlayouts@);
            let ghost prev_e = fields_view(entries@);
            proof {
                assert(vs.skip(vi as int)[0] == vs[vi as int]);
                assert(vs[vi as int] == d.variants@[vi as int]@);
                assert(vs.skip(vi as int).skip(1) =~= vs.skip(vi as int + 1));
            }
            let variant = &d.variants[vi];
            match Layout::from_raw(variant.name.as_str(), &variant.fields) {
                Ok(l) => {
                    let ghost lm = l@;
                    vlayouts.push(l);
                    proof {
                        assert(layouts_view(vlayouts@) =~= prev_l.push(lm));
                        assert(lm =~= LayoutModel {
                            name: vs[vi as int].name,
                            kind: Kind::Struct,
                            fields: lm.fields,
                        });
                        if variant_layouts_spec(vs.skip(vi as int + 1)) is Some {
                            let rest = variant_layouts_spec(vs.skip(vi as int + 1)).unwrap();
                            assert(prev_l + (seq![lm] + rest) =~= prev_l.push(lm) + rest);
                        }
                    }
                },
                Err(e) => {
                    proof {
                        assert(variant_layouts_spec(vs.skip(vi as int)) is None);
                        assert(variant_layouts_spec(vs) is None);
                        assert(d@.is_enum && d@.variants == vs);
                        assert(decl_layouts_spec(d@) is None);
                    }
                    return Err(
                        SchemaError::Resolution {
                            path: path.to_owned(),
                            declaration: variant.name.clone(),
                            field: e.field,
                            expr: e.expr,
                        },
                    );
                },
            }
            match LayoutField::from_enum_variant(variant.name.as_str()) {
                Ok(f) => {
                    let ghost fm = f@;
                    entries.push(f);
                    proof {
                        assert(fields_view(entries@) =~= prev_e.push(fm));
                        assert(fm =~= LayoutFieldModel {
                            name: lower_camel(vs[vi as int].name),
                            ty: fm.ty,
                        });
                        if variant_entries_spec(vs.skip(vi as int + 1)) is Some {
                            let rest = variant_entries_spec(vs.skip(vi as int + 1)).unwrap();
                            assert(prev_e + (seq![fm] + rest) =~= prev_e.push(fm) + rest);
                        }
                    }
                },
                Err(e) => {
                    proof {
                        assert(variant_entries_spec(vs.skip(vi as int)) is None);
                        assert(variant_entries_spec(vs) is None);
                        assert(d@.is_enum && d@.variants == vs);
                        assert(decl_layouts_spec(d@) is None);
                    }
                    return Err(
                        SchemaError::Resolution {
                            path: path.to_owned(),
                            declaration: d.name.clone(),
                            field: variant.name.clone(),
                            expr: e.expr,
                        },
                    );
                },
            }
            vi = vi + 1;
        }
        proof {
            assert(vs.skip(vi as int).len() == 0);
            assert(variant_layouts_spec(vs.skip(vi as int)) == Some(Seq::<LayoutModel>::empty()));
            assert(variant_entries_spec(vs.skip(vi as int)) == Some(
                Seq::<LayoutFieldModel>::empty(),
            ));
            assert(layouts_view(vlayouts@) + Seq::<LayoutModel>::empty() =~= layouts_view(
                vlayouts@,
            ));
            assert(fields_view(entries@) + Seq::<LayoutFieldModel>::empty() =~= fields_view(
                entries@,
            ));
        }
        let ghost prev_l = layouts_view(vlayouts@);
        let enum_layout = Layout { name: d.name.clone(), kind: Kind::Enum, fields: entries };
        let ghost em = enum_layout@;
        let mut out = vlayouts;
        out.push(enum_layout);
        proof {
            assert(layouts_view(out@) =~= prev_l.push(em));
            assert(em =~= LayoutModel { name: d@.name, kind: Kind::Enum, fields: em.fields });
            assert(prev_l + seq![em] =~= prev_l.push(em));
        }
        Ok(out)
    }
}

/// Converts all declarations of one file into layouts, in declaration order.
fn decls_to_layouts(path: &str, decls: &Vec<RawDecl>) -> (r: Result<Vec<Layout>, SchemaError>)
    ensures
        match r {
            Ok(v) => decls_layouts_spec(crate::scan::decls_view(decls@)) == Some(
                layouts_view(v@),
            ),
            Err(e) => decls_layouts_spec(crate::scan::decls_view(decls@)) is None && (match e@ {
                SchemaErrorModel::Resolution { path: p, .. } => p == path@,
                _ => false,
            }),
        },
{
    let ghost ds = crate::scan::decls_view(decls@);
    let mut out: Vec<Layout> = Vec::new();
    let mut i: usize = 0;
    proof {
        assert(ds.skip(0) =~= ds);
    }
    while i < decls.len()
        invariant
            i <= decls@.len(),
            ds == crate::scan::decls_view(decls@),
            decls_layouts_spec(ds) == (match decls_layouts_spec(ds.skip(i as int)) {
                Some(rest) => Some(layouts_view(out@) + rest),
                None => None::<Seq<LayoutModel>>,
            }),
        decreases decls@.len() - i,
    {
        let ghost prev = layouts_view(out@);
        proof {
            assert(ds.skip(i as int)[0] == ds[i as int]);
            assert(ds[i as int] == decls@[i as int]@);
            assert(ds.skip(i as int).skip(1) =~= ds.skip(i as int + 1));
        }
        match decl_to_layouts(path, &decls[i]) {
            Ok(ls) => {
                let ghost lsv = layouts_view(ls@);
                let mut ls = ls;
                out.append(&mut ls);
                proof {
                    assert(layouts_view(out@) =~= prev + lsv);
                    if decls_layouts_spec(ds.skip(i as int + 1)) is Some {
                        let rest = decls_layouts_spec(ds.skip(i as int + 1)).unwrap();
                        assert(prev + (lsv + rest) =~= (prev + lsv) + rest);
                    }
                }
                i = i + 1;
            },
            Err(e) => {
                return Err(e);
            },
        }
    }
    proof {
        assert(ds.skip(i as int).len() == 0);
        assert(decls_layouts_spec(ds.skip(i as int)) == Some(Seq::<LayoutModel>::empty()));
        assert(layouts_view(out@) + Seq::<LayoutModel>::empty() =~= layouts_view(out@));
    }
    Ok(out)
}

/// Derives the path-layout pairing of the walker's state from the collected
/// path/name pairs and layouts.
pub open spec fn state_pairs(names: Seq<(String, String)>, outs: Seq<Layout>) -> Seq<
    (Seq<char>, LayoutModel),
> {
    Seq::new(outs.len(), |k: int| (names[k].0@, outs[k]@))
}

/// Law: declaration order is preserved — a list of struct declarations yields
/// exactly one layout per declaration, in the same order and under the same
/// names.
pub proof fn lemma_declaration_order(ds: Seq<RawDeclModel>, ls: Seq<LayoutModel>)
    requires
        decls_layouts_spec(ds) == Some(ls),
        forall|k: int| 0 <= k < ds.len() ==> !(#[trigger] ds[k]).is_enum,
    ensures
        ls.len() == ds.len(),
        forall|k: int| 0 <= k < ds.len() ==> (#[trigger] ls[k]).name == ds[k].name,
    decreases ds.len(),
{
    if ds.len() > 0 {
        let h = decl_layouts_spec(ds[0]).unwrap();
        let rest = decls_layouts_spec(ds.skip(1)).unwrap();
        lemma_declaration_order(ds.skip(1), rest);
        assert(ls == h + rest);
        assert(h.len() == 1 && h[0].name == ds[0].name);
        assert(forall|k: int| 0 <= k < ds.len() ==> (#[trigger] ls[k]).name == ds[k].name) by {
            assert(forall|k: int| 1 <= k < ls.len() ==> #[trigger] ls[k] == rest[k - 1]);
            assert(forall|k: int| 1 <= k < ds.len() ==> #[trigger] ds[k] == ds.skip(1)[k - 1]);
        }
    }
}

/// Law: the whole run is a pure function of the input tree — equal file lists
/// give equal layout pairings, and equal layout lists render to equal class
/// and schema artifacts, so re-running over an unchanged tree reproduces both
/// outputs byte for byte.
pub proof fn lemma_run_deterministic(
    a: Seq<SourceFileModel>,
    b: Seq<SourceFileModel>,
    la: Seq<LayoutModel>,
    lb: Seq<LayoutModel>,
)
    requires
        a == b,
        la == lb,
    ensures
        pipeline_layouts_spec(a) == pipeline_layouts_spec(b),
        render_classes_spec(la) == render_classes_spec(lb),
        render_schema_spec(la) == render_schema_spec(lb),
{
}

/// Appends one file's layouts to the walker's state, pairing each with the
/// file's path.
fn append_file_layouts(
    names: &mut Vec<(String, String)>,
    out: &mut Vec<Layout>,
    path: &String,
    ls: Vec<Layout>,
) -> (nothing: ())
    requires
        old(out)@.len() == old(names)@.len(),
    ensures
        final(out)@.len() == final(names)@.len(),
        state_pairs(final(names)@, final(out)@) == state_pairs(old(names)@, old(out)@)
            + with_path(path@, layouts_view(ls@)),
{
    let ghost prev_pairs = state_pairs(names@, out@);
    let ghost lsv = layouts_view(ls@);
    let mut ls = ls;
    let total = ls.len();
    let mut consumed: usize = 0;
    proof {
        assert(layouts_view(ls@) =~= lsv.skip(0));
        assert(state_pairs(names@, out@) =~= prev_pairs + with_path(path@, lsv).take(0));
    }
    while consumed < total
        invariant
            out@.len() == names@.len(),
            consumed + ls@.len() == total,
            total == lsv.len(),
            layouts_view(ls@) =~= lsv.skip(consumed as int),
            state_pairs(names@, out@) =~= prev_pairs + with_path(path@, lsv).take(
                consumed as int,
            ),
        decreases total - consumed,
    {
        let ghost pre = state_pairs(names@, out@);
        let l = ls.remove(0);
        let ghost lm = l@;
        proof {
            assert(lsv.skip(consumed as int)[0] == lm);
            assert(lsv.skip(consumed as int).skip(1) =~= lsv.skip(consumed as int + 1));
        }
        let path_copy = path.clone();
        let name_copy = l.name.clone();
        names.push((path_copy, name_copy));
        out.push(l);
        proof {
            assert(layouts_view(ls@) =~= lsv.skip(consumed as int + 1));
            assert(state_pairs(names@, out@) =~= pre.push((path@, lm)));
            assert(with_path(path@, lsv).take(consumed as int + 1) =~= with_path(
                path@,
                lsv,
            ).take(consumed as int).push((path@, lm)));
            assert(state_pairs(names@, out@) =~= prev_pairs + with_path(path@, lsv).take(
                consumed as int + 1,
            ));
        }
        consumed = consumed + 1;
    }
    proof {
        assert(with_path(path@, lsv).take(consumed as int) =~= with_path(path@, lsv));
        assert(state_pairs(names@, out@) =~= prev_pairs + with_path(path@, lsv));
    }
}

/// Finds two layouts sharing one name, if any: the positions `j < k` of the
/// first such pair.
fn find_dup(names: &Vec<(String, String)>, out: &Vec<Layout>) -> (r: Option<(usize, usize)>)
    requires
        names@.len() == out@.len(),
    ensures
        match r {
            Some(p) => p.0 < p.1 < out@.len() && dup_at(
                state_pairs(names@, out@),
                p.0 as int,
                p.1 as int,
            ),
            None => !has_dup(state_pairs(names@, out@)),
        },
{
    let ghost pairs = state_pairs(names@, out@);
    let n = out.len();
    let mut k: usize = 1;
    while k < n
        invariant
            n == out@.len(),
            n == names@.len(),
            pairs == state_pairs(names@, out@),
            1 <= k,
            forall|j2: int, k2: int| 0 <= j2 < k2 < k ==> !dup_at(pairs, j2, k2),
        decreases n - k,
    {
        let mut j: usize = 0;
        while j < k
            invariant
                n == out@.len(),
                n == names@.len(),
                pairs == state_pairs(names@, out@),
                j <= k < n,
                forall|j2: int| 0 <= j2 < j ==> !dup_at(pairs, j2, k as int),
            decreases k - j,
        {
            if out[j].name == out[k].name {
                proof {
                    assert(dup_at(pairs, j as int, k as int));
                }
                return Some((j, k));
            }
            j = j + 1;
        }
        k = k + 1;
    }
    proof {
        assert(!has_dup(pairs)) by {
            if has_dup(pairs) {
                let (j2, k2) = choose|j2: int, k2: int| #[trigger] dup_at(pairs, j2, k2);
                assert(!dup_at(pairs, j2, k2));
            }
        }
    }
    None
}

/// Walks an ordered list of source files and produces the ordered list of
/// layouts of all their marked declarations.
///
/// Returns `Ok` exactly when every file scans, every field resolves, and no
/// two layouts share a name; the first failure aborts the run: a scan failure
/// reports the file, a resolution failure reports file, declaration, field
/// and expression, and a name collision reports both source locations.
#[verifier::rlimit(100)]
pub fn generate_layouts_from_sources(files: &Vec<SourceFile>) -> (r: Result<
    Vec<Layout>,
    SchemaError,
>)
    ensures
        match r {
            Ok(out) => match pipeline_layouts_spec(files_view(files@)) {
                Some(pairs) => layouts_view(out@) == pair_layouts(pairs) && !has_dup(pairs),
                None => false,
            },
            Err(e) => match e@ {
                SchemaErrorModel::Syntax { path } => pipeline_layouts_spec(files_view(files@))
                    is None && (exists|k: int| syntax_fail_at(files_view(files@), k, path)),
                SchemaErrorModel::Resolution { path, .. } => pipeline_layouts_spec(
                    files_view(files@),
                ) is None && (exists|k: int| resolution_fail_at(files_view(files@), k, path)),
                SchemaErrorModel::Collision { name, first_path, second_path } => match
                    pipeline_layouts_spec(files_view(files@)) {
                    Some(pairs) => collision_reported(pairs, name, first_path, second_path),
                    None => false,
                },
            },
        },
{
    let ghost fv = files_view(files@);
    let mut out: Vec<Layout> = Vec::new();
    let mut names: Vec<(String, String)> = Vec::new();
    let mut fi: usize = 0;
    proof {
        assert(fv.skip(0) =~= fv);
        assert(state_pairs(names@, out@) =~= Seq::<(Seq<char>, LayoutModel)>::empty());
    }
    while fi < files.len()
        invariant
            fi <= files@.len(),
            fv == files_view(files@),
            out@.len() == names@.len(),
            pipeline_layouts_spec(fv) == (match pipeline_layouts_spec(fv.skip(fi as int)) {
                Some(rest) => Some(state_pairs(names@, out@) + rest),
                None => None::<Seq<(Seq<char>, LayoutModel)>>,
            }),
        decreases files@.len() - fi,
    {
        let ghost prev_pairs = state_pairs(names@, out@);
        proof {
            assert(fv.skip(fi as int)[0] == fv[fi as int]);
            assert(fv[fi as int] == files@[fi as int]@);
            assert(fv.skip(fi as int).skip(1) =~= fv.skip(fi as int + 1));
        }
        let f = &files[fi];
        match scan_file(f.content.as_str()) {
            Some(decls) => {
                match decls_to_layouts(f.path.as_str(), &decls) {
                    Ok(ls) => {
                        let ghost lsv = layouts_view(ls@);
                        let ghost pathv = f.path@;
                        append_file_layouts(&mut names, &mut out, &f.path, ls);
                        proof {
                            if pipeline_layouts_spec(fv.skip(fi as int + 1)) is Some {
                                let rest = pipeline_layouts_spec(fv.skip(fi as int + 1)).unwrap();
                                assert((prev_pairs + with_path(pathv, lsv)) + rest =~= prev_pairs
                                    + (with_path(pathv, lsv) + rest));
                            }
                        }
                        fi = fi + 1;
                    },
                    Err(e) => {
                        proof {
                            assert(file_layouts_spec(fv[fi as int]) is None);
                            assert(pipeline_layouts_spec(fv.skip(fi as int)) is None);
                            assert(resolution_fail_at(fv, fi as int, fv[fi as int].path));
                        }
                        return Err(e);
                    },
                }
            },
            None => {
                let err = SchemaError::Syntax { path: f.path.clone() };
                proof {
                    assert(file_layouts_spec(fv[fi as int]) is None);
                    assert(pipeline_layouts_spec(fv.skip(fi as int)) is None);
                    assert(pipeline_layouts_spec(fv) is None);
                    match err@ {
                        SchemaErrorModel::Syntax { path } => {
                            assert(path == fv[fi as int].path);
                            assert(syntax_fail_at(fv, fi as int, path));
                            assert(exists|k: int| syntax_fail_at(fv, k, path));
                        },
                        _ => {},
                    }
                }
                return Err(err);
            },
        }
    }
    proof {
        assert(fv.skip(fi as int).len() == 0);
        assert(pipeline_layouts_spec(fv.skip(fi as int)) == Some(
            Seq::<(Seq<char>, LayoutModel)>::empty(),
        ));
        assert(state_pairs(names@, out@) + Seq::<(Seq<char>, LayoutModel)>::empty() =~= state_pairs(
            names@,
            out@,
        ));
    }
    let ghost pairs = state_pairs(names@, out@);
    // Name-collision check: the first duplicated layout name is fatal and
    // reports both source locations.
    match find_dup(&names, &out) {
        Some((j, k)) => {
            let err = SchemaError::Collision {
                name: out[j].name.clone(),
                first_path: names[j].0.clone(),
                second_path: names[k].0.clone(),
            };
            proof {
                match err@ {
                    SchemaErrorModel::Collision { name, first_path, second_path } => {
                        assert(pairs[j as int].1.name == name);
                        assert(pairs[j as int].0 == first_path);
                        assert(pairs[k as int].0 == second_path);
                        assert(collision_reported(pairs, name, first_path, second_path));
                    },
                    _ => {},
                }
            }
            return Err(err);
        },
        None => {},
    }
    proof {
        assert(layouts_view(out@) =~= pair_layouts(pairs));
    }
    Ok(out)
}

} // verus!
