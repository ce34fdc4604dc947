//! Building and rendering several schema graphs into one generated file.

use vstd::prelude::*;
use crate::borsh_type::{lemma_parse_renderable, renderable};
use crate::emit::{all_renderable, layout_renderable, output_text, render_output};
use crate::field::{declared_field, variant_field, FieldModel};
use crate::layout::{
    build_layouts, layouts_result_view, layouts_view, named_fields, struct_fields,
    unnamed_fields, variant_layout, variant_layouts, variant_markers, BuildError, BuildFault,
    Layout, LayoutModel,
};
use crate::schema::{definition_of, ContainerModel, DefinitionModel, FieldsModel, SchemaContainer};
use crate::text::strip_spaces;

verus! {

/// Every field's type has a rendering.
pub open spec fn fields_renderable(fs: Seq<FieldModel>) -> bool {
    forall|i: int| 0 <= i < fs.len() ==> renderable(#[trigger] fs[i].ty)
}

proof fn lemma_declared_renderable(name: Option<Seq<char>>, field: Seq<char>, idx: Option<usize>)
    ensures
        declared_field(name, field, idx) is Ok ==> renderable(
            declared_field(name, field, idx)->Ok_0.ty,
        ),
        variant_field(field) is Ok ==> renderable(variant_field(field)->Ok_0.ty),
{
    lemma_parse_renderable(strip_spaces(field));
}

proof fn lemma_named_renderable(v: Seq<(Seq<char>, Seq<char>)>, n: int)
    ensures
        named_fields(v, n) is Ok ==> fields_renderable(named_fields(v, n)->Ok_0),
    decreases n,
{
    if n > 0 {
        lemma_named_renderable(v, n - 1);
        lemma_declared_renderable(Some(v[n - 1].0), v[n - 1].1, None);
        if named_fields(v, n) is Ok {
            let fs = named_fields(v, n - 1)->Ok_0;
            let f = declared_field(Some(v[n - 1].0), v[n - 1].1, None)->Ok_0;
            assert(named_fields(v, n)->Ok_0 == fs.push(f));
            assert forall|i: int| 0 <= i < fs.len() + 1 implies renderable(
                #[trigger] fs.push(f)[i].ty,
            ) by {
                if i < fs.len() {
                    assert(fs.push(f)[i] == fs[i]);
                }
            }
        }
    }
}

proof fn lemma_unnamed_renderable(v: Seq<Seq<char>>, n: int)
    ensures
        unnamed_fields(v, n) is Ok ==> fields_renderable(unnamed_fields(v, n)->Ok_0),
    decreases n,
{
    if n > 0 {
        lemma_unnamed_renderable(v, n - 1);
        lemma_declared_renderable(None, v[n - 1], Some((n - 1) as usize));
        if unnamed_fields(v, n) is Ok {
            let fs = unnamed_fields(v, n - 1)->Ok_0;
            let f = declared_field(None, v[n - 1], Some((n - 1) as usize))->Ok_0;
            assert(unnamed_fields(v, n)->Ok_0 == fs.push(f));
            assert forall|i: int| 0 <= i < fs.len() + 1 implies renderable(
                #[trigger] fs.push(f)[i].ty,
            ) by {
                if i < fs.len() {
                    assert(fs.push(f)[i] == fs[i]);
                }
            }
        }
    }
}

proof fn lemma_markers_renderable(vs: Seq<(Seq<char>, Seq<char>)>, n: int)
    ensures
        variant_markers(vs, n) is Ok ==> fields_renderable(variant_markers(vs, n)->Ok_0),
    decreases n,
{
    if n > 0 {
        lemma_markers_renderable(vs, n - 1);
        lemma_declared_renderable(None, vs[n - 1].1, None);
        if variant_markers(vs, n) is Ok {
            let fs = variant_markers(vs, n - 1)->Ok_0;
            let f = variant_field(vs[n - 1].1)->Ok_0;
            assert(variant_markers(vs, n)->Ok_0 == fs.push(f));
            assert forall|i: int| 0 <= i < fs.len() + 1 implies renderable(
                #[trigger] fs.push(f)[i].ty,
            ) by {
                if i < fs.len() {
                    assert(fs.push(f)[i] == fs[i]);
                }
            }
        }
    }
}

proof fn lemma_struct_renderable(f: FieldsModel)
    ensures
        struct_fields(f) is Ok ==> fields_renderable(struct_fields(f)->Ok_0),
{
    match f {
        FieldsModel::Named(v) => lemma_named_renderable(v, v.len() as int),
        FieldsModel::Unnamed(v) => lemma_unnamed_renderable(v, v.len() as int),
        FieldsModel::Empty => {},
    }
}

proof fn lemma_layout_renderable(l: LayoutModel)
    requires
        fields_renderable(l.fields),
    ensures
        layout_renderable(l),
{
    assert forall|i: int| 0 <= i < l.fields.len() implies (#[trigger] l.fields[i]).ty is Skip
        || renderable(l.fields[i].ty) by {
        assert(renderable(l.fields[i].ty));
    }
}

proof fn lemma_variant_layouts_renderable(
    defs: Seq<(Seq<char>, DefinitionModel)>,
    vs: Seq<(Seq<char>, Seq<char>)>,
    n: int,
)
    ensures
        variant_layouts(defs, vs, n) is Ok ==> all_renderable(variant_layouts(defs, vs, n)->Ok_0),
    decreases n,
{
    if n > 0 {
        lemma_variant_layouts_renderable(defs, vs, n - 1);
        if variant_layouts(defs, vs, n) is Ok {
            let ls = variant_layouts(defs, vs, n - 1)->Ok_0;
            let l = variant_layout(defs, vs[n - 1].1)->Ok_0;
            match definition_of(defs, vs[n - 1].1) {
                Some(DefinitionModel::Struct { fields }) => {
                    lemma_struct_renderable(fields);
                },
                _ => {},
            }
            lemma_layout_renderable(l);
            assert(variant_layouts(defs, vs, n)->Ok_0 == ls.push(l));
            assert forall|i: int| 0 <= i < ls.len() + 1 implies layout_renderable(
                #[trigger] ls.push(l)[i],
            ) by {
                if i < ls.len() {
                    assert(ls.push(l)[i] == ls[i]);
                }
            }
        }
    }
}

/// Layouts built from a schema graph can always be rendered.
pub proof fn lemma_build_renderable(defs: Seq<(Seq<char>, DefinitionModel)>, decl: Seq<char>)
    ensures
        build_layouts(defs, decl) is Ok ==> all_renderable(build_layouts(defs, decl)->Ok_0),
{
    match definition_of(defs, decl) {
        Some(DefinitionModel::Struct { fields }) => {
            lemma_struct_renderable(fields);
            if build_layouts(defs, decl) is Ok {
                let ls = build_layouts(defs, decl)->Ok_0;
                lemma_layout_renderable(ls[0]);
            }
        },
        Some(DefinitionModel::Enum { variants }) => {
            lemma_markers_renderable(variants, variants.len() as int);
            lemma_variant_layouts_renderable(defs, variants, variants.len() as int);
            if build_layouts(defs, decl) is Ok {
                let ls = build_layouts(defs, decl)->Ok_0;
                let head = ls[0];
                let rest = variant_layouts(defs, variants, variants.len() as int)->Ok_0;
                lemma_layout_renderable(head);
                assert forall|i: int| 0 <= i < ls.len() implies layout_renderable(
                    #[trigger] ls[i],
                ) by {
                    if i > 0 {
                        assert(ls[i] == rest[i - 1]);
                    }
                }
            }
        },
        _ => {},
    }
}

pub open spec fn containers_view(v: Seq<SchemaContainer>) -> Seq<ContainerModel> {
    v.map_values(|c: SchemaContainer| c@)
}

/// The layouts of the first `n` graphs, concatenated in order, or the first
/// error.
pub open spec fn build_all(cs: Seq<ContainerModel>, n: int) -> Result<Seq<LayoutModel>, BuildFault>
    decreases n,
{
    if n <= 0 {
        Ok(Seq::empty())
    } else {
        match build_all(cs, n - 1) {
            Err(e) => Err(e),
            Ok(ls) => match build_layouts(cs[n - 1].definitions, cs[n - 1].declaration) {
                Err(e) => Err(e),
                Ok(more) => Ok(ls + more),
            },
        }
    }
}

/// The generated file for a batch of graphs, or the first build error.
pub open spec fn generated_text(cs: Seq<ContainerModel>) -> Result<Seq<char>, BuildFault> {
    match build_all(cs, cs.len() as int) {
        Ok(ls) => Ok(output_text(ls)),
        Err(e) => Err(e),
    }
}

pub open spec fn text_result_view(r: Result<String, BuildError>) -> Result<Seq<char>, BuildFault> {
    match r {
        Ok(s) => Ok(s@),
        Err(e) => Err(e@),
    }
}

proof fn lemma_build_all_error_stays(cs: Seq<ContainerModel>, m: int, n: int)
    requires
        m <= n,
        build_all(cs, m) is Err,
    ensures
        build_all(cs, n) == build_all(cs, m),
    decreases n - m,
{
    if m < n {
        lemma_build_all_error_stays(cs, m, n - 1);
    }
}

/// Builds the layouts of every graph and concatenates them, keeping the
/// graphs' order and, within each, the parent before its variants.
pub fn build_layouts_of(containers: &Vec<SchemaContainer>) -> (r: Result<Vec<Layout>, BuildError>)
    ensures
        layouts_result_view(r) == build_all(containers_view(containers@), containers@.len() as int),
        r is Ok ==> all_renderable(layouts_view(r->Ok_0@)),
{
    let ghost cv = containers_view(containers@);
    let mut out: Vec<Layout> = Vec::new();
    assert(layouts_view(out@) =~= Seq::empty());
    let mut i: usize = 0;
    while i < containers.len()
        invariant
            cv == containers_view(containers@),
            i <= cv.len(),
            build_all(cv, i as int) == Ok::<Seq<LayoutModel>, BuildFault>(layouts_view(out@)),
            all_renderable(layouts_view(out@)),
        decreases cv.len() - i,
    {
        let c = &containers[i];
        assert(cv[i as int] == c@);
        match Layout::from_borsh_definition(c.declaration.as_str(), c) {
            Ok(more) => {
                proof {
                    lemma_build_renderable(c@.definitions, c@.declaration);
                }
                let ghost prev = layouts_view(out@);
                let ghost mv = layouts_view(more@);
                let mut more = more;
                out.append(&mut more);
                assert(layouts_view(out@) =~= prev + mv);
                assert forall|k: int| 0 <= k < prev.len() + mv.len() implies layout_renderable(
                    #[trigger] (prev + mv)[k],
                ) by {
                    if k < prev.len() {
                        assert((prev + mv)[k] == prev[k]);
                    } else {
                        assert((prev + mv)[k] == mv[k - prev.len()]);
                    }
                }
            },
            Err(e) => {
                proof {
                    lemma_build_all_error_stays(cv, i as int + 1, cv.len() as int);
                }
                return Err(e);
            },
        }
        i = i + 1;
    }
    Ok(out)
}

/// Builds every graph and renders the generated TypeScript file: preamble,
/// classes, then the schema map. Nothing is rendered when a build fails.
pub fn generate_schema_text(containers: &Vec<SchemaContainer>) -> (r: Result<String, BuildError>)
    ensures
        text_result_view(r) == generated_text(containers_view(containers@)),
{
    let layouts = build_layouts_of(containers)?;
    Ok(render_output(&layouts))
}

/// Running the whole generation twice on an unchanged batch of schema graphs
/// gives the same outcome: both fail with the same error, or both succeed
/// with byte-identical text.
pub proof fn lemma_generation_repeatable(
    first: Result<String, BuildError>,
    second: Result<String, BuildError>,
    graphs: Seq<ContainerModel>,
)
    requires
        text_result_view(first) == generated_text(graphs),
        text_result_view(second) == generated_text(graphs),
    ensures
        first is Ok <==> second is Ok,
        first is Ok ==> first->Ok_0@ == second->Ok_0@,
        first is Err ==> first->Err_0@ == second->Err_0@,
{
}

} // verus!
