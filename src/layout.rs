//! Layouts: the structs and enums to emit, built from a schema graph, and
//! their rendering as borsh-js schema entries and TypeScript classes.

use vstd::prelude::*;
use vstd::string::StringExecFns;
use crate::borsh_type::renderable;
use crate::field::{
    declared_field, field_result_view, schema_field_text, variant_field,
    FieldError, FieldFault, FieldModel, LayoutField,
};
use crate::schema::{
    definition_of, pairs_view, strings_view, ContainerModel, Definition, DefinitionModel, Fields,
    FieldsModel, SchemaContainer,
};

verus! {

/// Whether a layout is emitted as a struct or as an enum.
#[derive(Clone, Copy, Debug, PartialEq, Eq, Structural)]
pub enum Kind {
    Struct,
    Enum,
}

/// One emittable struct- or enum-shaped entity.
#[derive(Debug)]
pub struct Layout {
    pub name: String,
    pub kind: Kind,
    pub fields: Vec<LayoutField>,
}

/// The mathematical value of a [`Layout`].
pub struct LayoutModel {
    pub name: Seq<char>,
    pub kind: Kind,
    pub fields: Seq<FieldModel>,
}

pub open spec fn fields_view(v: Seq<LayoutField>) -> Seq<FieldModel> {
    v.map_values(|f: LayoutField| f@)
}

impl View for Layout {
    type V = LayoutModel;

    open spec fn view(&self) -> LayoutModel {
        LayoutModel { name: self.name@, kind: self.kind, fields: fields_view(self.fields@) }
    }
}

pub open spec fn layouts_view(v: Seq<Layout>) -> Seq<LayoutModel> {
    v.map_values(|l: Layout| l@)
}

/// Why layouts could not be built from a schema graph.
#[derive(Debug)]
pub enum BuildError {
    /// A field or variant marker could not be built.
    Field(FieldError),
    /// A declaration has no definition in the graph.
    MissingDefinition(String),
    /// A declaration (or an enum variant's declaration) is neither a struct nor
    /// an enum (respectively, not a struct).
    UnsupportedShape(String),
}

/// The mathematical value of a [`BuildError`].
pub enum BuildFault {
    Field(FieldFault),
    MissingDefinition(Seq<char>),
    UnsupportedShape(Seq<char>),
}

impl View for BuildError {
    type V = BuildFault;

    open spec fn view(&self) -> BuildFault {
        match self {
            BuildError::Field(e) => BuildFault::Field(e@),
            BuildError::MissingDefinition(n) => BuildFault::MissingDefinition(n@),
            BuildError::UnsupportedShape(n) => BuildFault::UnsupportedShape(n@),
        }
    }
}

/// The fields of the first `n` named declarations, or the first error.
pub open spec fn named_fields(v: Seq<(Seq<char>, Seq<char>)>, n: int) -> Result<
    Seq<FieldModel>,
    FieldFault,
>
    decreases n,
{
    if n <= 0 {
        Ok(Seq::empty())
    } else {
        match named_fields(v, n - 1) {
            Err(e) => Err(e),
            Ok(fs) => match declared_field(Some(v[n - 1].0), v[n - 1].1, None) {
                Ok(f) => Ok(fs.push(f)),
                Err(e) => Err(e),
            },
        }
    }
}

/// The fields of the first `n` positional declarations, or the first error.
pub open spec fn unnamed_fields(v: Seq<Seq<char>>, n: int) -> Result<Seq<FieldModel>, FieldFault>
    decreases n,
{
    if n <= 0 {
        Ok(Seq::empty())
    } else {
        match unnamed_fields(v, n - 1) {
            Err(e) => Err(e),
            Ok(fs) => match declared_field(None, v[n - 1], Some((n - 1) as usize)) {
                Ok(f) => Ok(fs.push(f)),
                Err(e) => Err(e),
            },
        }
    }
}

/// The fields of a struct, in declaration order.
pub open spec fn struct_fields(f: FieldsModel) -> Result<Seq<FieldModel>, FieldFault> {
    match f {
        FieldsModel::Named(v) => named_fields(v, v.len() as int),
        FieldsModel::Unnamed(v) => unnamed_fields(v, v.len() as int),
        FieldsModel::Empty => Ok(Seq::empty()),
    }
}

/// The marker fields of the first `n` variants, or the first error.
pub open spec fn variant_markers(vs: Seq<(Seq<char>, Seq<char>)>, n: int) -> Result<
    Seq<FieldModel>,
    FieldFault,
>
    decreases n,
{
    if n <= 0 {
        Ok(Seq::empty())
    } else {
        match variant_markers(vs, n - 1) {
            Err(e) => Err(e),
            Ok(fs) => match variant_field(vs[n - 1].1) {
                Ok(f) => Ok(fs.push(f)),
                Err(e) => Err(e),
            },
        }
    }
}

/// The struct layout of the variant declared as `decl`.
pub open spec fn variant_layout(defs: Seq<(Seq<char>, DefinitionModel)>, decl: Seq<char>) -> Result<
    LayoutModel,
    BuildFault,
> {
    match definition_of(defs, decl) {
        None => Err(BuildFault::MissingDefinition(decl)),
        Some(DefinitionModel::Struct { fields }) => match struct_fields(fields) {
            Ok(fs) => Ok(LayoutModel { name: decl, kind: Kind::Struct, fields: fs }),
            Err(e) => Err(BuildFault::Field(e)),
        },
        Some(_) => Err(BuildFault::UnsupportedShape(decl)),
    }
}

/// The layouts of the first `n` variants, in order, or the first error.
pub open spec fn variant_layouts(
    defs: Seq<(Seq<char>, DefinitionModel)>,
    vs: Seq<(Seq<char>, Seq<char>)>,
    n: int,
) -> Result<Seq<LayoutModel>, BuildFault>
    decreases n,
{
    if n <= 0 {
        Ok(Seq::empty())
    } else {
        match variant_layouts(defs, vs, n - 1) {
            Err(e) => Err(e),
            Ok(ls) => match variant_layout(defs, vs[n - 1].1) {
                Ok(l) => Ok(ls.push(l)),
                Err(e) => Err(e),
            },
        }
    }
}

/// The layouts of `decl`: one for a struct; for an enum, the enum with one
/// marker per variant, then each variant's struct in variant order. Marker
/// errors are reported before variant errors.
pub open spec fn build_layouts(defs: Seq<(Seq<char>, DefinitionModel)>, decl: Seq<char>) -> Result<
    Seq<LayoutModel>,
    BuildFault,
> {
    match definition_of(defs, decl) {
        None => Err(BuildFault::MissingDefinition(decl)),
        Some(DefinitionModel::Struct { fields }) => match struct_fields(fields) {
            Ok(fs) => Ok(seq![LayoutModel { name: decl, kind: Kind::Struct, fields: fs }]),
            Err(e) => Err(BuildFault::Field(e)),
        },
        Some(DefinitionModel::Enum { variants }) => match variant_markers(
            variants,
            variants.len() as int,
        ) {
            Err(e) => Err(BuildFault::Field(e)),
            Ok(ms) => match variant_layouts(defs, variants, variants.len() as int) {
                Err(e) => Err(e),
                Ok(ls) => Ok(seq![LayoutModel { name: decl, kind: Kind::Enum, fields: ms }] + ls),
            },
        },
        Some(_) => Err(BuildFault::UnsupportedShape(decl)),
    }
}

pub open spec fn fields_result_view(r: Result<Vec<LayoutField>, FieldError>) -> Result<
    Seq<FieldModel>,
    FieldFault,
> {
    match r {
        Ok(v) => Ok(fields_view(v@)),
        Err(e) => Err(e@),
    }
}

pub open spec fn layouts_result_view(r: Result<Vec<Layout>, BuildError>) -> Result<
    Seq<LayoutModel>,
    BuildFault,
> {
    match r {
        Ok(v) => Ok(layouts_view(v@)),
        Err(e) => Err(e@),
    }
}

fn match_fields(fields: &Fields) -> (r: Result<Vec<LayoutField>, FieldError>)
    ensures
        fields_result_view(r) == struct_fields(fields@),
{
    match fields {
        Fields::NamedFields(v) => {
            let ghost pv = pairs_view(v@);
            assert(fields@ == FieldsModel::Named(pv));
            let mut out: Vec<LayoutField> = Vec::new();
            assert(fields_view(out@) =~= Seq::empty());
            let mut i: usize = 0;
            while i < v.len()
                invariant
                    pv == pairs_view(v@),
                    i <= v@.len(),
                    named_fields(pv, i as int) == Ok::<Seq<FieldModel>, FieldFault>(
                        fields_view(out@),
                    ),
                    fields@ == FieldsModel::Named(pv),
                decreases v@.len() - i,
            {
                let f = LayoutField::from_declaration(
                    Some(v[i].0.as_str()),
                    v[i].1.as_str(),
                    None,
                );
                assert(pv[i as int] == (v@[i as int].0@, v@[i as int].1@));
                match f {
                    Ok(f) => {
                        let ghost prev = fields_view(out@);
                        let ghost fm = f@;
                        out.push(f);
                        assert(fields_view(out@) =~= prev.push(fm));
                    },
                    Err(e) => {
                        assert(named_fields(pv, i as int + 1) == Err::<Seq<FieldModel>, FieldFault>(
                            e@,
                        ));
                        proof {
                            lemma_named_error_stays(pv, i as int + 1, pv.len() as int);
                        }
                        return Err(e);
                    },
                }
                i = i + 1;
            }
            Ok(out)
        },
        Fields::UnnamedFields(v) => {
            let ghost sv = strings_view(v@);
            assert(fields@ == FieldsModel::Unnamed(sv));
            let mut out: Vec<LayoutField> = Vec::new();
            assert(fields_view(out@) =~= Seq::empty());
            let mut i: usize = 0;
            while i < v.len()
                invariant
                    sv == strings_view(v@),
                    i <= v@.len(),
                    unnamed_fields(sv, i as int) == Ok::<Seq<FieldModel>, FieldFault>(
                        fields_view(out@),
                    ),
                    fields@ == FieldsModel::Unnamed(sv),
                decreases v@.len() - i,
            {
                let f = LayoutField::from_declaration(None, v[i].as_str(), Some(i));
                assert(sv[i as int] == v@[i as int]@);
                match f {
                    Ok(f) => {
                        let ghost prev = fields_view(out@);
                        let ghost fm = f@;
                        out.push(f);
                        assert(fields_view(out@) =~= prev.push(fm));
                    },
                    Err(e) => {
                        assert(unnamed_fields(sv, i as int + 1) == Err::<
                            Seq<FieldModel>,
                            FieldFault,
                        >(e@));
                        proof {
                            lemma_unnamed_error_stays(sv, i as int + 1, sv.len() as int);
                        }
                        return Err(e);
                    },
                }
                i = i + 1;
            }
            Ok(out)
        },
        Fields::Empty => {
            let out: Vec<LayoutField> = Vec::new();
            assert(fields_view(out@) =~= Seq::empty());
            Ok(out)
        },
    }
}

proof fn lemma_named_error_stays(v: Seq<(Seq<char>, Seq<char>)>, m: int, n: int)
    requires
        m <= n,
        named_fields(v, m) is Err,
    ensures
        named_fields(v, n) == named_fields(v, m),
    decreases n - m,
{
    if m < n {
        lemma_named_error_stays(v, m, n - 1);
    }
}

proof fn lemma_unnamed_error_stays(v: Seq<Seq<char>>, m: int, n: int)
    requires
        m <= n,
        unnamed_fields(v, m) is Err,
    ensures
        unnamed_fields(v, n) == unnamed_fields(v, m),
    decreases n - m,
{
    if m < n {
        lemma_unnamed_error_stays(v, m, n - 1);
    }
}

pub open spec fn layout_result_view(r: Result<Layout, BuildError>) -> Result<LayoutModel, BuildFault> {
    match r {
        Ok(l) => Ok(l@),
        Err(e) => Err(e@),
    }
}

/// The markers and variant layouts of an enum: marker errors come first.
pub open spec fn enum_parts(
    defs: Seq<(Seq<char>, DefinitionModel)>,
    vs: Seq<(Seq<char>, Seq<char>)>,
) -> Result<(Seq<FieldModel>, Seq<LayoutModel>), BuildFault> {
    match variant_markers(vs, vs.len() as int) {
        Err(e) => Err(BuildFault::Field(e)),
        Ok(ms) => match variant_layouts(defs, vs, vs.len() as int) {
            Err(e) => Err(e),
            Ok(ls) => Ok((ms, ls)),
        },
    }
}

fn variant_layout_of(decl: &str, container: &SchemaContainer) -> (r: Result<Layout, BuildError>)
    ensures
        layout_result_view(r) == variant_layout(container@.definitions, decl@),
{
    match container.lookup(decl) {
        None => Err(BuildError::MissingDefinition(decl.to_owned())),
        Some(Definition::Struct { fields }) => match match_fields(fields) {
            Ok(fs) => Ok(Layout { name: decl.to_owned(), kind: Kind::Struct, fields: fs }),
            Err(e) => Err(BuildError::Field(e)),
        },
        Some(_) => Err(BuildError::UnsupportedShape(decl.to_owned())),
    }
}

proof fn lemma_markers_error_stays(vs: Seq<(Seq<char>, Seq<char>)>, m: int, n: int)
    requires
        m <= n,
        variant_markers(vs, m) is Err,
    ensures
        variant_markers(vs, n) == variant_markers(vs, m),
    decreases n - m,
{
    if m < n {
        lemma_markers_error_stays(vs, m, n - 1);
    }
}

proof fn lemma_variants_error_stays(
    defs: Seq<(Seq<char>, DefinitionModel)>,
    vs: Seq<(Seq<char>, Seq<char>)>,
    m: int,
    n: int,
)
    requires
        m <= n,
        variant_layouts(defs, vs, m) is Err,
    ensures
        variant_layouts(defs, vs, n) == variant_layouts(defs, vs, m),
    decreases n - m,
{
    if m < n {
        lemma_variants_error_stays(defs, vs, m, n - 1);
    }
}

fn match_enum_variants(variants: &Vec<(String, String)>, container: &SchemaContainer) -> (r: Result<
    (Vec<LayoutField>, Vec<Layout>),
    BuildError,
>)
    ensures
        match r {
            Ok((fs, ls)) => enum_parts(container@.definitions, pairs_view(variants@)) == Ok::<
                (Seq<FieldModel>, Seq<LayoutModel>),
                BuildFault,
            >((fields_view(fs@), layouts_view(ls@))),
            Err(e) => enum_parts(container@.definitions, pairs_view(variants@)) == Err::<
                (Seq<FieldModel>, Seq<LayoutModel>),
                BuildFault,
            >(e@),
        },
{
    let ghost pv = pairs_view(variants@);
    let ghost defs = container@.definitions;
    let n = variants.len();
    let mut markers: Vec<LayoutField> = Vec::new();
    assert(fields_view(markers@) =~= Seq::empty());
    let mut i: usize = 0;
    while i < n
        invariant
            n == variants@.len(),
            pv == pairs_view(variants@),
            i <= n,
            variant_markers(pv, i as int) == Ok::<Seq<FieldModel>, FieldFault>(
                fields_view(markers@),
            ),
        decreases n - i,
    {
        let f = LayoutField::from_enum_variant(variants[i].1.as_str());
        assert(pv[i as int] == (variants@[i as int].0@, variants@[i as int].1@));
        match f {
            Ok(f) => {
                let ghost prev = fields_view(markers@);
                let ghost fm = f@;
                markers.push(f);
                assert(fields_view(markers@) =~= prev.push(fm));
            },
            Err(e) => {
                assert(variant_markers(pv, i as int + 1) == Err::<Seq<FieldModel>, FieldFault>(
                    e@,
                ));
                proof {
                    lemma_markers_error_stays(pv, i as int + 1, n as int);
                }
                return Err(BuildError::Field(e));
            },
        }
        i = i + 1;
    }
    let mut layouts: Vec<Layout> = Vec::new();
    assert(layouts_view(layouts@) =~= Seq::empty());
    let mut j: usize = 0;
    while j < n
        invariant
            n == variants@.len(),
            pv == pairs_view(variants@),
            defs == container@.definitions,
            j <= n,
            variant_markers(pv, n as int) == Ok::<Seq<FieldModel>, FieldFault>(
                fields_view(markers@),
            ),
            variant_layouts(defs, pv, j as int) == Ok::<Seq<LayoutModel>, BuildFault>(
                layouts_view(layouts@),
            ),
        decreases n - j,
    {
        let l = variant_layout_of(variants[j].1.as_str(), container);
        assert(pv[j as int] == (variants@[j as int].0@, variants@[j as int].1@));
        match l {
            Ok(l) => {
                let ghost prev = layouts_view(layouts@);
                let ghost lm = l@;
                layouts.push(l);
                assert(layouts_view(layouts@) =~= prev.push(lm));
            },
            Err(e) => {
                assert(variant_layouts(defs, pv, j as int + 1) == Err::<
                    Seq<LayoutModel>,
                    BuildFault,
                >(e@));
                proof {
                    lemma_variants_error_stays(defs, pv, j as int + 1, n as int);
                }
                return Err(e);
            },
        }
        j = j + 1;
    }
    Ok((markers, layouts))
}

impl Layout {
    /// Builds the layouts of `declaration` from the schema graph: one for a
    /// struct; for an enum, the enum followed by one struct per variant.
    pub fn from_borsh_definition(declaration: &str, container: &SchemaContainer) -> (r: Result<
        Vec<Self>,
        BuildError,
    >)
        ensures
            layouts_result_view(r) == build_layouts(container@.definitions, declaration@),
    {
        match container.lookup(declaration) {
            None => Err(BuildError::MissingDefinition(declaration.to_owned())),
            Some(Definition::Struct { fields }) => match match_fields(fields) {
                Ok(fs) => {
                    let mut result: Vec<Layout> = Vec::new();
                    result.push(Layout { name: declaration.to_owned(), kind: Kind::Struct, fields: fs });
                    assert(layouts_view(result@) =~= seq![result@[0]@]);
                    Ok(result)
                },
                Err(e) => Err(BuildError::Field(e)),
            },
            Some(Definition::Enum { variants }) => match match_enum_variants(variants, container) {
                Ok((fs, ls)) => {
                    let ghost lv = layouts_view(ls@);
                    let mut nested = ls;
                    let mut result: Vec<Layout> = Vec::new();
                    result.push(Layout { name: declaration.to_owned(), kind: Kind::Enum, fields: fs });
                    let ghost head = result@[0]@;
                    result.append(&mut nested);
                    assert(layouts_view(result@) =~= seq![head] + lv);
                    Ok(result)
                },
                Err(e) => Err(e),
            },
            Some(_) => Err(BuildError::UnsupportedShape(declaration.to_owned())),
        }
    }

    /// Builds the layouts of the container's root declaration.
    pub fn from_borsh_container(container: SchemaContainer) -> (r: Result<Vec<Self>, BuildError>)
        ensures
            layouts_result_view(r) == build_layouts(container@.definitions, container@.declaration),
    {
        Self::from_borsh_definition(container.declaration.as_str(), &container)
    }
}

proof fn lemma_named_shape(v: Seq<(Seq<char>, Seq<char>)>, n: int)
    requires
        0 <= n,
        named_fields(v, n) is Ok,
    ensures
        named_fields(v, n)->Ok_0.len() == n,
        forall|i: int|
            0 <= i < n ==> named_fields(v, n)->Ok_0[i] == declared_field(
                Some(#[trigger] v[i].0),
                v[i].1,
                None,
            )->Ok_0,
    decreases n,
{
    if n > 0 {
        lemma_named_shape(v, n - 1);
        let fs = named_fields(v, n - 1)->Ok_0;
        assert forall|i: int| 0 <= i < n implies named_fields(v, n)->Ok_0[i] == declared_field(
            Some(#[trigger] v[i].0),
            v[i].1,
            None,
        )->Ok_0 by {
            if i < n - 1 {
                assert(named_fields(v, n)->Ok_0 == fs.push(
                    declared_field(Some(v[n - 1].0), v[n - 1].1, None)->Ok_0,
                ));
            }
        }
    }
}

/// A struct with named fields gives exactly one layout, whose fields are the
/// declared fields in declaration order: the `i`-th is built from the `i`-th
/// declaration.
pub proof fn lemma_struct_field_order(
    defs: Seq<(Seq<char>, DefinitionModel)>,
    decl: Seq<char>,
    v: Seq<(Seq<char>, Seq<char>)>,
)
    requires
        definition_of(defs, decl) == Some(
            DefinitionModel::Struct { fields: FieldsModel::Named(v) },
        ),
        build_layouts(defs, decl) is Ok,
    ensures
        build_layouts(defs, decl)->Ok_0.len() == 1,
        build_layouts(defs, decl)->Ok_0[0].kind == Kind::Struct,
        build_layouts(defs, decl)->Ok_0[0].name == decl,
        build_layouts(defs, decl)->Ok_0[0].fields.len() == v.len(),
        forall|i: int|
            0 <= i < v.len() ==> build_layouts(defs, decl)->Ok_0[0].fields[i] == declared_field(
                Some(#[trigger] v[i].0),
                v[i].1,
                None,
            )->Ok_0,
{
    lemma_named_shape(v, v.len() as int);
}

proof fn lemma_markers_shape(vs: Seq<(Seq<char>, Seq<char>)>, n: int)
    requires
        0 <= n,
        variant_markers(vs, n) is Ok,
    ensures
        variant_markers(vs, n)->Ok_0.len() == n,
        forall|i: int|
            0 <= i < n ==> (#[trigger] variant_markers(vs, n)->Ok_0[i]) == variant_field(
                vs[i].1,
            )->Ok_0 && variant_field(vs[i].1) is Ok,
    decreases n,
{
    if n > 0 {
        lemma_markers_shape(vs, n - 1);
        let fs = variant_markers(vs, n - 1)->Ok_0;
        assert(variant_markers(vs, n)->Ok_0 == fs.push(variant_field(vs[n - 1].1)->Ok_0));
        assert forall|i: int| 0 <= i < n implies (#[trigger] variant_markers(vs, n)->Ok_0[i])
            == variant_field(vs[i].1)->Ok_0 && variant_field(vs[i].1) is Ok by {
            if i < n - 1 {
                assert(fs.push(variant_field(vs[n - 1].1)->Ok_0)[i] == fs[i]);
            }
        }
    }
}

proof fn lemma_variants_shape(
    defs: Seq<(Seq<char>, DefinitionModel)>,
    vs: Seq<(Seq<char>, Seq<char>)>,
    n: int,
)
    requires
        0 <= n,
        variant_layouts(defs, vs, n) is Ok,
    ensures
        variant_layouts(defs, vs, n)->Ok_0.len() == n,
        forall|i: int|
            0 <= i < n ==> (#[trigger] variant_layouts(defs, vs, n)->Ok_0[i]) == variant_layout(
                defs,
                vs[i].1,
            )->Ok_0 && variant_layout(defs, vs[i].1) is Ok,
    decreases n,
{
    if n > 0 {
        lemma_variants_shape(defs, vs, n - 1);
        let ls = variant_layouts(defs, vs, n - 1)->Ok_0;
        let l = variant_layout(defs, vs[n - 1].1)->Ok_0;
        assert(variant_layouts(defs, vs, n)->Ok_0 == ls.push(l));
        assert forall|i: int| 0 <= i < n implies (#[trigger] variant_layouts(defs, vs, n)->Ok_0[i])
            == variant_layout(defs, vs[i].1)->Ok_0 && variant_layout(defs, vs[i].1) is Ok by {
            if i < n - 1 {
                assert(ls.push(l)[i] == ls[i]);
            }
        }
    }
}

/// An enum with `k` variants gives `k + 1` layouts: first the enum, whose
/// `i`-th field is a marker named after the `i`-th variant's declaration and
/// typed by it, then, in variant order, one struct layout per variant named
/// after its declaration, even for variants without fields.
pub proof fn lemma_enum_flattening(
    defs: Seq<(Seq<char>, DefinitionModel)>,
    decl: Seq<char>,
    vs: Seq<(Seq<char>, Seq<char>)>,
)
    requires
        definition_of(defs, decl) == Some(DefinitionModel::Enum { variants: vs }),
        build_layouts(defs, decl) is Ok,
    ensures
        build_layouts(defs, decl)->Ok_0.len() == vs.len() + 1,
        build_layouts(defs, decl)->Ok_0[0].kind == Kind::Enum,
        build_layouts(defs, decl)->Ok_0[0].name == decl,
        build_layouts(defs, decl)->Ok_0[0].fields.len() == vs.len(),
        forall|i: int|
            0 <= i < vs.len() ==> (#[trigger] build_layouts(defs, decl)->Ok_0[0].fields[i])
                == variant_field(vs[i].1)->Ok_0 && variant_field(vs[i].1)->Ok_0.name == vs[i].1,
        forall|i: int|
            0 <= i < vs.len() ==> (#[trigger] build_layouts(defs, decl)->Ok_0[i + 1]).name
                == vs[i].1 && build_layouts(defs, decl)->Ok_0[i + 1].kind == Kind::Struct,
{
    let n = vs.len() as int;
    lemma_markers_shape(vs, n);
    lemma_variants_shape(defs, vs, n);
    let ls = build_layouts(defs, decl)->Ok_0;
    let rest = variant_layouts(defs, vs, n)->Ok_0;
    assert forall|i: int| 0 <= i < vs.len() implies (#[trigger] ls[i + 1]).name == vs[i].1
        && ls[i + 1].kind == Kind::Struct by {
        assert(ls[i + 1] == rest[i]);
        assert(rest[i] == variant_layout(defs, vs[i].1)->Ok_0);
    }
    let ms = variant_markers(vs, n)->Ok_0;
    assert forall|i: int| 0 <= i < vs.len() implies (#[trigger] ls[0].fields[i]) == variant_field(
        vs[i].1,
    )->Ok_0 && variant_field(vs[i].1)->Ok_0.name == vs[i].1 by {
        assert(ms[i] == variant_field(vs[i].1)->Ok_0);
    }
}

} // verus!
