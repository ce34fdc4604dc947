//! The schema graph that layouts are built from: each declaration name mapped
//! to the definition of a struct, an enum, or another Borsh shape.

use vstd::prelude::*;

verus! {

/// The fields of a struct definition.
#[derive(Debug)]
pub enum Fields {
    /// Named fields as `(name, type signature)`, in declaration order.
    NamedFields(Vec<(String, String)>),
    /// Positional fields' type signatures, in order.
    UnnamedFields(Vec<String>),
    Empty,
}

/// The definition of one declaration.
#[allow(inconsistent_fields)]
#[derive(Debug)]
pub enum Definition {
    Array { length: u32, elements: String },
    Sequence { elements: String },
    Tuple { elements: Vec<String> },
    /// Variants as `(variant name, declaration of the variant's struct)`.
    Enum { variants: Vec<(String, String)> },
    Struct { fields: Fields },
}

/// A schema graph rooted at `declaration`. Each name is expected once in
/// `definitions`; a lookup takes the first entry with that name.
#[derive(Debug)]
pub struct SchemaContainer {
    pub declaration: String,
    pub definitions: Vec<(String, Definition)>,
}

/// The mathematical value of [`Fields`].
pub enum FieldsModel {
    Named(Seq<(Seq<char>, Seq<char>)>),
    Unnamed(Seq<Seq<char>>),
    Empty,
}

/// The mathematical value of a [`Definition`].
#[allow(inconsistent_fields)]
pub enum DefinitionModel {
    Array { length: u32, elements: Seq<char> },
    Sequence { elements: Seq<char> },
    Tuple { elements: Seq<Seq<char>> },
    Enum { variants: Seq<(Seq<char>, Seq<char>)> },
    Struct { fields: FieldsModel },
}

/// The mathematical value of a [`SchemaContainer`].
pub struct ContainerModel {
    pub declaration: Seq<char>,
    pub definitions: Seq<(Seq<char>, DefinitionModel)>,
}

pub open spec fn pairs_view(v: Seq<(String, String)>) -> Seq<(Seq<char>, Seq<char>)> {
    v.map_values(|p: (String, String)| (p.0@, p.1@))
}

pub open spec fn strings_view(v: Seq<String>) -> Seq<Seq<char>> {
    v.map_values(|s: String| s@)
}

impl View for Fields {
    type V = FieldsModel;

    open spec fn view(&self) -> FieldsModel {
        match self {
            Fields::NamedFields(v) => FieldsModel::Named(pairs_view(v@)),
            Fields::UnnamedFields(v) => FieldsModel::Unnamed(strings_view(v@)),
            Fields::Empty => FieldsModel::Empty,
        }
    }
}

impl View for Definition {
    type V = DefinitionModel;

    open spec fn view(&self) -> DefinitionModel {
        match self {
            Definition::Array { length, elements } => DefinitionModel::Array {
                length: *length,
                elements: elements@,
            },
            Definition::Sequence { elements } => DefinitionModel::Sequence { elements: elements@ },
            Definition::Tuple { elements } => DefinitionModel::Tuple {
                elements: strings_view(elements@),
            },
            Definition::Enum { variants } => DefinitionModel::Enum { variants: pairs_view(variants@) },
            Definition::Struct { fields } => DefinitionModel::Struct { fields: fields@ },
        }
    }
}

pub open spec fn definitions_view(v: Seq<(String, Definition)>) -> Seq<(Seq<char>, DefinitionModel)> {
    v.map_values(|p: (String, Definition)| (p.0@, p.1@))
}

impl View for SchemaContainer {
    type V = ContainerModel;

    open spec fn view(&self) -> ContainerModel {
        ContainerModel {
            declaration: self.declaration@,
            definitions: definitions_view(self.definitions@),
        }
    }
}

/// The index of the first definition named `name` among the first `n`, or -1.
pub open spec fn find_in(defs: Seq<(Seq<char>, DefinitionModel)>, name: Seq<char>, n: int) -> int
    decreases n,
{
    if n <= 0 {
        -1
    } else if find_in(defs, name, n - 1) >= 0 {
        find_in(defs, name, n - 1)
    } else if defs[n - 1].0 == name {
        n - 1
    } else {
        -1
    }
}

/// The definition of `name` in the graph, if it has one.
pub open spec fn definition_of(defs: Seq<(Seq<char>, DefinitionModel)>, name: Seq<char>) -> Option<
    DefinitionModel,
> {
    let i = find_in(defs, name, defs.len() as int);
    if 0 <= i < defs.len() {
        Some(defs[i].1)
    } else {
        None
    }
}

proof fn lemma_find_in_range(defs: Seq<(Seq<char>, DefinitionModel)>, name: Seq<char>, n: int)
    requires
        0 <= n <= defs.len(),
    ensures
        find_in(defs, name, n) < n,
        find_in(defs, name, n) >= 0 ==> defs[find_in(defs, name, n)].0 == name,
    decreases n,
{
    if n > 0 {
        lemma_find_in_range(defs, name, n - 1);
    }
}

fn same_text(a: &String, b: &str) -> (r: bool)
    ensures
        r == (a@ == b@),
{
    let s = a.as_str();
    let n = s.unicode_len();
    if b.unicode_len() != n {
        return false;
    }
    let mut i: usize = 0;
    while i < n
        invariant
            s@ == a@,
            n == s@.len(),
            n == b@.len(),
            i <= n,
            forall|k: int| 0 <= k < i ==> s@[k] == b@[k],
        decreases n - i,
    {
        if s.get_char(i) != b.get_char(i) {
            assert(s@[i as int] != b@[i as int]);
            return false;
        }
        i = i + 1;
    }
    assert(s@ =~= b@);
    true
}

impl SchemaContainer {
    /// The definition of `name`: the first entry with that name.
    pub fn lookup(&self, name: &str) -> (r: Option<&Definition>)
        ensures
            match r {
                Some(d) => definition_of(self@.definitions, name@) == Some(d@),
                None => definition_of(self@.definitions, name@) is None,
            },
    {
        let ghost defs = self@.definitions;
        let mut i: usize = 0;
        while i < self.definitions.len()
            invariant
                defs == definitions_view(self.definitions@),
                defs.len() == self.definitions@.len(),
                i <= defs.len(),
                find_in(defs, name@, i as int) < 0,
            decreases defs.len() - i,
        {
            if same_text(&self.definitions[i].0, name) {
                proof {
                    lemma_find_in_range(defs, name@, defs.len() as int);
                    lemma_find_stays(defs, name@, i as int + 1, defs.len() as int);
                }
                return Some(&self.definitions[i].1);
            }
            i = i + 1;
        }
        None
    }
}

proof fn lemma_find_stays(defs: Seq<(Seq<char>, DefinitionModel)>, name: Seq<char>, m: int, n: int)
    requires
        m <= n,
        find_in(defs, name, m) >= 0,
    ensures
        find_in(defs, name, n) == find_in(defs, name, m),
    decreases n - m,
{
    if m < n {
        lemma_find_stays(defs, name, m, n - 1);
    }
}

} // verus!
