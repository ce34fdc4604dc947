//! Rendering layouts as borsh-js schema entries and TypeScript classes, and
//! assembling the generated schema file.

use vstd::prelude::*;
use vstd::string::StringExecFns;
use crate::borsh_type::renderable;
use crate::field::{class_field_text, schema_field_text, FieldModel};
use crate::layout::{fields_view, layouts_view, Kind, Layout, LayoutModel};

verus! {

/// The imports and set-up that open the generated TypeScript file.
pub const LIB_PREAMBLE: &'static str = "import { Struct, Enum } from 'ts-borsh-schema';\nimport { PublicKey } from \"@solana/web3.js\";\nimport BN from \"bn.js\";\nimport { borshPublicKeyHack } from \"./extensions/publicKey\";\n\nborshPublicKeyHack();\n\n";

/// The fields that are emitted: all but those typed [`TypeExpr::Skip`].
pub open spec fn kept_fields(fs: Seq<FieldModel>) -> Seq<FieldModel> {
    fs.filter(|f: FieldModel| !(f.ty is Skip))
}

/// Every emitted field has a rendering.
pub open spec fn layout_renderable(l: LayoutModel) -> bool {
    forall|i: int|
        0 <= i < l.fields.len() ==> (#[trigger] l.fields[i]).ty is Skip || renderable(
            l.fields[i].ty,
        )
}

/// The schema fields of `fs`, separated by `, `.
pub open spec fn schema_entries(fs: Seq<FieldModel>) -> Seq<char>
    decreases fs.len(),
{
    if fs.len() == 0 {
        Seq::empty()
    } else if fs.len() == 1 {
        schema_field_text(fs[0])
    } else {
        schema_entries(fs.drop_last()) + ", "@ + schema_field_text(fs.last())
    }
}

/// The class fields of `fs`, one indented line each.
pub open spec fn class_lines(fs: Seq<FieldModel>) -> Seq<char>
    decreases fs.len(),
{
    if fs.len() == 0 {
        Seq::empty()
    } else {
        class_lines(fs.drop_last()) + "  "@ + class_field_text(fs.last()) + ";\n"@
    }
}

/// The entry of a layout in the borsh-js schema map.
pub open spec fn layout_schema_text(l: LayoutModel) -> Seq<char> {
    let entries = schema_entries(kept_fields(l.fields));
    if l.kind == Kind::Struct {
        "\n  ["@ + l.name + ", { kind: 'struct', fields: ["@ + entries + "] }],"@
    } else {
        "\n  ["@ + l.name + ", { kind: 'enum', field: 'enum', values: ["@ + entries + "] }],"@
    }
}

/// The TypeScript class of a layout.
pub open spec fn layout_class_text(l: LayoutModel) -> Seq<char> {
    let base = if l.kind == Kind::Struct {
        " extends Struct {\n"@
    } else {
        " extends Enum {\n"@
    };
    "export class "@ + l.name + base + class_lines(kept_fields(l.fields)) + "}\n\n"@
}

proof fn lemma_kept_push(fs: Seq<FieldModel>, i: int)
    requires
        0 <= i < fs.len(),
    ensures
        kept_fields(fs.subrange(0, i + 1)) == if fs[i].ty is Skip {
            kept_fields(fs.subrange(0, i))
        } else {
            kept_fields(fs.subrange(0, i)).push(fs[i])
        },
{
    assert(fs.subrange(0, i + 1).drop_last() =~= fs.subrange(0, i));
    reveal_with_fuel(Seq::filter, 1);
}

proof fn lemma_entries_push(k: Seq<FieldModel>, f: FieldModel)
    ensures
        schema_entries(k.push(f)) == if k.len() == 0 {
            schema_field_text(f)
        } else {
            schema_entries(k) + ", "@ + schema_field_text(f)
        },
        class_lines(k.push(f)) == class_lines(k) + "  "@ + class_field_text(f) + ";\n"@,
{
    assert(k.push(f).drop_last() =~= k);
}

impl Layout {
    /// Whether every emitted field of the layout has a rendering.
    pub fn can_render(&self) -> (r: bool)
        ensures
            r == layout_renderable(self@),
    {
        let ghost fv = fields_view(self.fields@);
        let mut i: usize = 0;
        while i < self.fields.len()
            invariant
                fv == fields_view(self.fields@),
                fv == self@.fields,
                i <= fv.len(),
                forall|k: int| 0 <= k < i ==> (#[trigger] fv[k]).ty is Skip || renderable(fv[k].ty),
            decreases fv.len() - i,
        {
            let f = &self.fields[i];
            assert(fv[i as int] == f@);
            if !f.should_skip() && !f.ty.has_rendering() {
                return false;
            }
            i = i + 1;
        }
        true
    }

    fn write_schema_entries(&self, out: &mut String)
        requires
            layout_renderable(self@),
        ensures
            final(out)@ == old(out)@ + schema_entries(kept_fields(self@.fields)),
    {
        let ghost fv = fields_view(self.fields@);
        let mut any = false;
        let mut i: usize = 0;
        assert(fv.subrange(0, 0) =~= Seq::<FieldModel>::empty());
        while i < self.fields.len()
            invariant
                fv == fields_view(self.fields@),
                fv == self@.fields,
                layout_renderable(self@),
                i <= fv.len(),
                out@ == old(out)@ + schema_entries(kept_fields(fv.subrange(0, i as int))),
                any == (kept_fields(fv.subrange(0, i as int)).len() > 0),
            decreases fv.len() - i,
        {
            let f = &self.fields[i];
            proof {
                lemma_kept_push(fv, i as int);
                lemma_entries_push(kept_fields(fv.subrange(0, i as int)), f@);
            }
            assert(fv[i as int] == f@);
            if !f.should_skip() {
                if any {
                    out.append(", ");
                }
                f.write_schema_field(out);
                any = true;
            }
            i = i + 1;
        }
        assert(fv.subrange(0, fv.len() as int) =~= fv);
    }

    fn write_class_lines(&self, out: &mut String)
        requires
            layout_renderable(self@),
        ensures
            final(out)@ == old(out)@ + class_lines(kept_fields(self@.fields)),
    {
        let ghost fv = fields_view(self.fields@);
        let mut i: usize = 0;
        assert(fv.subrange(0, 0) =~= Seq::<FieldModel>::empty());
        while i < self.fields.len()
            invariant
                fv == fields_view(self.fields@),
                fv == self@.fields,
                layout_renderable(self@),
                i <= fv.len(),
                out@ == old(out)@ + class_lines(kept_fields(fv.subrange(0, i as int))),
            decreases fv.len() - i,
        {
            let f = &self.fields[i];
            proof {
                lemma_kept_push(fv, i as int);
                lemma_entries_push(kept_fields(fv.subrange(0, i as int)), f@);
            }
            assert(fv[i as int] == f@);
            if !f.should_skip() {
                out.append("  ");
                f.write_class_field(out);
                out.append(";\n");
            }
            i = i + 1;
        }
        assert(fv.subrange(0, fv.len() as int) =~= fv);
    }

    /// The layout's entry in the borsh-js schema map.
    pub fn to_borsh_schema(&self) -> (r: String)
        requires
            layout_renderable(self@),
        ensures
            r@ == layout_schema_text(self@),
    {
        let mut out = String::new();
        out.append("\n  [");
        out.append(self.name.as_str());
        match self.kind {
            Kind::Struct => out.append(", { kind: 'struct', fields: ["),
            Kind::Enum => out.append(", { kind: 'enum', field: 'enum', values: ["),
        }
        self.write_schema_entries(&mut out);
        out.append("] }],");
        assert(out@ =~= layout_schema_text(self@));
        out
    }

    /// The layout as a TypeScript class declaration.
    pub fn to_ts_class(&self) -> (r: String)
        requires
            layout_renderable(self@),
        ensures
            r@ == layout_class_text(self@),
    {
        let mut out = String::new();
        out.append("export class ");
        out.append(self.name.as_str());
        match self.kind {
            Kind::Struct => out.append(" extends Struct {\n"),
            Kind::Enum => out.append(" extends Enum {\n"),
        }
        self.write_class_lines(&mut out);
        out.append("}\n\n");
        assert(out@ =~= layout_class_text(self@));
        out
    }
}

/// The classes of all layouts, in order.
pub open spec fn all_classes(ls: Seq<LayoutModel>) -> Seq<char>
    decreases ls.len(),
{
    if ls.len() == 0 {
        Seq::empty()
    } else {
        all_classes(ls.drop_last()) + layout_class_text(ls.last())
    }
}

/// The schema entries of all layouts, in order.
pub open spec fn all_schemas(ls: Seq<LayoutModel>) -> Seq<char>
    decreases ls.len(),
{
    if ls.len() == 0 {
        Seq::empty()
    } else {
        all_schemas(ls.drop_last()) + layout_schema_text(ls.last())
    }
}

/// The generated TypeScript file: preamble, then every class, then the
/// schema map.
pub open spec fn output_text(ls: Seq<LayoutModel>) -> Seq<char> {
    LIB_PREAMBLE@ + all_classes(ls) + "export const SCHEMA = new Map<any, any>(["@ + all_schemas(ls)
        + "\n]);"@
}

pub open spec fn all_renderable(ls: Seq<LayoutModel>) -> bool {
    forall|i: int| 0 <= i < ls.len() ==> layout_renderable(#[trigger] ls[i])
}

/// Renders the layouts into the text of the generated TypeScript file.
pub fn render_output(layouts: &[Layout]) -> (r: String)
    requires
        all_renderable(layouts_view(layouts@)),
    ensures
        r@ == output_text(layouts_view(layouts@)),
{
    let ghost lv = layouts_view(layouts@);
    let mut classes = String::new();
    let mut schemas = String::new();
    let mut i: usize = 0;
    while i < layouts.len()
        invariant
            lv == layouts_view(layouts@),
            all_renderable(lv),
            i <= lv.len(),
            classes@ == all_classes(lv.subrange(0, i as int)),
            schemas@ == all_schemas(lv.subrange(0, i as int)),
        decreases lv.len() - i,
    {
        let l = &layouts[i];
        assert(lv[i as int] == l@);
        assert(lv.subrange(0, i + 1).drop_last() =~= lv.subrange(0, i as int));
        let c = l.to_ts_class();
        let s = l.to_borsh_schema();
        classes.append(c.as_str());
        schemas.append(s.as_str());
        i = i + 1;
    }
    assert(lv.subrange(0, lv.len() as int) =~= lv);
    let mut out = String::new();
    out.append(LIB_PREAMBLE);
    out.append(classes.as_str());
    out.append("export const SCHEMA = new Map<any, any>([");
    out.append(schemas.as_str());
    out.append("\n]);");
    assert(out@ =~= output_text(lv));
    out
}

} // verus!
