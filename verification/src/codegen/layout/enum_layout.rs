use vstd::prelude::*;

use crate::ast::{EnumDef, EnumPayload, enum_def_view, payload_view};
use crate::text::{owned, str_eq};

use crate::codegen::generic_layout::{align_up, contains_text, emit_error, message, text_views};
use super::{
    EnumFieldLayout, EnumLayout, EnumLayoutView, EnumVariantLayout, EnumVariantView, LayoutRegistry,
    NativeFieldView, NativeType, enum_field_layout_view, enum_layout_spec,
    enum_layout_view, enum_variant_layout_view, enum_variants_spec, lemma_native_fields_error_stable,
    native_fields_spec, payload_native_items,
};
use crate::codegen::native::NativeEmitError;

verus! {

pub open spec fn variant_views(variants: Seq<EnumVariantLayout>) -> Seq<EnumVariantView> {
    variants.map_values(|variant: EnumVariantLayout| enum_variant_layout_view(variant))
}

pub open spec fn enum_field_views(fields: Seq<EnumFieldLayout>) -> Seq<NativeFieldView> {
    fields.map_values(|field: EnumFieldLayout| enum_field_layout_view(field))
}

/// The payload fields of a variant, each with its name (if it has one) and type name.
pub fn enum_payload_types(payload: &EnumPayload) -> (types: Vec<(Option<String>, String)>)
    ensures
        types@.len() == payload_native_items(payload_view(*payload)).len(),
        forall|i: int|
            0 <= i < types@.len() ==> {
                let item = payload_native_items(payload_view(*payload))[i];
                &&& crate::codegen::generic_layout::option_text_view((#[trigger] types@[i]).0) == item.name
                &&& types@[i].1@ == item.ty
            },
{
    let mut types: Vec<(Option<String>, String)> = Vec::new();
    match payload {
        EnumPayload::Unit => {},
        EnumPayload::Tuple(items) => {
            let mut index: usize = 0;
            while index < items.len()
                invariant
                    index <= items@.len(),
                    types@.len() == index,
                    forall|j: int| 0 <= j < index ==> (#[trigger] types@[j]).0 is None && types@[j].1@ == items@[j].name@,
                decreases items@.len() - index,
            {
                types.push((None, items[index].name.clone()));
                index = index + 1;
            }
        },
        EnumPayload::Struct(fields) => {
            let mut index: usize = 0;
            while index < fields.len()
                invariant
                    index <= fields@.len(),
                    types@.len() == index,
                    forall|j: int| 0 <= j < index ==> (#[trigger] types@[j]).0 == Some(fields@[j].name) && types@[j].1@
                        == fields@[j].ty.name@,
                decreases fields@.len() - index,
            {
                types.push((Some(fields[index].name.clone()), fields[index].ty.name.clone()));
                index = index + 1;
            }
        },
    }
    types
}

impl LayoutRegistry {
    fn layout_enum_variants(
        &self,
        definition: &EnumDef,
        visiting: &mut Vec<String>,
        fuel: usize,
    ) -> (result: Result<(u32, u32, Vec<EnumVariantLayout>), NativeEmitError>)
        requires
            fuel > 0,
        ensures
            final(visiting)@ == old(visiting)@,
            match result {
                Ok((size, alignment, variants)) => enum_variants_spec(
                    self.spec_definitions(),
                    enum_def_view(*definition),
                    text_views(old(visiting)@),
                    fuel as nat,
                    definition.variants@.len() as nat,
                ) == Ok::<(u32, u32, Seq<EnumVariantView>), Seq<char>>((size, alignment, variant_views(variants@))),
                Err(error) => enum_variants_spec(
                    self.spec_definitions(),
                    enum_def_view(*definition),
                    text_views(old(visiting)@),
                    fuel as nat,
                    definition.variants@.len() as nat,
                ) == Err::<(u32, u32, Seq<EnumVariantView>), Seq<char>>(error.spec_message()),
            },
        decreases fuel, 1nat,
    {
        let ghost view = enum_def_view(*definition);
        let ghost definitions = self.spec_definitions();
        let ghost seen = text_views(visiting@);
        let mut variants: Vec<EnumVariantLayout> = Vec::new();
        let mut max_payload_size: u32 = 0;
        let mut max_alignment: u32 = 1;
        let mut index: usize = 0;
        assert(variant_views(variants@) =~= Seq::<EnumVariantView>::empty());
        while index < definition.variants.len()
            invariant
                fuel > 0,
                view == enum_def_view(*definition),
                view.variants.len() == definition.variants@.len(),
                definitions == self.spec_definitions(),
                seen == text_views(visiting@),
                visiting@ == old(visiting)@,
                index <= definition.variants@.len(),
                enum_variants_spec(definitions, view, seen, fuel as nat, index as nat) == Ok::<
                    (u32, u32, Seq<EnumVariantView>),
                    Seq<char>,
                >((max_payload_size, max_alignment, variant_views(variants@))),
            decreases definition.variants@.len() - index,
        {
            let variant = &definition.variants[index];
            proof {
                assert(view.variants[index as int] == crate::ast::enum_variant_view(*variant));
            }
            let ghost items = payload_native_items(payload_view(variant.payload));
            let types = enum_payload_types(&variant.payload);
            let mut fields: Vec<EnumFieldLayout> = Vec::new();
            let mut offset: u32 = 0;
            let mut alignment: u32 = 1;
            let mut field_index: usize = 0;
            assert(enum_field_views(fields@) =~= Seq::<NativeFieldView>::empty());
            while field_index < types.len()
                invariant
                    fuel > 0,
                    items == payload_native_items(payload_view(variant.payload)),
                    types@.len() == items.len(),
                    forall|i: int|
                        0 <= i < types@.len() ==> {
                            &&& crate::codegen::generic_layout::option_text_view((#[trigger] types@[i]).0) == items[i].name
                            &&& types@[i].1@ == items[i].ty
                        },
                    definitions == self.spec_definitions(),
                    seen == text_views(visiting@),
                    visiting@ == old(visiting)@,
                    view == enum_def_view(*definition),
                    view.variants.len() == definition.variants@.len(),
                    index < definition.variants@.len(),
                    view.variants[index as int] == crate::ast::enum_variant_view(*variant),
                    enum_variants_spec(definitions, view, seen, fuel as nat, index as nat) == Ok::<
                        (u32, u32, Seq<EnumVariantView>),
                        Seq<char>,
                    >((max_payload_size, max_alignment, variant_views(variants@))),
                    field_index <= types@.len(),
                    native_fields_spec(definitions, items, seen, definition.name@, fuel as nat, field_index as nat)
                        == Ok::<(u32, u32, Seq<NativeFieldView>), Seq<char>>((offset, alignment, enum_field_views(fields@))),
                decreases types@.len() - field_index,
            {
                let ghost before = enum_field_views(fields@);
                match self.place_native_field(&types[field_index].1, visiting, &definition.name, fuel, offset, alignment) {
                    Ok((start, ty, end, widest)) => {
                        let name = match &types[field_index].0 {
                            Some(name) => Some(name.clone()),
                            None => None,
                        };
                        fields.push(EnumFieldLayout { name, offset: start, ty });
                        proof {
                            assert(enum_field_views(fields@) =~= before.push(
                                NativeFieldView { name: items[field_index as int].name, offset: start, ty },
                            ));
                        }
                        offset = end;
                        alignment = widest;
                    },
                    Err(error) => {
                        proof {
                            lemma_native_fields_error_stable(definitions, items, seen, definition.name@, fuel as nat, (field_index + 1) as nat, items.len());
                            lemma_enum_variants_error_stable(definitions, view, seen, fuel as nat, (index + 1) as nat, view.variants.len());
                        }
                        return Err(error);
                    },
                }
                field_index = field_index + 1;
            }
            let payload_size = match align_up(offset, alignment) {
                Some(size) => size,
                None => {
                    proof {
                        lemma_enum_variants_error_stable(definitions, view, seen, fuel as nat, (index + 1) as nat, view.variants.len());
                    }
                    return Err(message("layout for `", definition.name.as_str(), "` does not fit in 32 bits"));
                },
            };
            if index > 4294967295usize {
                proof {
                    lemma_enum_variants_error_stable(definitions, view, seen, fuel as nat, (index + 1) as nat, view.variants.len());
                }
                return Err(emit_error(owned("enum has too many variants")));
            }
            let ghost before = variant_views(variants@);
            variants.push(EnumVariantLayout { name: variant.name.clone(), discriminant: index as u32, fields });
            proof {
                assert(variant_views(variants@) =~= before.push(enum_variant_layout_view(variants@.last())));
            }
            if payload_size > max_payload_size {
                max_payload_size = payload_size;
            }
            if alignment > max_alignment {
                max_alignment = alignment;
            }
            index = index + 1;
        }
        Ok((max_payload_size, max_alignment, variants))
    }

    pub(crate) fn layout_enum_at(&self, index: usize, visiting: &mut Vec<String>, fuel: usize) -> (result: Result<EnumLayout, NativeEmitError>)
        ensures
            final(visiting)@ == old(visiting)@,
            match result {
                Ok(layout) => enum_layout_spec(self.spec_definitions(), index as nat, text_views(old(visiting)@), fuel as nat)
                    == Ok::<EnumLayoutView, Seq<char>>(enum_layout_view(layout)),
                Err(error) => enum_layout_spec(self.spec_definitions(), index as nat, text_views(old(visiting)@), fuel as nat)
                    == Err::<EnumLayoutView, Seq<char>>(error.spec_message()),
            },
        decreases fuel, 2nat,
    {
        if index >= self.enum_definitions.len() {
            return Err(emit_error(owned("missing layout type")));
        }
        let definition = &self.enum_definitions[index];
        proof {
            assert(self.spec_definitions().enums[index as int] == enum_def_view(*definition));
        }
        if contains_text(visiting, &definition.name) {
            return Err(message("recursive enum layout for `", definition.name.as_str(), "` is not supported"));
        }
        if fuel == 0 {
            return Err(message("layout for `", definition.name.as_str(), "` nests too deeply"));
        }
        visiting.push(definition.name.clone());
        proof {
            assert(text_views(visiting@) =~= text_views(old(visiting)@).push(definition.name@));
        }
        let variants = self.layout_enum_variants(definition, visiting, fuel);
        visiting.pop();
        proof {
            assert(visiting@ =~= old(visiting)@);
        }
        let (max_payload_size, max_alignment, variants) = match variants {
            Ok(state) => state,
            Err(error) => {
                return Err(error);
            },
        };
        let payload_offset = match align_up(4, max_alignment) {
            Some(offset) => offset,
            None => {
                return Err(message("layout for `", definition.name.as_str(), "` does not fit in 32 bits"));
            },
        };
        let alignment = if max_alignment > 4 { max_alignment } else { 4 };
        let end = match payload_offset.checked_add(max_payload_size) {
            Some(end) => end,
            None => {
                return Err(message("layout for `", definition.name.as_str(), "` does not fit in 32 bits"));
            },
        };
        let size = match align_up(end, alignment) {
            Some(size) => size,
            None => {
                return Err(message("layout for `", definition.name.as_str(), "` does not fit in 32 bits"));
            },
        };
        Ok(EnumLayout { size, alignment, discriminant_offset: 0, payload_offset, max_payload_size, variants })
    }

    /// The id of the enum named `name`.
    pub fn enum_id_for(&self, name: &str) -> (id: Option<usize>)
        ensures
            match id {
                Some(i) => i == crate::codegen::generic_layout::find_enum(self.spec_definitions().enums, name@),
                None => crate::codegen::generic_layout::find_enum(self.spec_definitions().enums, name@) == -1,
            },
    {
        crate::codegen::generic_layout::find_enum_index(&self.enum_definitions, &owned(name))
    }

    /// The layout of the enum with id `id`.
    pub fn enum_layout(&self, id: usize) -> (layout: Option<&EnumLayout>)
        requires
            self.wf(),
        ensures
            match layout {
                Some(layout) => id < self.enum_layouts().len() && enum_layout_view(*layout) == self.enum_layouts()[id as int],
                None => id >= self.enum_layouts().len(),
            },
    {
        if id < self.enum_layouts.len() {
            Some(&self.enum_layouts[id])
        } else {
            None
        }
    }

    /// The first variant named `variant` of the enum with id `enum_id`.
    pub fn enum_variant(&self, enum_id: usize, variant: &str) -> (found: Option<&EnumVariantLayout>)
        requires
            self.wf(),
        ensures
            match found {
                Some(found) => enum_id < self.enum_layouts().len() && {
                    let variants = self.enum_layouts()[enum_id as int].variants;
                    let i = first_variant(variants, variant@);
                    0 <= i < variants.len() && enum_variant_layout_view(*found) == variants[i]
                },
                None => enum_id >= self.enum_layouts().len() || first_variant(
                    self.enum_layouts()[enum_id as int].variants,
                    variant@,
                ) == -1,
            },
    {
        let layout = match self.enum_layout(enum_id) {
            Some(layout) => layout,
            None => {
                return None;
            },
        };
        let ghost variants = self.enum_layouts()[enum_id as int].variants;
        let mut index: usize = 0;
        while index < layout.variants.len()
            invariant
                enum_id < self.enum_layouts().len(),
                variants == self.enum_layouts()[enum_id as int].variants,
                variants == enum_layout_view(*layout).variants,
                index <= layout.variants@.len(),
                first_variant(variants, variant@) == -1 || index <= first_variant(variants, variant@),
                forall|j: int| 0 <= j < index ==> variants[j].name != variant@,
            decreases layout.variants@.len() - index,
        {
            proof {
                assert(variants[index as int] == enum_variant_layout_view(layout.variants@[index as int]));
            }
            if str_eq(layout.variants[index].name.as_str(), variant) {
                proof {
                    lemma_first_variant_at(variants, variant@, index as int);
                }
                return Some(&layout.variants[index]);
            }
            proof {
                lemma_first_variant_bounds(variants, variant@);
            }
            index = index + 1;
        }
        proof {
            lemma_first_variant_bounds(variants, variant@);
        }
        None
    }

    /// The enum named `receiver` and its first variant named `variant`.
    pub fn enum_constructor(&self, receiver: &str, variant: &str) -> (found: Option<(usize, &EnumVariantLayout)>)
        requires
            self.wf(),
        ensures
            match found {
                Some((id, layout)) => {
                    &&& id == crate::codegen::generic_layout::find_enum(self.spec_definitions().enums, receiver@)
                    &&& id < self.enum_layouts().len()
                    &&& {
                        let variants = self.enum_layouts()[id as int].variants;
                        let i = first_variant(variants, variant@);
                        0 <= i < variants.len() && enum_variant_layout_view(*layout) == variants[i]
                    }
                },
                None => {
                    let id = crate::codegen::generic_layout::find_enum(self.spec_definitions().enums, receiver@);
                    id < 0 || id >= self.enum_layouts().len() || first_variant(self.enum_layouts()[id].variants, variant@) == -1
                },
            },
    {
        let id = match self.enum_id_for(receiver) {
            Some(id) => id,
            None => {
                return None;
            },
        };
        match self.enum_variant(id, variant) {
            Some(layout) => Some((id, layout)),
            None => None,
        }
    }

    /// The size of a value of native type `ty`.
    pub fn type_size(&self, ty: NativeType) -> (size: Option<u32>)
        requires
            self.wf(),
        ensures
            size == match ty {
                NativeType::Struct(id) => if id < self.struct_layouts().len() {
                    Some(self.struct_layouts()[id as int].size)
                } else {
                    None
                },
                NativeType::Enum(id) => if id < self.enum_layouts().len() {
                    Some(self.enum_layouts()[id as int].size)
                } else {
                    None
                },
                NativeType::Int => Some(4u32),
                NativeType::String | NativeType::Buffer => Some(self.spec_definitions().pointer_size),
            },
    {
        match ty {
            NativeType::Struct(id) => match self.get(id) {
                Some(layout) => Some(layout.size),
                None => None,
            },
            NativeType::Enum(id) => match self.enum_layout(id) {
                Some(layout) => Some(layout.size),
                None => None,
            },
            NativeType::Int => Some(4),
            NativeType::String | NativeType::Buffer => Some(self.pointer_size),
        }
    }
}

/// The position of the first variant named `name`, or -1.
pub open spec fn first_variant(variants: Seq<EnumVariantView>, name: Seq<char>) -> int
    decreases variants.len(),
{
    if variants.len() == 0 {
        -1
    } else if variants[0].name == name {
        0
    } else if first_variant(variants.drop_first(), name) < 0 {
        -1
    } else {
        first_variant(variants.drop_first(), name) + 1
    }
}

proof fn lemma_first_variant_bounds(variants: Seq<EnumVariantView>, name: Seq<char>)
    ensures
        -1 <= first_variant(variants, name) < variants.len(),
        first_variant(variants, name) >= 0 ==> variants[first_variant(variants, name)].name == name,
        forall|j: int| 0 <= j < first_variant(variants, name) ==> variants[j].name != name,
        first_variant(variants, name) == -1 ==> forall|j: int| 0 <= j < variants.len() ==> variants[j].name != name,
    decreases variants.len(),
{
    if variants.len() > 0 {
        lemma_first_variant_bounds(variants.drop_first(), name);
        assert forall|j: int| 0 < j < variants.len() implies variants.drop_first()[j - 1] == variants[j] by {}
    }
}

proof fn lemma_first_variant_at(variants: Seq<EnumVariantView>, name: Seq<char>, index: int)
    requires
        0 <= index < variants.len(),
        variants[index].name == name,
        forall|j: int| 0 <= j < index ==> variants[j].name != name,
    ensures
        first_variant(variants, name) == index,
    decreases index,
{
    if index > 0 {
        assert forall|j: int| 0 <= j < index - 1 implies variants.drop_first()[j].name != name by {
            assert(variants.drop_first()[j] == variants[j + 1]);
        }
        lemma_first_variant_at(variants.drop_first(), name, index - 1);
    }
}

/// An error at an early variant stays the error when more variants follow.
pub proof fn lemma_enum_variants_error_stable(
    definitions: crate::codegen::generic_layout::Definitions,
    definition: crate::ast::EnumDefView,
    visiting: Seq<Seq<char>>,
    fuel: nat,
    count: nat,
    end: nat,
)
    requires
        count <= end <= definition.variants.len(),
        enum_variants_spec(definitions, definition, visiting, fuel, count) is Err,
    ensures
        enum_variants_spec(definitions, definition, visiting, fuel, end) == enum_variants_spec(
            definitions,
            definition,
            visiting,
            fuel,
            count,
        ),
    decreases end - count,
{
    if end > count {
        lemma_enum_variants_error_stable(definitions, definition, visiting, fuel, count, (end - 1) as nat);
    }
}

} // verus!
