use vstd::prelude::*;

use crate::ast::{
    BuiltinType, EnumDef, EnumDefView, PayloadView, Program, StructDef, StructDefView,
    enum_def_view, enum_def_views, lookup_builtin_type, spec_lookup_builtin_type,
    struct_def_view, struct_def_views,
};

use super::generic_layout::{
    Definitions, align_up, contains_text, declared_enums, declared_structs, find_enum,
    find_enum_index, find_struct, find_struct_index, max_u32, message, spec_align_up, text_views,
};
use super::native::NativeEmitError;

pub mod enum_layout;

verus! {

/// How a value is represented in native code.
#[derive(Clone, Copy, Debug, PartialEq, Eq, Structural)]
pub enum NativeType {
    Int,
    String,
    Buffer,
    Struct(usize),
    Enum(usize),
}

/// Where a field of a struct lies.
#[derive(Clone, Debug)]
pub struct FieldLayout {
    pub name: String,
    pub offset: u32,
    pub ty: NativeType,
}

#[derive(Clone, Debug)]
pub struct StructLayout {
    pub size: u32,
    pub alignment: u32,
    pub fields: Vec<FieldLayout>,
}

/// A laid-out field: its name if it has one, its offset and its type.
pub struct NativeFieldView {
    pub name: Option<Seq<char>>,
    pub offset: u32,
    pub ty: NativeType,
}

pub struct StructLayoutView {
    pub size: u32,
    pub alignment: u32,
    pub fields: Seq<NativeFieldView>,
}

pub open spec fn native_field_view(field: FieldLayout) -> NativeFieldView {
    NativeFieldView { name: Some(field.name@), offset: field.offset, ty: field.ty }
}

pub open spec fn struct_layout_view(layout: StructLayout) -> StructLayoutView {
    StructLayoutView {
        size: layout.size,
        alignment: layout.alignment,
        fields: layout.fields@.map_values(|field: FieldLayout| native_field_view(field)),
    }
}

/// A field to lay out: its name if it has one, and the name of its type.
pub struct NativeItem {
    pub name: Option<Seq<char>>,
    pub ty: Seq<char>,
}

pub open spec fn struct_native_items(definition: StructDefView) -> Seq<NativeItem> {
    definition.fields.map_values(
        |field: crate::ast::StructFieldView| NativeItem { name: Some(field.name), ty: field.ty.name },
    )
}

pub open spec fn payload_native_items(payload: PayloadView) -> Seq<NativeItem> {
    match payload {
        PayloadView::Unit => Seq::empty(),
        PayloadView::Tuple(types) => types.map_values(
            |ty: crate::ast::TypeView| NativeItem { name: None, ty: ty.name },
        ),
        PayloadView::Struct(fields) => fields.map_values(
            |field: crate::ast::EnumFieldView| NativeItem { name: Some(field.name), ty: field.ty.name },
        ),
    }
}

pub open spec fn recursive_struct_message(name: Seq<char>) -> Seq<char> {
    "recursive struct layout for `"@ + name + "` is not supported"@
}

pub open spec fn recursive_enum_message(name: Seq<char>) -> Seq<char> {
    "recursive enum layout for `"@ + name + "` is not supported"@
}

pub open spec fn nests_too_deeply_message(name: Seq<char>) -> Seq<char> {
    "layout for `"@ + name + "` nests too deeply"@
}

pub open spec fn too_large_message(name: Seq<char>) -> Seq<char> {
    "layout for `"@ + name + "` does not fit in 32 bits"@
}

/// The native type, size and alignment of the type named `name`: a built-in type, else the
/// last struct of that name, else the last enum of that name.
pub open spec fn native_layout_spec(
    definitions: Definitions,
    name: Seq<char>,
    visiting: Seq<Seq<char>>,
    fuel: nat,
) -> Result<(NativeType, u32, u32), Seq<char>>
    decreases fuel, 3nat, 0nat,
{
    match spec_lookup_builtin_type(name) {
        Some(BuiltinType::Int) | Some(BuiltinType::Bool) => Ok((NativeType::Int, 4u32, 4u32)),
        Some(BuiltinType::String) => Ok((NativeType::String, definitions.pointer_size, definitions.pointer_size)),
        Some(BuiltinType::Buffer) => Ok((NativeType::Buffer, definitions.pointer_size, definitions.pointer_size)),
        Some(_) => Err("unsupported layout type `"@ + name + "`"@),
        None => {
            let s = find_struct(definitions.structs, name);
            let e = find_enum(definitions.enums, name);
            if 0 <= s < definitions.structs.len() {
                match struct_layout_spec(definitions, s as nat, visiting, fuel) {
                    Ok(layout) => Ok((NativeType::Struct(s as usize), layout.size, layout.alignment)),
                    Err(error) => Err(error),
                }
            } else if 0 <= e < definitions.enums.len() {
                match enum_layout_spec(definitions, e as nat, visiting, fuel) {
                    Ok(layout) => Ok((NativeType::Enum(e as usize), layout.size, layout.alignment)),
                    Err(error) => Err(error),
                }
            } else {
                Err("unknown layout type `"@ + name + "`"@)
            }
        },
    }
}

/// Lays out the first `count` items one after another, each at the next offset its alignment
/// allows: the end offset, the largest alignment (at least 1), and the fields.
pub open spec fn native_fields_spec(
    definitions: Definitions,
    items: Seq<NativeItem>,
    visiting: Seq<Seq<char>>,
    owner: Seq<char>,
    fuel: nat,
    count: nat,
) -> Result<(u32, u32, Seq<NativeFieldView>), Seq<char>>
    decreases fuel, 0nat, count,
{
    if count == 0 || count > items.len() {
        Ok((0u32, 1u32, Seq::empty()))
    } else {
        match native_fields_spec(definitions, items, visiting, owner, fuel, (count - 1) as nat) {
            Err(error) => Err(error),
            Ok((offset, alignment, fields)) => {
                let item = items[count - 1];
                if fuel == 0 {
                    Err(nests_too_deeply_message(owner))
                } else {
                    match native_layout_spec(definitions, item.ty, visiting, (fuel - 1) as nat) {
                        Err(error) => Err(error),
                        Ok((ty, size, field_alignment)) => match spec_align_up(offset, field_alignment) {
                            None => Err(too_large_message(owner)),
                            Some(start) => if start + size > u32::MAX {
                                Err(too_large_message(owner))
                            } else {
                                Ok(
                                    (
                                        (start + size) as u32,
                                        max_u32(alignment, field_alignment),
                                        fields.push(NativeFieldView { name: item.name, offset: start, ty }),
                                    ),
                                )
                            },
                        },
                    }
                }
            },
        }
    }
}

/// The layout of the struct at position `index`: fields in declaration order at their natural
/// offsets, the size rounded up to the largest field alignment.
pub open spec fn struct_layout_spec(
    definitions: Definitions,
    index: nat,
    visiting: Seq<Seq<char>>,
    fuel: nat,
) -> Result<StructLayoutView, Seq<char>>
    decreases fuel, 2nat, 0nat,
{
    if index >= definitions.structs.len() {
        Err("missing layout type"@)
    } else {
        let definition = definitions.structs[index as int];
        if visiting.contains(definition.name) {
            Err(recursive_struct_message(definition.name))
        } else if fuel == 0 {
            Err(nests_too_deeply_message(definition.name))
        } else {
            let items = struct_native_items(definition);
            match native_fields_spec(
                definitions,
                items,
                visiting.push(definition.name),
                definition.name,
                fuel,
                items.len(),
            ) {
                Err(error) => Err(error),
                Ok((offset, alignment, fields)) => match spec_align_up(offset, alignment) {
                    None => Err(too_large_message(definition.name)),
                    Some(size) => Ok(StructLayoutView { size, alignment, fields }),
                },
            }
        }
    }
}

} // verus!

verus! {

/// Where a payload field of an enum variant lies, relative to the payload.
#[derive(Clone, Debug)]
pub struct EnumFieldLayout {
    pub name: Option<String>,
    pub offset: u32,
    pub ty: NativeType,
}

#[derive(Clone, Debug)]
pub struct EnumVariantLayout {
    pub name: String,
    pub discriminant: u32,
    pub fields: Vec<EnumFieldLayout>,
}

/// A 4-byte discriminant at `discriminant_offset`, then the payload at `payload_offset`.
#[derive(Clone, Debug)]
pub struct EnumLayout {
    pub size: u32,
    pub alignment: u32,
    pub discriminant_offset: u32,
    pub payload_offset: u32,
    pub max_payload_size: u32,
    pub variants: Vec<EnumVariantLayout>,
}

pub struct EnumVariantView {
    pub name: Seq<char>,
    pub discriminant: u32,
    pub fields: Seq<NativeFieldView>,
}

pub struct EnumLayoutView {
    pub size: u32,
    pub alignment: u32,
    pub discriminant_offset: u32,
    pub payload_offset: u32,
    pub max_payload_size: u32,
    pub variants: Seq<EnumVariantView>,
}

pub open spec fn enum_field_layout_view(field: EnumFieldLayout) -> NativeFieldView {
    NativeFieldView {
        name: super::generic_layout::option_text_view(field.name),
        offset: field.offset,
        ty: field.ty,
    }
}

pub open spec fn enum_variant_layout_view(variant: EnumVariantLayout) -> EnumVariantView {
    EnumVariantView {
        name: variant.name@,
        discriminant: variant.discriminant,
        fields: variant.fields@.map_values(|field: EnumFieldLayout| enum_field_layout_view(field)),
    }
}

pub open spec fn enum_layout_view(layout: EnumLayout) -> EnumLayoutView {
    EnumLayoutView {
        size: layout.size,
        alignment: layout.alignment,
        discriminant_offset: layout.discriminant_offset,
        payload_offset: layout.payload_offset,
        max_payload_size: layout.max_payload_size,
        variants: layout.variants@.map_values(|variant: EnumVariantLayout| enum_variant_layout_view(variant)),
    }
}

/// The payload layouts of the first `count` variants of an enum: the largest payload size, the
/// largest payload alignment (at least 1), and the variants numbered from 0.
pub open spec fn enum_variants_spec(
    definitions: Definitions,
    definition: EnumDefView,
    visiting: Seq<Seq<char>>,
    fuel: nat,
    count: nat,
) -> Result<(u32, u32, Seq<EnumVariantView>), Seq<char>>
    decreases fuel, 1nat, count,
{
    if count == 0 || count > definition.variants.len() {
        Ok((0u32, 1u32, Seq::empty()))
    } else {
        match enum_variants_spec(definitions, definition, visiting, fuel, (count - 1) as nat) {
            Err(error) => Err(error),
            Ok((max_size, max_alignment, variants)) => {
                let variant = definition.variants[count - 1];
                let items = payload_native_items(variant.payload);
                match native_fields_spec(definitions, items, visiting, definition.name, fuel, items.len()) {
                    Err(error) => Err(error),
                    Ok((offset, alignment, fields)) => match spec_align_up(offset, alignment) {
                        None => Err(too_large_message(definition.name)),
                        Some(payload_size) => if count - 1 > u32::MAX {
                            Err("enum has too many variants"@)
                        } else {
                            Ok(
                                (
                                    max_u32(max_size, payload_size),
                                    max_u32(max_alignment, alignment),
                                    variants.push(
                                        EnumVariantView { name: variant.name, discriminant: (count - 1) as u32, fields },
                                    ),
                                ),
                            )
                        },
                    },
                }
            },
        }
    }
}

/// The layout of the enum at position `index`.
pub open spec fn enum_layout_spec(
    definitions: Definitions,
    index: nat,
    visiting: Seq<Seq<char>>,
    fuel: nat,
) -> Result<EnumLayoutView, Seq<char>>
    decreases fuel, 2nat, 0nat,
{
    if index >= definitions.enums.len() {
        Err("missing layout type"@)
    } else {
        let definition = definitions.enums[index as int];
        if visiting.contains(definition.name) {
            Err(recursive_enum_message(definition.name))
        } else if fuel == 0 {
            Err(nests_too_deeply_message(definition.name))
        } else {
            match enum_variants_spec(
                definitions,
                definition,
                visiting.push(definition.name),
                fuel,
                definition.variants.len(),
            ) {
                Err(error) => Err(error),
                Ok((max_payload_size, max_alignment, variants)) => match spec_align_up(4, max_alignment) {
                    None => Err(too_large_message(definition.name)),
                    Some(payload_offset) => {
                        let alignment = max_u32(4, max_alignment);
                        if payload_offset + max_payload_size > u32::MAX {
                            Err(too_large_message(definition.name))
                        } else {
                            match spec_align_up((payload_offset + max_payload_size) as u32, alignment) {
                                None => Err(too_large_message(definition.name)),
                                Some(size) => Ok(
                                    EnumLayoutView {
                                        size,
                                        alignment,
                                        discriminant_offset: 0,
                                        payload_offset,
                                        max_payload_size,
                                        variants,
                                    },
                                ),
                            }
                        }
                    },
                },
            }
        }
    }
}

} // verus!

verus! {

/// How deep plain layouts may nest: one level per definition and one more. A layout that does
/// not recurse visits each definition at most once on any path, so it never runs out.
pub open spec fn plain_fuel(definitions: Definitions) -> nat {
    if definitions.structs.len() + definitions.enums.len() + 1 <= usize::MAX {
        (definitions.structs.len() + definitions.enums.len() + 1) as nat
    } else {
        usize::MAX as nat
    }
}

/// The layouts of the first `count` structs, each computed on its own.
pub open spec fn struct_layouts_spec(definitions: Definitions, count: nat) -> Result<Seq<StructLayoutView>, Seq<char>>
    decreases count,
{
    if count == 0 {
        Ok(Seq::empty())
    } else {
        match struct_layouts_spec(definitions, (count - 1) as nat) {
            Err(error) => Err(error),
            Ok(done) => match struct_layout_spec(
                definitions,
                (count - 1) as nat,
                Seq::empty(),
                plain_fuel(definitions),
            ) {
                Err(error) => Err(error),
                Ok(layout) => Ok(done.push(layout)),
            },
        }
    }
}

/// The layouts of the first `count` enums, each computed on its own.
pub open spec fn enum_layouts_spec(definitions: Definitions, count: nat) -> Result<Seq<EnumLayoutView>, Seq<char>>
    decreases count,
{
    if count == 0 {
        Ok(Seq::empty())
    } else {
        match enum_layouts_spec(definitions, (count - 1) as nat) {
            Err(error) => Err(error),
            Ok(done) => match enum_layout_spec(
                definitions,
                (count - 1) as nat,
                Seq::empty(),
                plain_fuel(definitions),
            ) {
                Err(error) => Err(error),
                Ok(layout) => Ok(done.push(layout)),
            },
        }
    }
}

/// What a non-generic program's types are laid out against: its structs and its enums.
pub open spec fn native_definitions(program: Program, pointer_size: u32) -> Definitions {
    Definitions {
        structs: declared_structs(program.declarations@),
        enums: declared_enums(program.declarations@),
        pointer_size,
    }
}

/// The layouts of the structs and enums of a program, each found by its id: its position
/// among the program's structs, or among its enums.
pub struct LayoutRegistry {
    pub pointer_size: u32,
    definitions: Vec<StructDef>,
    layouts: Vec<StructLayout>,
    enum_definitions: Vec<EnumDef>,
    enum_layouts: Vec<EnumLayout>,
}

impl LayoutRegistry {
    pub closed spec fn spec_definitions(&self) -> Definitions {
        Definitions {
            structs: struct_def_views(self.definitions@),
            enums: enum_def_views(self.enum_definitions@),
            pointer_size: self.pointer_size,
        }
    }

    /// The struct layouts, by id.
    pub closed spec fn struct_layouts(&self) -> Seq<StructLayoutView> {
        self.layouts@.map_values(|layout: StructLayout| struct_layout_view(layout))
    }

    /// The enum layouts, by id.
    pub closed spec fn enum_layouts(&self) -> Seq<EnumLayoutView> {
        self.enum_layouts@.map_values(|layout: EnumLayout| enum_layout_view(layout))
    }

    /// Every struct and every enum is laid out, at its own position.
    pub closed spec fn wf(&self) -> bool {
        &&& self.layouts@.len() == self.definitions@.len()
        &&& self.enum_layouts@.len() == self.enum_definitions@.len()
        &&& struct_layouts_spec(self.spec_definitions(), self.definitions@.len() as nat) == Ok::<
            Seq<StructLayoutView>,
            Seq<char>,
        >(self.struct_layouts())
        &&& enum_layouts_spec(self.spec_definitions(), self.enum_definitions@.len() as nat) == Ok::<
            Seq<EnumLayoutView>,
            Seq<char>,
        >(self.enum_layouts())
    }

    /// Places the field of type `ty_name` after the fields laid out so far.
    fn place_native_field(
        &self,
        ty_name: &String,
        visiting: &mut Vec<String>,
        owner: &String,
        fuel: usize,
        offset: u32,
        alignment: u32,
    ) -> (result: Result<(u32, NativeType, u32, u32), NativeEmitError>)
        requires
            fuel > 0,
        ensures
            final(visiting)@ == old(visiting)@,
            match native_layout_spec(self.spec_definitions(), ty_name@, text_views(old(visiting)@), (fuel - 1) as nat) {
                Err(error) => result matches Err(e) && e.spec_message() == error,
                Ok((ty, size, field_alignment)) => match spec_align_up(offset, field_alignment) {
                    None => result matches Err(e) && e.spec_message() == too_large_message(owner@),
                    Some(start) => if start + size > u32::MAX {
                        result matches Err(e) && e.spec_message() == too_large_message(owner@)
                    } else {
                        result == Ok::<(u32, NativeType, u32, u32), NativeEmitError>(
                            (start, ty, (start + size) as u32, max_u32(alignment, field_alignment)),
                        )
                    },
                },
            },
        decreases fuel, 0nat,
    {
        let (ty, size, field_alignment) = match self.native_layout(ty_name, visiting, fuel - 1) {
            Ok(layout) => layout,
            Err(error) => {
                return Err(error);
            },
        };
        let start = match align_up(offset, field_alignment) {
            Some(start) => start,
            None => {
                return Err(message("layout for `", owner.as_str(), "` does not fit in 32 bits"));
            },
        };
        let end = match start.checked_add(size) {
            Some(end) => end,
            None => {
                return Err(message("layout for `", owner.as_str(), "` does not fit in 32 bits"));
            },
        };
        let widest = if alignment >= field_alignment { alignment } else { field_alignment };
        Ok((start, ty, end, widest))
    }

    /// The native type, size and alignment of the type named `name`.
    fn native_layout(&self, name: &String, visiting: &mut Vec<String>, fuel: usize) -> (result: Result<(NativeType, u32, u32), NativeEmitError>)
        ensures
            final(visiting)@ == old(visiting)@,
            super::generic_layout::outcome(result) == native_layout_spec(
                self.spec_definitions(),
                name@,
                text_views(old(visiting)@),
                fuel as nat,
            ),
        decreases fuel, 3nat,
    {
        proof {
            assert(self.spec_definitions().structs.len() == self.definitions@.len());
            assert(self.spec_definitions().enums.len() == self.enum_definitions@.len());
        }
        if let Some(builtin) = lookup_builtin_type(name.as_str()) {
            return match builtin {
                BuiltinType::Int | BuiltinType::Bool => Ok((NativeType::Int, 4, 4)),
                BuiltinType::String => Ok((NativeType::String, self.pointer_size, self.pointer_size)),
                BuiltinType::Buffer => Ok((NativeType::Buffer, self.pointer_size, self.pointer_size)),
                BuiltinType::Array | BuiltinType::MapType => Err(
                    message("unsupported layout type `", name.as_str(), "`"),
                ),
            };
        }
        if let Some(index) = find_struct_index(&self.definitions, name) {
            return match self.layout_struct_at(index, visiting, fuel) {
                Ok(layout) => Ok((NativeType::Struct(index), layout.size, layout.alignment)),
                Err(error) => Err(error),
            };
        }
        if let Some(index) = find_enum_index(&self.enum_definitions, name) {
            return match self.layout_enum_at(index, visiting, fuel) {
                Ok(layout) => Ok((NativeType::Enum(index), layout.size, layout.alignment)),
                Err(error) => Err(error),
            };
        }
        Err(message("unknown layout type `", name.as_str(), "`"))
    }

    fn layout_struct_at(&self, index: usize, visiting: &mut Vec<String>, fuel: usize) -> (result: Result<StructLayout, NativeEmitError>)
        ensures
            final(visiting)@ == old(visiting)@,
            match result {
                Ok(layout) => struct_layout_spec(self.spec_definitions(), index as nat, text_views(old(visiting)@), fuel as nat)
                    == Ok::<StructLayoutView, Seq<char>>(struct_layout_view(layout)),
                Err(error) => struct_layout_spec(self.spec_definitions(), index as nat, text_views(old(visiting)@), fuel as nat)
                    == Err::<StructLayoutView, Seq<char>>(error.spec_message()),
            },
        decreases fuel, 2nat,
    {
        if index >= self.definitions.len() {
            return Err(super::generic_layout::emit_error(crate::text::owned("missing layout type")));
        }
        let definition = &self.definitions[index];
        proof {
            assert(self.spec_definitions().structs[index as int] == struct_def_view(*definition));
        }
        if contains_text(visiting, &definition.name) {
            return Err(message("recursive struct layout for `", definition.name.as_str(), "` is not supported"));
        }
        if fuel == 0 {
            return Err(message("layout for `", definition.name.as_str(), "` nests too deeply"));
        }
        let ghost items = struct_native_items(struct_def_view(*definition));
        let ghost definitions = self.spec_definitions();
        visiting.push(definition.name.clone());
        let ghost seen = text_views(visiting@);
        let ghost pushed = visiting@;
        proof {
            assert(seen =~= text_views(old(visiting)@).push(definition.name@));
            assert(pushed.drop_last() =~= old(visiting)@);
        }
        let mut fields: Vec<FieldLayout> = Vec::new();
        let mut offset: u32 = 0;
        let mut alignment: u32 = 1;
        let mut field_index: usize = 0;
        assert(fields@.map_values(|field: FieldLayout| native_field_view(field)) =~= Seq::<NativeFieldView>::empty());
        while field_index < definition.fields.len()
            invariant
                fuel > 0,
                items == struct_native_items(struct_def_view(*definition)),
                items.len() == definition.fields@.len(),
                definitions == self.spec_definitions(),
                seen == text_views(visiting@),
                visiting@ == pushed,
                seen == text_views(old(visiting)@).push(definition.name@),
                !text_views(old(visiting)@).contains(definition.name@),
                index < definitions.structs.len(),
                definitions.structs[index as int] == struct_def_view(*definition),
                pushed.len() == old(visiting)@.len() + 1,
                pushed.drop_last() == old(visiting)@,
                field_index <= definition.fields@.len(),
                native_fields_spec(definitions, items, seen, definition.name@, fuel as nat, field_index as nat)
                    == Ok::<(u32, u32, Seq<NativeFieldView>), Seq<char>>(
                    (offset, alignment, fields@.map_values(|field: FieldLayout| native_field_view(field))),
                ),
            decreases definition.fields@.len() - field_index,
        {
            let field = &definition.fields[field_index];
            proof {
                assert(items[field_index as int] == NativeItem { name: Some(field.name@), ty: field.ty.name@ });
            }
            let ghost before = fields@.map_values(|field: FieldLayout| native_field_view(field));
            match self.place_native_field(&field.ty.name, visiting, &definition.name, fuel, offset, alignment) {
                Ok((start, ty, end, widest)) => {
                    fields.push(FieldLayout { name: field.name.clone(), offset: start, ty });
                    proof {
                        assert(fields@.map_values(|field: FieldLayout| native_field_view(field)) =~= before.push(
                            NativeFieldView { name: Some(field.name@), offset: start, ty },
                        ));
                    }
                    offset = end;
                    alignment = widest;
                },
                Err(error) => {
                    visiting.pop();
                    proof {
                        assert(visiting@ =~= old(visiting)@);
                        assert(native_fields_spec(definitions, items, seen, definition.name@, fuel as nat, (field_index + 1) as nat) == Err::<(u32, u32, Seq<NativeFieldView>), Seq<char>>(error.spec_message()));
                        lemma_native_fields_error_stable(definitions, items, seen, definition.name@, fuel as nat, (field_index + 1) as nat, items.len());
                    }
                    return Err(error);
                },
            }
            field_index = field_index + 1;
        }
        visiting.pop();
        proof {
            assert(visiting@ =~= old(visiting)@);
        }
        let size = match align_up(offset, alignment) {
            Some(size) => size,
            None => {
                return Err(message("layout for `", definition.name.as_str(), "` does not fit in 32 bits"));
            },
        };
        Ok(StructLayout { size, alignment, fields })
    }
}

/// An error among the first `count` fields stays the error when more fields follow.
pub proof fn lemma_native_fields_error_stable(
    definitions: Definitions,
    items: Seq<NativeItem>,
    visiting: Seq<Seq<char>>,
    owner: Seq<char>,
    fuel: nat,
    count: nat,
    end: nat,
)
    requires
        count <= end <= items.len(),
        native_fields_spec(definitions, items, visiting, owner, fuel, count) is Err,
    ensures
        native_fields_spec(definitions, items, visiting, owner, fuel, end) == native_fields_spec(
            definitions,
            items,
            visiting,
            owner,
            fuel,
            count,
        ),
    decreases end - count,
{
    if end > count {
        lemma_native_fields_error_stable(definitions, items, visiting, owner, fuel, count, (end - 1) as nat);
    }
}


/// The enum definitions that a program declares, in order.
pub fn program_enums(program: &Program) -> (enums: Vec<EnumDef>)
    ensures
        enum_def_views(enums@) == declared_enums(program.declarations@),
{
    let mut enums: Vec<EnumDef> = Vec::new();
    let mut index: usize = 0;
    while index < program.declarations.len()
        invariant
            index <= program.declarations@.len(),
            enum_def_views(enums@) == declared_enums(program.declarations@.take(index as int)),
        decreases program.declarations@.len() - index,
    {
        proof {
            assert(program.declarations@.take(index + 1).drop_last() =~= program.declarations@.take(index as int));
        }
        match &program.declarations[index] {
            crate::ast::TopLevelDecl::Enum(definition) => {
                let ghost before = enum_def_views(enums@);
                enums.push(crate::ast::copy_enum_def(definition));
                assert(enum_def_views(enums@) =~= before + seq![enum_def_view(*definition)]);
            },
            _ => {
                assert(enum_def_views(enums@) =~= declared_enums(program.declarations@.take(index + 1)));
            },
        }
        index = index + 1;
    }
    assert(program.declarations@.take(index as int) =~= program.declarations@);
    enums
}

/// The layouts of every struct and then every enum of `definitions`; the first that cannot be
/// laid out gives the error.
pub open spec fn native_layouts(definitions: Definitions) -> Result<(Seq<StructLayoutView>, Seq<EnumLayoutView>), Seq<char>> {
    match struct_layouts_spec(definitions, definitions.structs.len()) {
        Err(error) => Err(error),
        Ok(structs) => match enum_layouts_spec(definitions, definitions.enums.len()) {
            Err(error) => Err(error),
            Ok(enums) => Ok((structs, enums)),
        },
    }
}

impl LayoutRegistry {
    /// Lays out every struct and every enum of `program`, with pointers of `pointer_size` bytes.
    pub fn from_program(program: &Program, pointer_size: u32) -> (result: Result<Self, NativeEmitError>)
        ensures
            match result {
                Ok(registry) => {
                    &&& registry.wf()
                    &&& registry.spec_definitions() == native_definitions(*program, pointer_size)
                    &&& native_layouts(native_definitions(*program, pointer_size)) == Ok::<
                        (Seq<StructLayoutView>, Seq<EnumLayoutView>),
                        Seq<char>,
                    >((registry.struct_layouts(), registry.enum_layouts()))
                },
                Err(error) => native_layouts(native_definitions(*program, pointer_size)) == Err::<
                    (Seq<StructLayoutView>, Seq<EnumLayoutView>),
                    Seq<char>,
                >(error.spec_message()),
            },
    {
        let definitions = super::generic_definitions::struct_definitions(program);
        let enum_definitions = program_enums(program);
        let mut registry = LayoutRegistry {
            pointer_size,
            definitions,
            layouts: Vec::new(),
            enum_definitions,
            enum_layouts: Vec::new(),
        };
        let ghost d = native_definitions(*program, pointer_size);
        let fuel: usize = match registry.definitions.len().checked_add(registry.enum_definitions.len()) {
            Some(total) => match total.checked_add(1) {
                Some(fuel) => fuel,
                None => usize::MAX,
            },
            None => usize::MAX,
        };
        proof {
            assert(registry.spec_definitions() == d);
            assert(fuel as nat == plain_fuel(d));
            assert(registry.struct_layouts() =~= Seq::<StructLayoutView>::empty());
            assert(registry.enum_layouts() =~= Seq::<EnumLayoutView>::empty());
        }
        let mut index: usize = 0;
        while index < registry.definitions.len()
            invariant
                fuel as nat == plain_fuel(d),
                d == native_definitions(*program, pointer_size),
                registry.spec_definitions() == d,
                registry.pointer_size == pointer_size,
                d.structs.len() == registry.definitions@.len(),
                index <= registry.definitions@.len(),
                registry.layouts@.len() == index,
                registry.enum_layouts@.len() == 0,
                struct_layouts_spec(d, index as nat) == Ok::<Seq<StructLayoutView>, Seq<char>>(registry.struct_layouts()),
            decreases registry.definitions@.len() - index,
        {
            let mut visiting: Vec<String> = Vec::new();
            proof {
                assert(text_views(visiting@) =~= Seq::<Seq<char>>::empty());
            }
            match registry.layout_struct_at(index, &mut visiting, fuel) {
                Ok(layout) => {
                    let ghost before = registry.struct_layouts();
                    registry.layouts.push(layout);
                    proof {
                        assert(registry.struct_layouts() =~= before.push(struct_layout_view(layout)));
                    }
                },
                Err(error) => {
                    proof {
                        lemma_struct_layouts_error_stable(d, (index + 1) as nat, d.structs.len());
                    }
                    return Err(error);
                },
            }
            index = index + 1;
        }
        proof {
            assert(registry.enum_layouts() =~= Seq::<EnumLayoutView>::empty());
        }
        let mut index: usize = 0;
        while index < registry.enum_definitions.len()
            invariant
                fuel as nat == plain_fuel(d),
                d == native_definitions(*program, pointer_size),
                registry.spec_definitions() == d,
                registry.pointer_size == pointer_size,
                d.enums.len() == registry.enum_definitions@.len(),
                registry.layouts@.len() == registry.definitions@.len(),
                struct_layouts_spec(d, d.structs.len()) == Ok::<Seq<StructLayoutView>, Seq<char>>(registry.struct_layouts()),
                index <= registry.enum_definitions@.len(),
                registry.enum_layouts@.len() == index,
                enum_layouts_spec(d, index as nat) == Ok::<Seq<EnumLayoutView>, Seq<char>>(registry.enum_layouts()),
            decreases registry.enum_definitions@.len() - index,
        {
            let mut visiting: Vec<String> = Vec::new();
            proof {
                assert(text_views(visiting@) =~= Seq::<Seq<char>>::empty());
            }
            match registry.layout_enum_at(index, &mut visiting, fuel) {
                Ok(layout) => {
                    let ghost before = registry.enum_layouts();
                    registry.enum_layouts.push(layout);
                    proof {
                        assert(registry.enum_layouts() =~= before.push(enum_layout_view(layout)));
                    }
                },
                Err(error) => {
                    proof {
                        lemma_enum_layouts_error_stable(d, (index + 1) as nat, d.enums.len());
                    }
                    return Err(error);
                },
            }
            index = index + 1;
        }
        Ok(registry)
    }

    /// The id of the struct named `name`: the position of the last struct of that name.
    pub fn id_for(&self, name: &str) -> (id: Option<usize>)
        ensures
            match id {
                Some(i) => i == find_struct(self.spec_definitions().structs, name@),
                None => find_struct(self.spec_definitions().structs, name@) == -1,
            },
    {
        find_struct_index(&self.definitions, &crate::text::owned(name))
    }

    /// The layout of the struct with id `id`.
    pub fn get(&self, id: usize) -> (layout: Option<&StructLayout>)
        requires
            self.wf(),
        ensures
            match layout {
                Some(layout) => id < self.struct_layouts().len() && struct_layout_view(*layout) == self.struct_layouts()[id as int],
                None => id >= self.struct_layouts().len(),
            },
    {
        if id < self.layouts.len() {
            Some(&self.layouts[id])
        } else {
            None
        }
    }

    /// The native type of the struct named `name`.
    pub fn type_for_name(&self, name: &str) -> (ty: Option<NativeType>)
        ensures
            match ty {
                Some(t) => t == NativeType::Struct(find_struct(self.spec_definitions().structs, name@) as usize)
                    && find_struct(self.spec_definitions().structs, name@) >= 0,
                None => find_struct(self.spec_definitions().structs, name@) == -1,
            },
    {
        match self.id_for(name) {
            Some(id) => Some(NativeType::Struct(id)),
            None => None,
        }
    }
}

/// An error at an early struct stays the error when more structs follow.
pub proof fn lemma_struct_layouts_error_stable(definitions: Definitions, count: nat, end: nat)
    requires
        count <= end,
        struct_layouts_spec(definitions, count) is Err,
    ensures
        struct_layouts_spec(definitions, end) == struct_layouts_spec(definitions, count),
    decreases end - count,
{
    if end > count {
        lemma_struct_layouts_error_stable(definitions, count, (end - 1) as nat);
    }
}

/// An error at an early enum stays the error when more enums follow.
pub proof fn lemma_enum_layouts_error_stable(definitions: Definitions, count: nat, end: nat)
    requires
        count <= end,
        enum_layouts_spec(definitions, count) is Err,
    ensures
        enum_layouts_spec(definitions, end) == enum_layouts_spec(definitions, count),
    decreases end - count,
{
    if end > count {
        lemma_enum_layouts_error_stable(definitions, count, (end - 1) as nat);
    }
}


/// Rounding up gives the least multiple of the alignment that is not below the offset.
pub proof fn law_align_up(offset: u32, alignment: u32)
    requires
        alignment > 0,
    ensures
        spec_align_up(offset, alignment) matches Some(aligned) ==> aligned % alignment == 0 && offset <= aligned
            < offset + alignment,
        spec_align_up(offset, alignment) is None ==> offset + (alignment - offset % alignment) > u32::MAX,
{
    let a = alignment as int;
    let o = offset as int;
    vstd::arithmetic::div_mod::lemma_fundamental_div_mod(o, a);
    vstd::arithmetic::div_mod::lemma_mod_bound(o, a);
    let q = o / a;
    if o % a != 0 {
        assert(o + (a - o % a) == (q + 1) * a) by (nonlinear_arith)
            requires
                o == a * q + o % a,
        ;
        vstd::arithmetic::div_mod::lemma_mod_multiples_basic(q + 1, a);
    }
}

proof fn lemma_native_fields_ordered(
    definitions: Definitions,
    items: Seq<NativeItem>,
    visiting: Seq<Seq<char>>,
    owner: Seq<char>,
    fuel: nat,
    count: nat,
)
    ensures
        native_fields_spec(definitions, items, visiting, owner, fuel, count) matches Ok((end, alignment, fields)) ==> {
            &&& alignment >= 1
            &&& fields.len() == if count <= items.len() { count } else { 0 }
            &&& forall|i: int, j: int| 0 <= i < j < fields.len() ==> fields[i].offset <= fields[j].offset
            &&& forall|i: int| 0 <= i < fields.len() ==> fields[i].offset <= end
            &&& forall|i: int| 0 <= i < fields.len() ==> fields[i].name == items[i].name
        },
    decreases count,
{
    if count > 0 && count <= items.len() {
        lemma_native_fields_ordered(definitions, items, visiting, owner, fuel, (count - 1) as nat);
    }
}

/// A struct's fields come in declaration order at non-decreasing offsets within its size; the
/// fields, laid out one after another, end within that size and need no stricter alignment
/// than the struct's; its size is a multiple of its alignment, which is at least 1.
pub proof fn law_struct_layout(definitions: Definitions, index: nat, visiting: Seq<Seq<char>>, fuel: nat)
    ensures
        struct_layout_spec(definitions, index, visiting, fuel) matches Ok(layout) ==> {
            &&& layout.alignment >= 1
            &&& layout.size % layout.alignment == 0
            &&& layout.fields.len() == definitions.structs[index as int].fields.len()
            &&& forall|i: int, j: int| 0 <= i < j < layout.fields.len() ==> layout.fields[i].offset <= layout.fields[j].offset
            &&& forall|i: int| 0 <= i < layout.fields.len() ==> layout.fields[i].offset <= layout.size
            &&& forall|i: int|
                0 <= i < layout.fields.len() ==> layout.fields[i].name == Some(definitions.structs[index as int].fields[i].name)
            &&& payload_fits(
                native_fields_spec(
                    definitions,
                    struct_native_items(definitions.structs[index as int]),
                    visiting.push(definitions.structs[index as int].name),
                    definitions.structs[index as int].name,
                    fuel,
                    definitions.structs[index as int].fields.len(),
                ),
                layout.fields,
                layout.size as int,
                layout.alignment as int,
            )
        },
{
    if index < definitions.structs.len() && fuel > 0 {
        let definition = definitions.structs[index as int];
        let items = struct_native_items(definition);
        lemma_native_fields_ordered(definitions, items, visiting.push(definition.name), definition.name, fuel, items.len());
        if let Ok((offset, alignment, fields)) = native_fields_spec(
            definitions,
            items,
            visiting.push(definition.name),
            definition.name,
            fuel,
            items.len(),
        ) {
            law_align_up(offset, alignment);
            assert forall|i: int| 0 <= i < fields.len() implies fields[i].name == Some(definition.fields[i].name) by {
                assert(items[i].name == Some(definition.fields[i].name));
            }
        }
    }
}

proof fn lemma_enum_variants_shape(
    definitions: Definitions,
    definition: EnumDefView,
    visiting: Seq<Seq<char>>,
    fuel: nat,
    count: nat,
)
    ensures
        enum_variants_spec(definitions, definition, visiting, fuel, count) matches Ok((size, alignment, variants)) ==> {
            &&& alignment >= 1
            &&& variants.len() == if count <= definition.variants.len() { count } else { 0 }
            &&& forall|i: int| 0 <= i < variants.len() ==> variants[i].discriminant == i
            &&& forall|i: int| 0 <= i < variants.len() ==> variants[i].name == definition.variants[i].name
        },
    decreases count,
{
    if count > 0 && count <= definition.variants.len() {
        lemma_enum_variants_shape(definitions, definition, visiting, fuel, (count - 1) as nat);
    }
}

/// The payload of the variant at `index` of `definition`, laid out on its own: its end, its
/// alignment and its fields.
pub open spec fn variant_payload_spec(
    definitions: Definitions,
    definition: EnumDefView,
    index: int,
    visiting: Seq<Seq<char>>,
    fuel: nat,
) -> Result<(u32, u32, Seq<NativeFieldView>), Seq<char>> {
    let items = payload_native_items(definition.variants[index].payload);
    native_fields_spec(definitions, items, visiting, definition.name, fuel, items.len())
}

/// Whether fields laid out as `payload` (a struct's fields or a variant's payload) are
/// `fields`, end within `room`, each starting no later than that end, and need no stricter
/// alignment than `alignment`.
pub open spec fn payload_fits(
    payload: Result<(u32, u32, Seq<NativeFieldView>), Seq<char>>,
    fields: Seq<NativeFieldView>,
    room: int,
    alignment: int,
) -> bool {
    match payload {
        Ok((end, needed, laid_out)) => laid_out == fields && end <= room && needed <= alignment && forall|k: int|
            0 <= k < laid_out.len() ==> #[trigger] laid_out[k].offset <= end,
        Err(_) => false,
    }
}

/// The size a payload laid out as `payload` takes: its end rounded up to its alignment.
pub open spec fn payload_size_of(payload: Result<(u32, u32, Seq<NativeFieldView>), Seq<char>>) -> Option<u32> {
    match payload {
        Ok((end, alignment, _)) => spec_align_up(end, alignment),
        Err(_) => None,
    }
}

proof fn lemma_enum_variants_fit(
    definitions: Definitions,
    definition: EnumDefView,
    visiting: Seq<Seq<char>>,
    fuel: nat,
    count: nat,
)
    ensures
        enum_variants_spec(definitions, definition, visiting, fuel, count) matches Ok((size, alignment, variants)) ==> {
            &&& forall|i: int|
                0 <= i < variants.len() ==> payload_fits(
                    variant_payload_spec(definitions, definition, i, visiting, fuel),
                    (#[trigger] variants[i]).fields,
                    size as int,
                    alignment as int,
                )
            &&& size == 0 || exists|i: int|
                0 <= i < variants.len() && payload_size_of(variant_payload_spec(definitions, definition, i, visiting, fuel))
                    == Some(size)
        },
    decreases count,
{
    if count > 0 && count <= definition.variants.len() {
        lemma_enum_variants_fit(definitions, definition, visiting, fuel, (count - 1) as nat);
        lemma_enum_variants_shape(definitions, definition, visiting, fuel, (count - 1) as nat);
        let variant = definition.variants[count - 1];
        let items = payload_native_items(variant.payload);
        lemma_native_fields_ordered(definitions, items, visiting, definition.name, fuel, items.len());
        if let Ok((max_size, max_alignment, variants)) = enum_variants_spec(
            definitions,
            definition,
            visiting,
            fuel,
            (count - 1) as nat,
        ) {
            if let Ok((offset, alignment, fields)) = native_fields_spec(
                definitions,
                items,
                visiting,
                definition.name,
                fuel,
                items.len(),
            ) {
                law_align_up(offset, alignment);
                if let Some(payload_size) = spec_align_up(offset, alignment) {
                    if count - 1 <= u32::MAX {
                        let size = max_u32(max_size, payload_size);
                        let widest = max_u32(max_alignment, alignment);
                        let placed = variants.push(
                            EnumVariantView { name: variant.name, discriminant: (count - 1) as u32, fields },
                        );
                        assert forall|i: int| 0 <= i < placed.len() implies payload_fits(
                            variant_payload_spec(definitions, definition, i, visiting, fuel),
                            (#[trigger] placed[i]).fields,
                            size as int,
                            widest as int,
                        ) by {
                            if i < variants.len() {
                                assert(payload_fits(
                                    variant_payload_spec(definitions, definition, i, visiting, fuel),
                                    variants[i].fields,
                                    max_size as int,
                                    max_alignment as int,
                                ));
                            } else {
                                assert(i == count - 1);
                            }
                        }
                        if size != 0 {
                            if size == payload_size {
                                assert(payload_size_of(
                                    variant_payload_spec(definitions, definition, count - 1, visiting, fuel),
                                ) == Some(size));
                            } else {
                                let w = choose|w: int|
                                    0 <= w < variants.len() && payload_size_of(
                                        variant_payload_spec(definitions, definition, w, visiting, fuel),
                                    ) == Some(max_size);
                                assert(payload_size_of(variant_payload_spec(definitions, definition, w, visiting, fuel)) == Some(
                                    size,
                                ));
                            }
                        }
                    }
                }
            }
        }
    }
}

/// The payload area of an enum holds every variant and is no larger than the largest of
/// them: each variant's payload, laid out on its own, has the variant's fields, ends within
/// the largest payload size and needs no stricter alignment than the enum; that size is the
/// rounded size of some variant's payload, or 0; the payload area starts after the
/// discriminant and lies within the enum's size.
pub proof fn law_enum_payload_holds_every_variant(definitions: Definitions, index: nat, visiting: Seq<Seq<char>>, fuel: nat)
    ensures
        enum_layout_spec(definitions, index, visiting, fuel) matches Ok(layout) ==> {
            &&& layout.payload_offset >= 4
            &&& layout.payload_offset + layout.max_payload_size <= layout.size
            &&& layout.variants.len() == definitions.enums[index as int].variants.len()
            &&& forall|i: int|
                0 <= i < layout.variants.len() ==> payload_fits(
                    variant_payload_spec(
                        definitions,
                        definitions.enums[index as int],
                        i,
                        visiting.push(definitions.enums[index as int].name),
                        fuel,
                    ),
                    (#[trigger] layout.variants[i]).fields,
                    layout.max_payload_size as int,
                    layout.alignment as int,
                )
            &&& layout.max_payload_size == 0 || exists|i: int|
                0 <= i < layout.variants.len() && payload_size_of(
                    variant_payload_spec(
                        definitions,
                        definitions.enums[index as int],
                        i,
                        visiting.push(definitions.enums[index as int].name),
                        fuel,
                    ),
                ) == Some(layout.max_payload_size)
        },
{
    law_enum_layout(definitions, index, visiting, fuel);
    if index < definitions.enums.len() && fuel > 0 {
        let definition = definitions.enums[index as int];
        lemma_enum_variants_fit(definitions, definition, visiting.push(definition.name), fuel, definition.variants.len());
    }
}

/// An enum keeps a 4-byte discriminant at offset 0 and its payload after it, at an offset
/// aligned for every payload; each variant's discriminant is its position; the size holds the
/// largest payload and is a multiple of the alignment, which is at least 4.
pub proof fn law_enum_layout(definitions: Definitions, index: nat, visiting: Seq<Seq<char>>, fuel: nat)
    ensures
        enum_layout_spec(definitions, index, visiting, fuel) matches Ok(layout) ==> {
            &&& layout.discriminant_offset == 0
            &&& layout.alignment >= 4
            &&& layout.payload_offset >= 4
            &&& layout.payload_offset + layout.max_payload_size <= layout.size
            &&& layout.size % layout.alignment == 0
            &&& layout.variants.len() == definitions.enums[index as int].variants.len()
            &&& forall|i: int| 0 <= i < layout.variants.len() ==> layout.variants[i].discriminant == i
            &&& forall|i: int|
                0 <= i < layout.variants.len() ==> layout.variants[i].name == definitions.enums[index as int].variants[i].name
        },
{
    if index < definitions.enums.len() && fuel > 0 {
        let definition = definitions.enums[index as int];
        lemma_enum_variants_shape(definitions, definition, visiting.push(definition.name), fuel, definition.variants.len());
        if let Ok((max_payload_size, max_alignment, variants)) = enum_variants_spec(
            definitions,
            definition,
            visiting.push(definition.name),
            fuel,
            definition.variants.len(),
        ) {
            law_align_up(4, max_alignment);
            if let Some(payload_offset) = spec_align_up(4, max_alignment) {
                let alignment = max_u32(4, max_alignment);
                if payload_offset + max_payload_size <= u32::MAX {
                    law_align_up((payload_offset + max_payload_size) as u32, alignment);
                }
            }
        }
    }
}

} // verus!
