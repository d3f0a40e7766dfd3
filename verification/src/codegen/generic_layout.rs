use vstd::prelude::*;

use crate::ast::{
    BuiltinType, EnumDef, EnumDefView, EnumPayload, PayloadView, Program, StructDef, StructDefView,
    StructFieldRole, TopLevelDecl, TypeName, TypeView, builtin_enum_definitions, enum_def_view, enum_def_views, lookup_builtin_type, struct_def_view,
    struct_def_views, type_view, type_views, builtin_type_name, spec_lookup_builtin_type,
};
use crate::semantic::{GenericInstance, TypeSubstitution, arity_message, substitute};
use crate::text::{concat, owned};

use super::native::NativeEmitError;

verus! {

/// How many generic definitions a layout may pass through: as many as a machine word counts.
/// Polymorphic recursion (a definition reached again with ever larger type arguments) never
/// repeats a key, and this is what still ends it; every layout that ends on its own is laid
/// out, however deeply its types nest.
pub const GENERIC_LAYOUT_FUEL: usize = usize::MAX;

/// The size and alignment of a value, in bytes.
#[derive(Clone, Copy, Debug, PartialEq, Eq, Structural)]
pub struct ValueLayout {
    pub size: u32,
    pub alignment: u32,
}

/// Where a field of a struct, or of an enum variant's payload, lies.
#[derive(Clone, Debug)]
pub struct GenericFieldLayout {
    pub name: Option<String>,
    pub offset: u32,
    pub size: u32,
    pub alignment: u32,
    pub owned: bool,
}

#[derive(Clone, Debug)]
pub struct GenericStructLayout {
    pub canonical_key: String,
    pub size: u32,
    pub alignment: u32,
    pub fields: Vec<GenericFieldLayout>,
}

#[derive(Clone, Debug)]
pub struct GenericEnumVariantLayout {
    pub name: String,
    pub discriminant: u32,
    pub fields: Vec<GenericFieldLayout>,
}

/// An enum value is a 4-byte discriminant at offset 0 followed by the payload of its variant at
/// `payload_offset`.
#[derive(Clone, Debug)]
pub struct GenericEnumLayout {
    pub canonical_key: String,
    pub size: u32,
    pub alignment: u32,
    pub payload_offset: u32,
    pub max_payload_size: u32,
    pub variants: Vec<GenericEnumVariantLayout>,
}

// ---------------------------------------------------------------------------------------------
// Views
// ---------------------------------------------------------------------------------------------

pub struct FieldView {
    pub name: Option<Seq<char>>,
    pub offset: u32,
    pub size: u32,
    pub alignment: u32,
    pub owned: bool,
}

pub struct StructLayoutView {
    pub key: Seq<char>,
    pub size: u32,
    pub alignment: u32,
    pub fields: Seq<FieldView>,
}

pub struct VariantLayoutView {
    pub name: Seq<char>,
    pub discriminant: u32,
    pub fields: Seq<FieldView>,
}

pub struct EnumLayoutView {
    pub key: Seq<char>,
    pub size: u32,
    pub alignment: u32,
    pub payload_offset: u32,
    pub max_payload_size: u32,
    pub variants: Seq<VariantLayoutView>,
}

pub open spec fn option_text_view(name: Option<String>) -> Option<Seq<char>> {
    match name {
        Some(name) => Some(name@),
        None => None,
    }
}

pub open spec fn field_view(field: GenericFieldLayout) -> FieldView {
    FieldView {
        name: option_text_view(field.name),
        offset: field.offset,
        size: field.size,
        alignment: field.alignment,
        owned: field.owned,
    }
}

pub open spec fn field_views(fields: Seq<GenericFieldLayout>) -> Seq<FieldView> {
    fields.map_values(|field: GenericFieldLayout| field_view(field))
}

pub open spec fn struct_layout_view(layout: GenericStructLayout) -> StructLayoutView {
    StructLayoutView {
        key: layout.canonical_key@,
        size: layout.size,
        alignment: layout.alignment,
        fields: field_views(layout.fields@),
    }
}

pub open spec fn variant_layout_view(layout: GenericEnumVariantLayout) -> VariantLayoutView {
    VariantLayoutView {
        name: layout.name@,
        discriminant: layout.discriminant,
        fields: field_views(layout.fields@),
    }
}

pub open spec fn enum_layout_view(layout: GenericEnumLayout) -> EnumLayoutView {
    EnumLayoutView {
        key: layout.canonical_key@,
        size: layout.size,
        alignment: layout.alignment,
        payload_offset: layout.payload_offset,
        max_payload_size: layout.max_payload_size,
        variants: layout.variants@.map_values(|variant: GenericEnumVariantLayout| variant_layout_view(variant)),
    }
}

// ---------------------------------------------------------------------------------------------
// Canonical keys
// ---------------------------------------------------------------------------------------------

/// The canonical spelling of a type: `Name`, or `Name[Arg1,Arg2]`.
pub open spec fn canonical_key(ty: TypeView) -> Seq<char>
    decreases ty, 0nat,
{
    if ty.arguments.len() == 0 {
        ty.name
    } else {
        ty.name + "["@ + join_keys(ty.arguments, ty.arguments.len() as int) + "]"@
    }
}

/// The canonical spellings of the first `count` types, separated by commas.
pub open spec fn join_keys(types: Seq<TypeView>, count: int) -> Seq<char>
    decreases types, count,
{
    if count <= 0 || count > types.len() {
        Seq::empty()
    } else if count == 1 {
        canonical_key(types[0])
    } else {
        join_keys(types, count - 1) + ","@ + canonical_key(types[count - 1])
    }
}

/// The canonical spelling of `name` applied to `arguments`.
pub open spec fn application_key_spec(name: Seq<char>, arguments: Seq<TypeView>) -> Seq<char> {
    if arguments.len() == 0 {
        name
    } else {
        name + "["@ + join_keys(arguments, arguments.len() as int) + "]"@
    }
}

/// Writes the canonical spellings of `types`, separated by commas, after `text`.
fn push_joined_keys(text: String, types: &Vec<TypeName>) -> (result: String)
    ensures
        result@ == text@ + join_keys(type_views(types@), types@.len() as int),
    decreases types, 0nat,
{
    let mut text = text;
    let ghost start = text@;
    let mut index: usize = 0;
    while index < types.len()
        invariant
            index <= types@.len(),
            text@ == start + join_keys(type_views(types@), index as int),
        decreases types@.len() - index,
    {
        if index > 0 {
            text = concat(text, ",");
        }
        let key = canonical_type_name(&types[index]);
        assert(type_views(types@)[index as int] == type_view(types@[index as int]));
        text = concat(text, key.as_str());
        index = index + 1;
    }
    text
}

/// The canonical spelling of a type as written.
pub fn canonical_type_name(ty: &TypeName) -> (key: String)
    ensures
        key@ == canonical_key(type_view(*ty)),
    decreases ty, 1nat,
{
    if ty.arguments.len() == 0 {
        return ty.name.clone();
    }
    let text = concat(ty.name.clone(), "[");
    let text = push_joined_keys(text, &ty.arguments);
    assert(type_view(*ty).arguments =~= type_views(ty.arguments@));
    concat(text, "]")
}

/// The canonical spelling of `name` applied to `arguments`.
pub fn application_key(name: &str, arguments: &Vec<TypeName>) -> (key: String)
    ensures
        key@ == application_key_spec(name@, type_views(arguments@)),
{
    if arguments.len() == 0 {
        return owned(name);
    }
    let text = concat(owned(name), "[");
    let text = push_joined_keys(text, arguments);
    concat(text, "]")
}

// ---------------------------------------------------------------------------------------------
// Arithmetic
// ---------------------------------------------------------------------------------------------

/// `offset` rounded up to a multiple of `alignment`, if that fits in 32 bits.
pub open spec fn spec_align_up(offset: u32, alignment: u32) -> Option<u32> {
    if alignment == 0 || offset % alignment == 0 {
        Some(offset)
    } else if offset + (alignment - offset % alignment) <= u32::MAX {
        Some((offset + (alignment - offset % alignment)) as u32)
    } else {
        None
    }
}

/// Rounds `offset` up to a multiple of `alignment`; `None` when the result does not fit.
pub fn align_up(offset: u32, alignment: u32) -> (aligned: Option<u32>)
    ensures
        aligned == spec_align_up(offset, alignment),
{
    if alignment == 0 {
        return Some(offset);
    }
    let remainder = offset % alignment;
    if remainder == 0 {
        Some(offset)
    } else {
        offset.checked_add(alignment - remainder)
    }
}

pub open spec fn max_u32(a: u32, b: u32) -> u32 {
    if a >= b { a } else { b }
}

// ---------------------------------------------------------------------------------------------
// The layout computation, as a specification
// ---------------------------------------------------------------------------------------------

/// The definitions a registry lays out against.
pub struct Definitions {
    pub structs: Seq<StructDefView>,
    pub enums: Seq<EnumDefView>,
    pub pointer_size: u32,
}

/// The last struct named `name`, or -1: later definitions shadow earlier ones.
pub open spec fn find_struct(structs: Seq<StructDefView>, name: Seq<char>) -> int
    decreases structs.len(),
{
    if structs.len() == 0 {
        -1
    } else if structs.last().name == name {
        structs.len() - 1
    } else {
        find_struct(structs.drop_last(), name)
    }
}

/// The last enum named `name`, or -1.
pub open spec fn find_enum(enums: Seq<EnumDefView>, name: Seq<char>) -> int
    decreases enums.len(),
{
    if enums.len() == 0 {
        -1
    } else if enums.last().name == name {
        enums.len() - 1
    } else {
        find_enum(enums.drop_last(), name)
    }
}

/// A field to lay out: its name, its declared type, and whether the container owns it.
pub struct FieldItem {
    pub name: Option<Seq<char>>,
    pub ty: TypeView,
    pub owned: bool,
}

pub open spec fn struct_items(definition: StructDefView) -> Seq<FieldItem> {
    definition.fields.map_values(
        |field: crate::ast::StructFieldView|
            FieldItem { name: Some(field.name), ty: field.ty, owned: field.role == StructFieldRole::Erg },
    )
}

pub open spec fn payload_items(payload: PayloadView) -> Seq<FieldItem> {
    match payload {
        PayloadView::Unit => Seq::empty(),
        PayloadView::Tuple(types) => types.map_values(
            |ty: TypeView| FieldItem { name: None, ty, owned: false },
        ),
        PayloadView::Struct(fields) => fields.map_values(
            |field: crate::ast::EnumFieldView| FieldItem { name: Some(field.name), ty: field.ty, owned: false },
        ),
    }
}

pub open spec fn unknown_type_message(name: Seq<char>) -> Seq<char> {
    "unknown generic layout type `"@ + name + "`"@
}

pub open spec fn unsupported_type_message(name: Seq<char>) -> Seq<char> {
    "unsupported generic layout type `"@ + name + "`"@
}

pub open spec fn recursive_layout_message(key: Seq<char>) -> Seq<char> {
    "recursive generic layout for `"@ + key + "` is not supported"@
}

pub open spec fn too_deep_message(key: Seq<char>) -> Seq<char> {
    "generic layout for `"@ + key + "` nests too deeply"@
}

pub open spec fn overflow_message(key: Seq<char>) -> Seq<char> {
    "generic layout for `"@ + key + "` does not fit in 32 bits"@
}

pub open spec fn substitution_message(name: Seq<char>, expected: nat, found: nat) -> Seq<char> {
    "generic substitution failed: "@ + arity_message(name, expected, found)
}

/// The layout of a built-in type.
pub open spec fn builtin_layout_spec(builtin: BuiltinType, pointer_size: u32) -> Result<ValueLayout, Seq<char>> {
    match builtin {
        BuiltinType::Int | BuiltinType::Bool => Ok(ValueLayout { size: 4, alignment: 4 }),
        BuiltinType::String | BuiltinType::Buffer => Ok(
            ValueLayout { size: pointer_size, alignment: pointer_size },
        ),
        BuiltinType::Array | BuiltinType::MapType => Err(unsupported_type_message(builtin_type_name(builtin))),
    }
}

/// The layout of the type `ty`, found among built-in types, then structs, then enums.
pub open spec fn layout_type_spec(
    definitions: Definitions,
    ty: TypeView,
    visiting: Seq<Seq<char>>,
    fuel: nat,
) -> Result<ValueLayout, Seq<char>>
    decreases fuel, 4nat, 0nat,
{
    match spec_lookup_builtin_type(ty.name) {
        Some(builtin) => builtin_layout_spec(builtin, definitions.pointer_size),
        None => {
            let s = find_struct(definitions.structs, ty.name);
            let e = find_enum(definitions.enums, ty.name);
            if 0 <= s < definitions.structs.len() {
                match layout_struct_spec(definitions, definitions.structs[s], ty.arguments, visiting, fuel) {
                    Ok(layout) => Ok(ValueLayout { size: layout.size, alignment: layout.alignment }),
                    Err(error) => Err(error),
                }
            } else if 0 <= e < definitions.enums.len() {
                match layout_enum_spec(definitions, definitions.enums[e], ty.arguments, visiting, fuel) {
                    Ok(layout) => Ok(ValueLayout { size: layout.size, alignment: layout.alignment }),
                    Err(error) => Err(error),
                }
            } else {
                Err(unknown_type_message(ty.name))
            }
        },
    }
}

/// Lays out the first `count` items one after the other, each at the next offset that its
/// alignment allows. The result is the end offset, the largest alignment (at least 1), and the
/// fields.
pub open spec fn fields_spec(
    definitions: Definitions,
    items: Seq<FieldItem>,
    parameters: Seq<Seq<char>>,
    arguments: Seq<TypeView>,
    visiting: Seq<Seq<char>>,
    key: Seq<char>,
    fuel: nat,
    count: nat,
) -> Result<(u32, u32, Seq<FieldView>), Seq<char>>
    decreases fuel, 1nat, count,
{
    if count == 0 || count > items.len() {
        Ok((0u32, 1u32, Seq::empty()))
    } else {
        match fields_spec(definitions, items, parameters, arguments, visiting, key, fuel, (count - 1) as nat) {
            Err(error) => Err(error),
            Ok((offset, alignment, fields)) => {
                let item = items[count - 1];
                if fuel == 0 {
                    Err(too_deep_message(key))
                } else {
                    match layout_type_spec(
                        definitions,
                        substitute(parameters, arguments, item.ty),
                        visiting,
                        (fuel - 1) as nat,
                    ) {
                        Err(error) => Err(error),
                        Ok(layout) => match spec_align_up(offset, layout.alignment) {
                            None => Err(overflow_message(key)),
                            Some(start) => if start + layout.size > u32::MAX {
                                Err(overflow_message(key))
                            } else {
                                Ok(
                                    (
                                        (start + layout.size) as u32,
                                        max_u32(alignment, layout.alignment),
                                        fields.push(
                                            FieldView {
                                                name: item.name,
                                                offset: start,
                                                size: layout.size,
                                                alignment: layout.alignment,
                                                owned: item.owned,
                                            },
                                        ),
                                    ),
                                )
                            },
                        },
                    }
                }
            },
        }
    }
}

/// The layout of the struct `definition` applied to `arguments`.
pub open spec fn layout_struct_spec(
    definitions: Definitions,
    definition: StructDefView,
    arguments: Seq<TypeView>,
    visiting: Seq<Seq<char>>,
    fuel: nat,
) -> Result<StructLayoutView, Seq<char>>
    decreases fuel, 3nat, 0nat,
{
    let key = application_key_spec(definition.name, arguments);
    if visiting.contains(key) {
        Err(recursive_layout_message(key))
    } else if fuel == 0 {
        Err(too_deep_message(key))
    } else if definition.parameters.len() != arguments.len() {
        Err(substitution_message(definition.name, definition.parameters.len(), arguments.len()))
    } else {
        let items = struct_items(definition);
        match fields_spec(
            definitions,
            items,
            definition.parameters,
            arguments,
            visiting.push(key),
            key,
            fuel,
            items.len(),
        ) {
            Err(error) => Err(error),
            Ok((offset, alignment, fields)) => match spec_align_up(offset, alignment) {
                None => Err(overflow_message(key)),
                Some(size) => Ok(StructLayoutView { key, size, alignment, fields }),
            },
        }
    }
}

/// The payload layouts of the first `count` variants: the largest payload size, the largest
/// payload alignment (at least 1), and the variants, numbered from 0.
pub open spec fn variants_spec(
    definitions: Definitions,
    definition: EnumDefView,
    arguments: Seq<TypeView>,
    visiting: Seq<Seq<char>>,
    key: Seq<char>,
    fuel: nat,
    count: nat,
) -> Result<(u32, u32, Seq<VariantLayoutView>), Seq<char>>
    decreases fuel, 2nat, count,
{
    if count == 0 || count > definition.variants.len() {
        Ok((0u32, 1u32, Seq::empty()))
    } else {
        match variants_spec(definitions, definition, arguments, visiting, key, fuel, (count - 1) as nat) {
            Err(error) => Err(error),
            Ok((max_size, max_alignment, variants)) => {
                let variant = definition.variants[count - 1];
                let items = payload_items(variant.payload);
                match fields_spec(
                    definitions,
                    items,
                    definition.parameters,
                    arguments,
                    visiting,
                    key,
                    fuel,
                    items.len(),
                ) {
                    Err(error) => Err(error),
                    Ok((offset, alignment, fields)) => match spec_align_up(offset, alignment) {
                        None => Err(overflow_message(key)),
                        Some(payload_size) => if count - 1 > u32::MAX {
                            Err("enum has too many variants"@)
                        } else {
                            Ok(
                                (
                                    max_u32(max_size, payload_size),
                                    max_u32(max_alignment, alignment),
                                    variants.push(
                                        VariantLayoutView {
                                            name: variant.name,
                                            discriminant: (count - 1) as u32,
                                            fields,
                                        },
                                    ),
                                ),
                            )
                        },
                    },
                }
            },
        }
    }
}

/// The layout of the enum `definition` applied to `arguments`: a 4-byte discriminant, then the
/// payload at the first offset that every payload's alignment allows.
pub open spec fn layout_enum_spec(
    definitions: Definitions,
    definition: EnumDefView,
    arguments: Seq<TypeView>,
    visiting: Seq<Seq<char>>,
    fuel: nat,
) -> Result<EnumLayoutView, Seq<char>>
    decreases fuel, 3nat, 0nat,
{
    let key = application_key_spec(definition.name, arguments);
    if visiting.contains(key) {
        Err(recursive_layout_message(key))
    } else if fuel == 0 {
        Err(too_deep_message(key))
    } else if definition.parameters.len() != arguments.len() {
        Err(substitution_message(definition.name, definition.parameters.len(), arguments.len()))
    } else {
        match variants_spec(
            definitions,
            definition,
            arguments,
            visiting.push(key),
            key,
            fuel,
            definition.variants.len(),
        ) {
            Err(error) => Err(error),
            Ok((max_payload_size, max_alignment, variants)) => match spec_align_up(4, max_alignment) {
                None => Err(overflow_message(key)),
                Some(payload_offset) => {
                    let alignment = max_u32(4, max_alignment);
                    if payload_offset + max_payload_size > u32::MAX {
                        Err(overflow_message(key))
                    } else {
                        match spec_align_up((payload_offset + max_payload_size) as u32, alignment) {
                            None => Err(overflow_message(key)),
                            Some(size) => Ok(
                                EnumLayoutView {
                                    key,
                                    size,
                                    alignment,
                                    payload_offset,
                                    max_payload_size,
                                    variants,
                                },
                            ),
                        }
                    }
                },
            },
        }
    }
}

} // verus!

verus! {

pub open spec fn text_views(texts: Seq<String>) -> Seq<Seq<char>> {
    texts.map_values(|text: String| text@)
}

/// An error with the given text.
pub fn emit_error(message: String) -> (error: NativeEmitError)
    ensures
        error.spec_message() == message@,
{
    NativeEmitError(message)
}

pub fn message(first: &str, middle: &str, last: &str) -> (error: NativeEmitError)
    ensures
        error.spec_message() == first@ + middle@ + last@,
{
    emit_error(crate::text::message_with_text(first, middle, last))
}

pub fn contains_text(texts: &Vec<String>, text: &String) -> (found: bool)
    ensures
        found == text_views(texts@).contains(text@),
{
    let mut index: usize = 0;
    while index < texts.len()
        invariant
            index <= texts@.len(),
            forall|j: int| 0 <= j < index ==> texts@[j]@ != text@,
        decreases texts@.len() - index,
    {
        if texts[index] == *text {
            assert(text_views(texts@)[index as int] == text@);
            return true;
        }
        index = index + 1;
    }
    proof {
        if text_views(texts@).contains(text@) {
            let j = choose|j: int| 0 <= j < text_views(texts@).len() && text_views(texts@)[j] == text@;
            assert(texts@[j]@ == text@);
        }
    }
    false
}

fn builtin_layout(builtin: BuiltinType, pointer_size: u32) -> (result: Result<ValueLayout, NativeEmitError>)
    ensures
        match result {
            Ok(layout) => builtin_layout_spec(builtin, pointer_size) == Ok::<ValueLayout, Seq<char>>(layout),
            Err(error) => builtin_layout_spec(builtin, pointer_size) == Err::<ValueLayout, Seq<char>>(
                error.spec_message(),
            ),
        },
{
    match builtin {
        BuiltinType::Int | BuiltinType::Bool => Ok(ValueLayout { size: 4, alignment: 4 }),
        BuiltinType::String | BuiltinType::Buffer => Ok(ValueLayout { size: pointer_size, alignment: pointer_size }),
        BuiltinType::Array | BuiltinType::MapType => Err(
            message("unsupported generic layout type `", builtin.spec().name, "`"),
        ),
    }
}


/// The position of the last struct named `name`.
pub fn find_struct_index(structs: &Vec<StructDef>, name: &String) -> (index: Option<usize>)
    ensures
        match index {
            Some(i) => i == find_struct(struct_def_views(structs@), name@) && i < structs@.len(),
            None => find_struct(struct_def_views(structs@), name@) == -1,
        },
{
    let ghost views = struct_def_views(structs@);
    let mut remaining: usize = structs.len();
    assert(views.take(remaining as int) =~= views);
    while remaining > 0
        invariant
            remaining <= structs@.len(),
            views == struct_def_views(structs@),
            find_struct(views, name@) == find_struct(views.take(remaining as int), name@),
        decreases remaining,
    {
        let ghost prefix = views.take(remaining as int);
        assert(prefix.last() == struct_def_view(structs@[remaining - 1]));
        if structs[remaining - 1].name == *name {
            return Some(remaining - 1);
        }
        assert(prefix.drop_last() =~= views.take(remaining - 1));
        remaining = remaining - 1;
    }
    None
}

/// The position of the last enum named `name`.
pub fn find_enum_index(enums: &Vec<EnumDef>, name: &String) -> (index: Option<usize>)
    ensures
        match index {
            Some(i) => i == find_enum(enum_def_views(enums@), name@) && i < enums@.len(),
            None => find_enum(enum_def_views(enums@), name@) == -1,
        },
{
    let ghost views = enum_def_views(enums@);
    let mut remaining: usize = enums.len();
    assert(views.take(remaining as int) =~= views);
    while remaining > 0
        invariant
            remaining <= enums@.len(),
            views == enum_def_views(enums@),
            find_enum(views, name@) == find_enum(views.take(remaining as int), name@),
        decreases remaining,
    {
        let ghost prefix = views.take(remaining as int);
        assert(prefix.last() == enum_def_view(enums@[remaining - 1]));
        if enums[remaining - 1].name == *name {
            return Some(remaining - 1);
        }
        assert(prefix.drop_last() =~= views.take(remaining - 1));
        remaining = remaining - 1;
    }
    None
}

/// The definitions a generic layout may refer to, and the layouts of the generic instances of
/// a program.
pub struct GenericLayoutRegistry {
    pub structs: Vec<StructDef>,
    pub enums: Vec<EnumDef>,
    pub pointer_size: u32,
    struct_layouts: Vec<GenericStructLayout>,
    enum_layouts: Vec<GenericEnumLayout>,
}

/// What a step of layout produced, or the text of its error.
pub open spec fn outcome<T>(result: Result<T, NativeEmitError>) -> Result<T, Seq<char>> {
    match result {
        Ok(value) => Ok(value),
        Err(error) => Err(error.spec_message()),
    }
}

pub open spec fn struct_outcome(result: Result<GenericStructLayout, NativeEmitError>) -> Result<StructLayoutView, Seq<char>> {
    match result {
        Ok(layout) => Ok(struct_layout_view(layout)),
        Err(error) => Err(error.spec_message()),
    }
}

pub open spec fn enum_outcome(result: Result<GenericEnumLayout, NativeEmitError>) -> Result<EnumLayoutView, Seq<char>> {
    match result {
        Ok(layout) => Ok(enum_layout_view(layout)),
        Err(error) => Err(error.spec_message()),
    }
}

pub open spec fn fields_outcome(result: Result<(u32, u32, Vec<GenericFieldLayout>), NativeEmitError>) -> Result<(u32, u32, Seq<FieldView>), Seq<char>> {
    match result {
        Ok((offset, alignment, fields)) => Ok((offset, alignment, field_views(fields@))),
        Err(error) => Err(error.spec_message()),
    }
}

impl GenericLayoutRegistry {
    pub closed spec fn spec_definitions(&self) -> Definitions {
        Definitions {
            structs: struct_def_views(self.structs@),
            enums: enum_def_views(self.enums@),
            pointer_size: self.pointer_size,
        }
    }

    pub closed spec fn struct_layouts(&self) -> Seq<StructLayoutView> {
        self.struct_layouts@.map_values(|layout: GenericStructLayout| struct_layout_view(layout))
    }

    pub closed spec fn enum_layouts(&self) -> Seq<EnumLayoutView> {
        self.enum_layouts@.map_values(|layout: GenericEnumLayout| enum_layout_view(layout))
    }

    fn find_struct(&self, name: &String) -> (index: Option<usize>)
        ensures
            match index {
                Some(i) => i == find_struct(self.spec_definitions().structs, name@) && i < self.structs@.len(),
                None => find_struct(self.spec_definitions().structs, name@) == -1,
            },
    {
        find_struct_index(&self.structs, name)
    }

    fn find_enum(&self, name: &String) -> (index: Option<usize>)
        ensures
            match index {
                Some(i) => i == find_enum(self.spec_definitions().enums, name@) && i < self.enums@.len(),
                None => find_enum(self.spec_definitions().enums, name@) == -1,
            },
    {
        find_enum_index(&self.enums, name)
    }

    /// The layout of `ty`.
    pub fn layout_type(&self, ty: &TypeName, visiting: &mut Vec<String>, fuel: usize) -> (result: Result<ValueLayout, NativeEmitError>)
        ensures
            final(visiting)@ == old(visiting)@,
            outcome(result) == layout_type_spec(
                self.spec_definitions(),
                type_view(*ty),
                text_views(old(visiting)@),
                fuel as nat,
            ),
        decreases fuel, 4nat,
    {
        proof {
            assert(self.spec_definitions().structs.len() == self.structs@.len());
            assert(self.spec_definitions().enums.len() == self.enums@.len());
        }
        if let Some(builtin) = lookup_builtin_type(ty.name.as_str()) {
            return builtin_layout(builtin, self.pointer_size);
        }
        if let Some(index) = self.find_struct(&ty.name) {
            assert(type_view(*ty).arguments =~= type_views(ty.arguments@));
            return match self.layout_struct(&self.structs[index], &ty.arguments, visiting, fuel) {
                Ok(layout) => Ok(ValueLayout { size: layout.size, alignment: layout.alignment }),
                Err(error) => Err(error),
            };
        }
        if let Some(index) = self.find_enum(&ty.name) {
            assert(type_view(*ty).arguments =~= type_views(ty.arguments@));
            return match self.layout_enum(&self.enums[index], &ty.arguments, visiting, fuel) {
                Ok(layout) => Ok(ValueLayout { size: layout.size, alignment: layout.alignment }),
                Err(error) => Err(error),
            };
        }
        Err(message("unknown generic layout type `", ty.name.as_str(), "`"))
    }

    /// Lays out one field after the fields laid out so far.
    fn place_field(
        &self,
        name: Option<String>,
        ty: &TypeName,
        owned: bool,
        substitution: &TypeSubstitution,
        visiting: &mut Vec<String>,
        key: &String,
        fuel: usize,
        offset: u32,
        alignment: u32,
        fields: &mut Vec<GenericFieldLayout>,
    ) -> (result: Result<(u32, u32), NativeEmitError>)
        requires
            fuel > 0,
            substitution.parameters@.len() == substitution.arguments@.len(),
        ensures
            final(visiting)@ == old(visiting)@,
            match layout_type_spec(
                self.spec_definitions(),
                substitution.spec_apply(type_view(*ty)),
                text_views(old(visiting)@),
                (fuel - 1) as nat,
            ) {
                Err(error) => result matches Err(e) && e.spec_message() == error,
                Ok(layout) => match spec_align_up(offset, layout.alignment) {
                    None => result matches Err(e) && e.spec_message() == overflow_message(key@),
                    Some(start) => if start + layout.size > u32::MAX {
                        result matches Err(e) && e.spec_message() == overflow_message(key@)
                    } else {
                        &&& result == Ok::<(u32, u32), NativeEmitError>(
                            ((start + layout.size) as u32, max_u32(alignment, layout.alignment)),
                        )
                        &&& field_views(final(fields)@) == field_views(old(fields)@).push(
                            FieldView {
                                name: option_text_view(name),
                                offset: start,
                                size: layout.size,
                                alignment: layout.alignment,
                                owned,
                            },
                        )
                    },
                },
            },
        decreases fuel, 0nat,
    {
        let substituted = substitution.apply(ty);
        let layout = match self.layout_type(&substituted, visiting, fuel - 1) {
            Ok(layout) => layout,
            Err(error) => {
                return Err(error);
            },
        };
        let start = match align_up(offset, layout.alignment) {
            Some(start) => start,
            None => {
                return Err(message("generic layout for `", key.as_str(), "` does not fit in 32 bits"));
            },
        };
        let end = match start.checked_add(layout.size) {
            Some(end) => end,
            None => {
                return Err(message("generic layout for `", key.as_str(), "` does not fit in 32 bits"));
            },
        };
        fields.push(
            GenericFieldLayout { name, offset: start, size: layout.size, alignment: layout.alignment, owned },
        );
        proof {
            assert(field_views(fields@) =~= field_views(old(fields)@).push(field_view(fields@.last())));
        }
        let widest = if alignment >= layout.alignment { alignment } else { layout.alignment };
        Ok((end, widest))
    }

    fn layout_struct_fields(
        &self,
        definition: &StructDef,
        substitution: &TypeSubstitution,
        visiting: &mut Vec<String>,
        key: &String,
        fuel: usize,
    ) -> (result: Result<(u32, u32, Vec<GenericFieldLayout>), NativeEmitError>)
        requires
            fuel > 0,
            substitution.parameters@.len() == substitution.arguments@.len(),
        ensures
            final(visiting)@ == old(visiting)@,
            fields_outcome(result) == fields_spec(
                self.spec_definitions(),
                struct_items(struct_def_view(*definition)),
                substitution.parameter_views(),
                substitution.argument_views(),
                text_views(old(visiting)@),
                key@,
                fuel as nat,
                definition.fields@.len() as nat,
            ),
        decreases fuel, 1nat,
    {
        let ghost items = struct_items(struct_def_view(*definition));
        let ghost definitions = self.spec_definitions();
        let ghost seen = text_views(visiting@);
        let mut fields: Vec<GenericFieldLayout> = Vec::new();
        let mut offset: u32 = 0;
        let mut alignment: u32 = 1;
        let mut index: usize = 0;
        assert(field_views(fields@) =~= Seq::<FieldView>::empty());
        while index < definition.fields.len()
            invariant
                fuel > 0,
                substitution.parameters@.len() == substitution.arguments@.len(),
                items == struct_items(struct_def_view(*definition)),
                items.len() == definition.fields@.len(),
                definitions == self.spec_definitions(),
                seen == text_views(visiting@),
                visiting@ == old(visiting)@,
                index <= definition.fields@.len(),
                fields_spec(
                    definitions,
                    items,
                    substitution.parameter_views(),
                    substitution.argument_views(),
                    seen,
                    key@,
                    fuel as nat,
                    index as nat,
                ) == Ok::<(u32, u32, Seq<FieldView>), Seq<char>>((offset, alignment, field_views(fields@))),
            decreases definition.fields@.len() - index,
        {
            let field = &definition.fields[index];
            proof {
                assert(items[index as int].ty == type_view(field.ty));
                assert(items[index as int].name == Some(field.name@));
            }
            let owned = match field.role {
                StructFieldRole::Erg => true,
                StructFieldRole::Value => false,
            };
            match self.place_field(
                Some(field.name.clone()),
                &field.ty,
                owned,
                substitution,
                visiting,
                key,
                fuel,
                offset,
                alignment,
                &mut fields,
            ) {
                Ok((next, widest)) => {
                    offset = next;
                    alignment = widest;
                },
                Err(error) => {
                    proof {
                        lemma_fields_error_stable(
                            definitions,
                            items,
                            substitution.parameter_views(),
                            substitution.argument_views(),
                            seen,
                            key@,
                            fuel as nat,
                            (index + 1) as nat,
                            items.len(),
                        );
                    }
                    return Err(error);
                },
            }
            index = index + 1;
        }
        Ok((offset, alignment, fields))
    }

    /// The layout of the struct `definition` applied to `arguments`.
    pub fn layout_struct(
        &self,
        definition: &StructDef,
        arguments: &Vec<TypeName>,
        visiting: &mut Vec<String>,
        fuel: usize,
    ) -> (result: Result<GenericStructLayout, NativeEmitError>)
        ensures
            final(visiting)@ == old(visiting)@,
            struct_outcome(result) == layout_struct_spec(
                self.spec_definitions(),
                struct_def_view(*definition),
                type_views(arguments@),
                text_views(old(visiting)@),
                fuel as nat,
            ),
        decreases fuel, 3nat,
    {
        let key = application_key(definition.name.as_str(), arguments);
        if contains_text(visiting, &key) {
            return Err(message("recursive generic layout for `", key.as_str(), "` is not supported"));
        }
        if fuel == 0 {
            return Err(message("generic layout for `", key.as_str(), "` nests too deeply"));
        }
        let substitution = match TypeSubstitution::for_type(
            definition.name.as_str(),
            &definition.generic_parameters,
            arguments,
            definition.span,
        ) {
            Ok(substitution) => substitution,
            Err(error) => {
                let text = concat(owned("generic substitution failed: "), error.describe().as_str());
                return Err(emit_error(text));
            },
        };
        visiting.push(key.clone());
        proof {
            assert(text_views(visiting@) =~= text_views(old(visiting)@).push(key@));
        }
        let fields = self.layout_struct_fields(definition, &substitution, visiting, &key, fuel);
        visiting.pop();
        proof {
            assert(visiting@ =~= old(visiting)@);
        }
        let (offset, alignment, fields) = match fields {
            Ok(state) => state,
            Err(error) => {
                return Err(error);
            },
        };
        let size = match align_up(offset, alignment) {
            Some(size) => size,
            None => {
                return Err(message("generic layout for `", key.as_str(), "` does not fit in 32 bits"));
            },
        };
        Ok(GenericStructLayout { canonical_key: key, size, alignment, fields })
    }

    fn layout_payload(
        &self,
        payload: &EnumPayload,
        substitution: &TypeSubstitution,
        visiting: &mut Vec<String>,
        key: &String,
        fuel: usize,
    ) -> (result: Result<(u32, u32, Vec<GenericFieldLayout>), NativeEmitError>)
        requires
            fuel > 0,
            substitution.parameters@.len() == substitution.arguments@.len(),
        ensures
            final(visiting)@ == old(visiting)@,
            fields_outcome(result) == fields_spec(
                self.spec_definitions(),
                payload_items(crate::ast::payload_view(*payload)),
                substitution.parameter_views(),
                substitution.argument_views(),
                text_views(old(visiting)@),
                key@,
                fuel as nat,
                payload_items(crate::ast::payload_view(*payload)).len(),
            ),
        decreases fuel, 1nat,
    {
        let ghost items = payload_items(crate::ast::payload_view(*payload));
        let ghost definitions = self.spec_definitions();
        let ghost seen = text_views(visiting@);
        let mut fields: Vec<GenericFieldLayout> = Vec::new();
        let mut offset: u32 = 0;
        let mut alignment: u32 = 1;
        let count: usize = match payload {
            EnumPayload::Unit => 0,
            EnumPayload::Tuple(types) => types.len(),
            EnumPayload::Struct(named) => named.len(),
        };
        let mut index: usize = 0;
        assert(field_views(fields@) =~= Seq::<FieldView>::empty());
        while index < count
            invariant
                fuel > 0,
                substitution.parameters@.len() == substitution.arguments@.len(),
                items == payload_items(crate::ast::payload_view(*payload)),
                items.len() == count,
                count == match *payload {
                    EnumPayload::Unit => 0,
                    EnumPayload::Tuple(types) => types@.len(),
                    EnumPayload::Struct(named) => named@.len(),
                },
                definitions == self.spec_definitions(),
                seen == text_views(visiting@),
                visiting@ == old(visiting)@,
                index <= count,
                fields_spec(
                    definitions,
                    items,
                    substitution.parameter_views(),
                    substitution.argument_views(),
                    seen,
                    key@,
                    fuel as nat,
                    index as nat,
                ) == Ok::<(u32, u32, Seq<FieldView>), Seq<char>>((offset, alignment, field_views(fields@))),
            decreases count - index,
        {
            let placed = match payload {
                EnumPayload::Unit => {
                    proof {
                        assert(false);
                    }
                    Ok((offset, alignment))
                },
                EnumPayload::Tuple(types) => {
                    proof {
                        assert(items[index as int].ty == type_view(types@[index as int]));
                        assert(items[index as int].name is None);
                    }
                    self.place_field(
                        None,
                        &types[index],
                        false,
                        substitution,
                        visiting,
                        key,
                        fuel,
                        offset,
                        alignment,
                        &mut fields,
                    )
                },
                EnumPayload::Struct(named) => {
                    proof {
                        assert(items[index as int].ty == type_view(named@[index as int].ty));
                        assert(items[index as int].name == Some(named@[index as int].name@));
                    }
                    self.place_field(
                        Some(named[index].name.clone()),
                        &named[index].ty,
                        false,
                        substitution,
                        visiting,
                        key,
                        fuel,
                        offset,
                        alignment,
                        &mut fields,
                    )
                },
            };
            match placed {
                Ok((next, widest)) => {
                    offset = next;
                    alignment = widest;
                },
                Err(error) => {
                    proof {
                        lemma_fields_error_stable(
                            definitions,
                            items,
                            substitution.parameter_views(),
                            substitution.argument_views(),
                            seen,
                            key@,
                            fuel as nat,
                            (index + 1) as nat,
                            items.len(),
                        );
                    }
                    return Err(error);
                },
            }
            index = index + 1;
        }
        Ok((offset, alignment, fields))
    }

    fn layout_enum_variants(
        &self,
        definition: &EnumDef,
        substitution: &TypeSubstitution,
        visiting: &mut Vec<String>,
        key: &String,
        fuel: usize,
    ) -> (result: Result<(u32, u32, Vec<GenericEnumVariantLayout>), NativeEmitError>)
        requires
            fuel > 0,
            substitution.parameters@.len() == substitution.arguments@.len(),
            substitution.parameter_views() == enum_def_view(*definition).parameters,
        ensures
            final(visiting)@ == old(visiting)@,
            match result {
                Ok((size, alignment, variants)) => variants_spec(
                    self.spec_definitions(),
                    enum_def_view(*definition),
                    substitution.argument_views(),
                    text_views(old(visiting)@),
                    key@,
                    fuel as nat,
                    definition.variants@.len() as nat,
                ) == Ok::<(u32, u32, Seq<VariantLayoutView>), Seq<char>>(
                    (size, alignment, variants@.map_values(|variant: GenericEnumVariantLayout| variant_layout_view(variant))),
                ),
                Err(error) => variants_spec(
                    self.spec_definitions(),
                    enum_def_view(*definition),
                    substitution.argument_views(),
                    text_views(old(visiting)@),
                    key@,
                    fuel as nat,
                    definition.variants@.len() as nat,
                ) == Err::<(u32, u32, Seq<VariantLayoutView>), Seq<char>>(error.spec_message()),
            },
        decreases fuel, 2nat,
    {
        let ghost view = enum_def_view(*definition);
        let ghost definitions = self.spec_definitions();
        let ghost seen = text_views(visiting@);
        let mut variants: Vec<GenericEnumVariantLayout> = Vec::new();
        let mut max_payload_size: u32 = 0;
        let mut max_alignment: u32 = 1;
        let mut index: usize = 0;
        assert(variants@.map_values(|variant: GenericEnumVariantLayout| variant_layout_view(variant))
            =~= Seq::<VariantLayoutView>::empty());
        while index < definition.variants.len()
            invariant
                fuel > 0,
                substitution.parameters@.len() == substitution.arguments@.len(),
                substitution.parameter_views() == view.parameters,
                view == enum_def_view(*definition),
                view.variants.len() == definition.variants@.len(),
                definitions == self.spec_definitions(),
                seen == text_views(visiting@),
                visiting@ == old(visiting)@,
                index <= definition.variants@.len(),
                variants_spec(definitions, view, substitution.argument_views(), seen, key@, fuel as nat, index as nat)
                    == Ok::<(u32, u32, Seq<VariantLayoutView>), Seq<char>>(
                    (
                        max_payload_size,
                        max_alignment,
                        variants@.map_values(|variant: GenericEnumVariantLayout| variant_layout_view(variant)),
                    ),
                ),
            decreases definition.variants@.len() - index,
        {
            let variant = &definition.variants[index];
            proof {
                assert(view.variants[index as int] == crate::ast::enum_variant_view(*variant));
            }
            let payload = match self.layout_payload(&variant.payload, substitution, visiting, key, fuel) {
                Ok(payload) => payload,
                Err(error) => {
                    proof {
                        lemma_variants_error_stable(
                            definitions,
                            view,
                            substitution.argument_views(),
                            seen,
                            key@,
                            fuel as nat,
                            (index + 1) as nat,
                            view.variants.len(),
                        );
                    }
                    return Err(error);
                },
            };
            let (offset, alignment, fields) = payload;
            let payload_size = match align_up(offset, alignment) {
                Some(size) => size,
                None => {
                    proof {
                        lemma_variants_error_stable(
                            definitions,
                            view,
                            substitution.argument_views(),
                            seen,
                            key@,
                            fuel as nat,
                            (index + 1) as nat,
                            view.variants.len(),
                        );
                    }
                    return Err(message("generic layout for `", key.as_str(), "` does not fit in 32 bits"));
                },
            };
            if index > 4294967295usize {
                proof {
                    lemma_variants_error_stable(
                        definitions,
                        view,
                        substitution.argument_views(),
                        seen,
                        key@,
                        fuel as nat,
                        (index + 1) as nat,
                        view.variants.len(),
                    );
                }
                return Err(emit_error(owned("enum has too many variants")));
            }
            let ghost before = variants@.map_values(|variant: GenericEnumVariantLayout| variant_layout_view(variant));
            variants.push(
                GenericEnumVariantLayout { name: variant.name.clone(), discriminant: index as u32, fields },
            );
            proof {
                assert(variants@.map_values(|variant: GenericEnumVariantLayout| variant_layout_view(variant))
                    =~= before.push(variant_layout_view(variants@.last())));
            }
            if payload_size > max_payload_size {
                max_payload_size = payload_size;
            }
            if alignment > max_alignment {
                max_alignment = alignment;
            }
            index = index + 1;
        }
        Ok((max_payload_size, max_alignment, variants))
    }

    /// The layout of the enum `definition` applied to `arguments`.
    pub fn layout_enum(
        &self,
        definition: &EnumDef,
        arguments: &Vec<TypeName>,
        visiting: &mut Vec<String>,
        fuel: usize,
    ) -> (result: Result<GenericEnumLayout, NativeEmitError>)
        ensures
            final(visiting)@ == old(visiting)@,
            enum_outcome(result) == layout_enum_spec(
                self.spec_definitions(),
                enum_def_view(*definition),
                type_views(arguments@),
                text_views(old(visiting)@),
                fuel as nat,
            ),
        decreases fuel, 3nat,
    {
        let key = application_key(definition.name.as_str(), arguments);
        if contains_text(visiting, &key) {
            return Err(message("recursive generic layout for `", key.as_str(), "` is not supported"));
        }
        if fuel == 0 {
            return Err(message("generic layout for `", key.as_str(), "` nests too deeply"));
        }
        let substitution = match TypeSubstitution::for_type(
            definition.name.as_str(),
            &definition.generic_parameters,
            arguments,
            definition.span,
        ) {
            Ok(substitution) => substitution,
            Err(error) => {
                let text = concat(owned("generic substitution failed: "), error.describe().as_str());
                return Err(emit_error(text));
            },
        };
        visiting.push(key.clone());
        proof {
            assert(text_views(visiting@) =~= text_views(old(visiting)@).push(key@));
        }
        let variants = self.layout_enum_variants(definition, &substitution, visiting, &key, fuel);
        visiting.pop();
        proof {
            assert(visiting@ =~= old(visiting)@);
        }
        let (max_payload_size, max_alignment, variants) = match variants {
            Ok(state) => state,
            Err(error) => {
                return Err(error);
            },
        };
        let payload_offset = match align_up(4, max_alignment) {
            Some(offset) => offset,
            None => {
                return Err(message("generic layout for `", key.as_str(), "` does not fit in 32 bits"));
            },
        };
        let alignment = if max_alignment > 4 { max_alignment } else { 4 };
        let end = match payload_offset.checked_add(max_payload_size) {
            Some(end) => end,
            None => {
                return Err(message("generic layout for `", key.as_str(), "` does not fit in 32 bits"));
            },
        };
        let size = match align_up(end, alignment) {
            Some(size) => size,
            None => {
                return Err(message("generic layout for `", key.as_str(), "` does not fit in 32 bits"));
            },
        };
        Ok(GenericEnumLayout { canonical_key: key, size, alignment, payload_offset, max_payload_size, variants })
    }
}

/// An error among the first `count` fields stays the error when more fields follow.
pub proof fn lemma_fields_error_stable(
    definitions: Definitions,
    items: Seq<FieldItem>,
    parameters: Seq<Seq<char>>,
    arguments: Seq<TypeView>,
    visiting: Seq<Seq<char>>,
    key: Seq<char>,
    fuel: nat,
    count: nat,
    end: nat,
)
    requires
        count <= end <= items.len(),
        fields_spec(definitions, items, parameters, arguments, visiting, key, fuel, count) is Err,
    ensures
        fields_spec(definitions, items, parameters, arguments, visiting, key, fuel, end) == fields_spec(
            definitions,
            items,
            parameters,
            arguments,
            visiting,
            key,
            fuel,
            count,
        ),
    decreases end - count,
{
    if end > count {
        lemma_fields_error_stable(definitions, items, parameters, arguments, visiting, key, fuel, count, (end - 1) as nat);
    }
}

/// An error among the first `count` variants stays the error when more variants follow.
pub proof fn lemma_variants_error_stable(
    definitions: Definitions,
    definition: EnumDefView,
    arguments: Seq<TypeView>,
    visiting: Seq<Seq<char>>,
    key: Seq<char>,
    fuel: nat,
    count: nat,
    end: nat,
)
    requires
        count <= end <= definition.variants.len(),
        variants_spec(definitions, definition, arguments, visiting, key, fuel, count) is Err,
    ensures
        variants_spec(definitions, definition, arguments, visiting, key, fuel, end) == variants_spec(
            definitions,
            definition,
            arguments,
            visiting,
            key,
            fuel,
            count,
        ),
    decreases end - count,
{
    if end > count {
        lemma_variants_error_stable(definitions, definition, arguments, visiting, key, fuel, count, (end - 1) as nat);
    }
}

} // verus!

verus! {

/// The struct definitions among `declarations`, in order.
pub open spec fn declared_structs(declarations: Seq<TopLevelDecl>) -> Seq<StructDefView>
    decreases declarations.len(),
{
    if declarations.len() == 0 {
        Seq::empty()
    } else {
        declared_structs(declarations.drop_last()) + match declarations.last() {
            TopLevelDecl::Struct(definition) => seq![struct_def_view(definition)],
            _ => Seq::empty(),
        }
    }
}

/// The enum definitions among `declarations`, in order.
pub open spec fn declared_enums(declarations: Seq<TopLevelDecl>) -> Seq<EnumDefView>
    decreases declarations.len(),
{
    if declarations.len() == 0 {
        Seq::empty()
    } else {
        declared_enums(declarations.drop_last()) + match declarations.last() {
            TopLevelDecl::Enum(definition) => seq![enum_def_view(definition)],
            _ => Seq::empty(),
        }
    }
}

pub open spec fn zero_span_view() -> crate::span::SourceSpan {
    crate::span::SourceSpan { start: 0, end: 0 }
}

pub open spec fn plain_type_view(name: Seq<char>) -> TypeView {
    TypeView { name, arguments: Seq::empty(), span: zero_span_view() }
}

pub open spec fn single_variant_view(name: Seq<char>, ty: Seq<char>) -> crate::ast::EnumVariantView {
    crate::ast::EnumVariantView {
        name,
        payload: PayloadView::Tuple(seq![plain_type_view(ty)]),
        span: zero_span_view(),
    }
}

/// `Option[T]` and `Result[T, E]`, as `builtin_enum_definitions` returns them.
pub open spec fn builtin_enum_views() -> Seq<EnumDefView> {
    seq![
        EnumDefView {
            name: "Option"@,
            parameters: seq!["T"@],
            variants: seq![
                single_variant_view("Some"@, "T"@),
                crate::ast::EnumVariantView { name: "None"@, payload: PayloadView::Unit, span: zero_span_view() },
            ],
            span: zero_span_view(),
        },
        EnumDefView {
            name: "Result"@,
            parameters: seq!["T"@, "E"@],
            variants: seq![single_variant_view("Ok"@, "T"@), single_variant_view("Err"@, "E"@)],
            span: zero_span_view(),
        },
    ]
}

pub proof fn lemma_builtin_enum_views(definitions: Seq<EnumDef>)
    requires
        crate::ast::is_builtin_enum_list(definitions),
    ensures
        enum_def_views(definitions) == builtin_enum_views(),
{
    let views = enum_def_views(definitions);
    let expected = builtin_enum_views();
    let option = definitions[0];
    let result = definitions[1];
    assert(enum_def_view(option).parameters =~= expected[0].parameters);
    assert(enum_def_view(result).parameters =~= expected[1].parameters);
    match option.variants@[0].payload {
        EnumPayload::Tuple(types) => {
            assert(type_view(types@[0]).arguments =~= Seq::<TypeView>::empty());
            assert(type_views(types@) =~= seq![plain_type_view("T"@)]);
        },
        _ => {},
    }
    match result.variants@[0].payload {
        EnumPayload::Tuple(types) => {
            assert(type_view(types@[0]).arguments =~= Seq::<TypeView>::empty());
            assert(type_views(types@) =~= seq![plain_type_view("T"@)]);
        },
        _ => {},
    }
    match result.variants@[1].payload {
        EnumPayload::Tuple(types) => {
            assert(type_view(types@[0]).arguments =~= Seq::<TypeView>::empty());
            assert(type_views(types@) =~= seq![plain_type_view("E"@)]);
        },
        _ => {},
    }
    assert(enum_def_view(option).variants =~= expected[0].variants);
    assert(enum_def_view(result).variants =~= expected[1].variants);
    assert(views =~= expected);
}

/// What the layout of a program is computed against: its structs, then the built-in enums
/// followed by its own enums, so that a program's enum shadows a built-in one of the same name.
pub open spec fn program_definitions(program: Program, pointer_size: u32) -> Definitions {
    Definitions {
        structs: declared_structs(program.declarations@),
        enums: builtin_enum_views() + declared_enums(program.declarations@),
        pointer_size,
    }
}

/// The structs and enums that a program declares, with the built-in enums first.
pub fn definitions(program: &Program) -> (result: (Vec<StructDef>, Vec<EnumDef>))
    ensures
        struct_def_views(result.0@) == declared_structs(program.declarations@),
        enum_def_views(result.1@) == builtin_enum_views() + declared_enums(program.declarations@),
{
    (
        super::generic_definitions::struct_definitions(program),
        super::generic_definitions::enum_definitions(program),
    )
}

/// A generic instance as layout sees it.
pub struct InstanceView {
    pub name: Seq<char>,
    pub arguments: Seq<TypeView>,
}

pub open spec fn instance_view(instance: GenericInstance) -> InstanceView {
    InstanceView { name: instance.name@, arguments: type_views(instance.arguments@) }
}

pub open spec fn instance_views(instances: Seq<GenericInstance>) -> Seq<InstanceView> {
    instances.map_values(|instance: GenericInstance| instance_view(instance))
}

/// The layouts of the first `count` instances, structs and enums apart, in the order the
/// instances come; an instance that names neither a struct nor an enum is skipped.
pub open spec fn instance_layouts(
    definitions: Definitions,
    instances: Seq<InstanceView>,
    count: nat,
) -> Result<(Seq<StructLayoutView>, Seq<EnumLayoutView>), Seq<char>>
    decreases count,
{
    if count == 0 || count > instances.len() {
        Ok((Seq::empty(), Seq::empty()))
    } else {
        match instance_layouts(definitions, instances, (count - 1) as nat) {
            Err(error) => Err(error),
            Ok((structs, enums)) => {
                let instance = instances[count - 1];
                let s = find_struct(definitions.structs, instance.name);
                let e = find_enum(definitions.enums, instance.name);
                if 0 <= s < definitions.structs.len() {
                    match layout_struct_spec(
                        definitions,
                        definitions.structs[s],
                        instance.arguments,
                        Seq::empty(),
                        GENERIC_LAYOUT_FUEL as nat,
                    ) {
                        Err(error) => Err(error),
                        Ok(layout) => Ok((structs.push(layout), enums)),
                    }
                } else if 0 <= e < definitions.enums.len() {
                    match layout_enum_spec(
                        definitions,
                        definitions.enums[e],
                        instance.arguments,
                        Seq::empty(),
                        GENERIC_LAYOUT_FUEL as nat,
                    ) {
                        Err(error) => Err(error),
                        Ok(layout) => Ok((structs, enums.push(layout))),
                    }
                } else {
                    Ok((structs, enums))
                }
            },
        }
    }
}

/// The position of the last struct layout with this key, or -1.
pub open spec fn last_struct_layout(layouts: Seq<StructLayoutView>, key: Seq<char>) -> int
    decreases layouts.len(),
{
    if layouts.len() == 0 {
        -1
    } else if layouts.last().key == key {
        layouts.len() - 1
    } else {
        last_struct_layout(layouts.drop_last(), key)
    }
}

/// The position of the last enum layout with this key, or -1.
pub open spec fn last_enum_layout(layouts: Seq<EnumLayoutView>, key: Seq<char>) -> int
    decreases layouts.len(),
{
    if layouts.len() == 0 {
        -1
    } else if layouts.last().key == key {
        layouts.len() - 1
    } else {
        last_enum_layout(layouts.drop_last(), key)
    }
}

impl GenericLayoutRegistry {
    fn layout_instance(&mut self, instance: &GenericInstance) -> (result: Result<(), NativeEmitError>)
        ensures
            final(self).spec_definitions() == old(self).spec_definitions(),
            match result {
                Ok(()) => {
                    let s = find_struct(old(self).spec_definitions().structs, instance.name@);
                    let e = find_enum(old(self).spec_definitions().enums, instance.name@);
                    if 0 <= s < old(self).spec_definitions().structs.len() {
                        layout_struct_spec(
                            old(self).spec_definitions(),
                            old(self).spec_definitions().structs[s],
                            type_views(instance.arguments@),
                            Seq::empty(),
                            GENERIC_LAYOUT_FUEL as nat,
                        ) matches Ok(layout) && final(self).struct_layouts() == old(self).struct_layouts().push(layout)
                            && final(self).enum_layouts() == old(self).enum_layouts()
                    } else if 0 <= e < old(self).spec_definitions().enums.len() {
                        layout_enum_spec(
                            old(self).spec_definitions(),
                            old(self).spec_definitions().enums[e],
                            type_views(instance.arguments@),
                            Seq::empty(),
                            GENERIC_LAYOUT_FUEL as nat,
                        ) matches Ok(layout) && final(self).enum_layouts() == old(self).enum_layouts().push(layout)
                            && final(self).struct_layouts() == old(self).struct_layouts()
                    } else {
                        final(self).struct_layouts() == old(self).struct_layouts()
                            && final(self).enum_layouts() == old(self).enum_layouts()
                    }
                },
                Err(error) => {
                    let s = find_struct(old(self).spec_definitions().structs, instance.name@);
                    let e = find_enum(old(self).spec_definitions().enums, instance.name@);
                    if 0 <= s < old(self).spec_definitions().structs.len() {
                        layout_struct_spec(
                            old(self).spec_definitions(),
                            old(self).spec_definitions().structs[s],
                            type_views(instance.arguments@),
                            Seq::empty(),
                            GENERIC_LAYOUT_FUEL as nat,
                        ) == Err::<StructLayoutView, Seq<char>>(error.spec_message())
                    } else {
                        &&& 0 <= e < old(self).spec_definitions().enums.len()
                        &&& layout_enum_spec(
                            old(self).spec_definitions(),
                            old(self).spec_definitions().enums[e],
                            type_views(instance.arguments@),
                            Seq::empty(),
                            GENERIC_LAYOUT_FUEL as nat,
                        ) == Err::<EnumLayoutView, Seq<char>>(error.spec_message())
                    }
                },
            },
    {
        proof {
            assert(self.spec_definitions().structs.len() == self.structs@.len());
            assert(self.spec_definitions().enums.len() == self.enums@.len());
        }
        let mut visiting: Vec<String> = Vec::new();
        assert(text_views(visiting@) =~= Seq::<Seq<char>>::empty());
        if let Some(index) = self.find_struct(&instance.name) {
            let layout = self.layout_struct(&self.structs[index], &instance.arguments, &mut visiting, GENERIC_LAYOUT_FUEL)?;
            let ghost before = self.struct_layouts();
            self.struct_layouts.push(layout);
            proof {
                assert(self.struct_layouts() =~= before.push(struct_layout_view(layout)));
            }
        } else if let Some(index) = self.find_enum(&instance.name) {
            let layout = self.layout_enum(&self.enums[index], &instance.arguments, &mut visiting, GENERIC_LAYOUT_FUEL)?;
            let ghost before = self.enum_layouts();
            self.enum_layouts.push(layout);
            proof {
                assert(self.enum_layouts() =~= before.push(enum_layout_view(layout)));
            }
        }
        Ok(())
    }

    /// Lays out every instance that names a struct or an enum of `program`. The first instance
    /// that cannot be laid out gives the error.
    pub fn from_program(
        program: &Program,
        instances: &[GenericInstance],
        pointer_size: u32,
    ) -> (result: Result<Self, NativeEmitError>)
        ensures
            match result {
                Ok(registry) => {
                    &&& registry.spec_definitions() == program_definitions(*program, pointer_size)
                    &&& instance_layouts(
                        program_definitions(*program, pointer_size),
                        instance_views(instances@),
                        instances@.len() as nat,
                    ) == Ok::<(Seq<StructLayoutView>, Seq<EnumLayoutView>), Seq<char>>(
                        (registry.struct_layouts(), registry.enum_layouts()),
                    )
                },
                Err(error) => instance_layouts(
                    program_definitions(*program, pointer_size),
                    instance_views(instances@),
                    instances@.len() as nat,
                ) == Err::<(Seq<StructLayoutView>, Seq<EnumLayoutView>), Seq<char>>(error.spec_message()),
            },
    {
        let (structs, enums) = definitions(program);
        let mut registry = GenericLayoutRegistry {
            structs,
            enums,
            pointer_size,
            struct_layouts: Vec::new(),
            enum_layouts: Vec::new(),
        };
        let ghost d = program_definitions(*program, pointer_size);
        let ghost views = instance_views(instances@);
        proof {
            assert(registry.spec_definitions() == d);
            assert(registry.struct_layouts() =~= Seq::<StructLayoutView>::empty());
            assert(registry.enum_layouts() =~= Seq::<EnumLayoutView>::empty());
        }
        let mut index: usize = 0;
        while index < instances.len()
            invariant
                index <= instances@.len(),
                views == instance_views(instances@),
                d == program_definitions(*program, pointer_size),
                registry.spec_definitions() == d,
                instance_layouts(d, views, index as nat) == Ok::<(Seq<StructLayoutView>, Seq<EnumLayoutView>), Seq<char>>(
                    (registry.struct_layouts(), registry.enum_layouts()),
                ),
            decreases instances@.len() - index,
        {
            proof {
                assert(views[index as int] == instance_view(instances@[index as int]));
            }
            match registry.layout_instance(&instances[index]) {
                Ok(()) => {},
                Err(error) => {
                    proof {
                        lemma_instances_error_stable(d, views, (index + 1) as nat, views.len());
                    }
                    return Err(error);
                },
            }
            index = index + 1;
        }
        Ok(registry)
    }

    /// The layout of the struct instance with this canonical key, if one was laid out.
    pub fn struct_layout(&self, key: &str) -> (layout: Option<&GenericStructLayout>)
        ensures
            match layout {
                Some(layout) => {
                    let i = last_struct_layout(self.struct_layouts(), key@);
                    0 <= i < self.struct_layouts().len() && struct_layout_view(*layout) == self.struct_layouts()[i]
                },
                None => last_struct_layout(self.struct_layouts(), key@) == -1,
            },
    {
        let mut remaining: usize = self.struct_layouts.len();
        assert(self.struct_layouts().take(remaining as int) =~= self.struct_layouts());
        while remaining > 0
            invariant
                remaining <= self.struct_layouts@.len(),
                self.struct_layouts().len() == self.struct_layouts@.len(),
                last_struct_layout(self.struct_layouts(), key@) == last_struct_layout(
                    self.struct_layouts().take(remaining as int),
                    key@,
                ),
            decreases remaining,
        {
            let ghost prefix = self.struct_layouts().take(remaining as int);
            assert(prefix.last() == struct_layout_view(self.struct_layouts@[remaining - 1]));
            if crate::text::str_eq(self.struct_layouts[remaining - 1].canonical_key.as_str(), key) {
                return Some(&self.struct_layouts[remaining - 1]);
            }
            assert(prefix.drop_last() =~= self.struct_layouts().take(remaining - 1));
            remaining = remaining - 1;
        }
        None
    }

    /// The layout of the enum instance with this canonical key, if one was laid out.
    pub fn enum_layout(&self, key: &str) -> (layout: Option<&GenericEnumLayout>)
        ensures
            match layout {
                Some(layout) => {
                    let i = last_enum_layout(self.enum_layouts(), key@);
                    0 <= i < self.enum_layouts().len() && enum_layout_view(*layout) == self.enum_layouts()[i]
                },
                None => last_enum_layout(self.enum_layouts(), key@) == -1,
            },
    {
        let mut remaining: usize = self.enum_layouts.len();
        assert(self.enum_layouts().take(remaining as int) =~= self.enum_layouts());
        while remaining > 0
            invariant
                remaining <= self.enum_layouts@.len(),
                self.enum_layouts().len() == self.enum_layouts@.len(),
                last_enum_layout(self.enum_layouts(), key@) == last_enum_layout(
                    self.enum_layouts().take(remaining as int),
                    key@,
                ),
            decreases remaining,
        {
            let ghost prefix = self.enum_layouts().take(remaining as int);
            assert(prefix.last() == enum_layout_view(self.enum_layouts@[remaining - 1]));
            if crate::text::str_eq(self.enum_layouts[remaining - 1].canonical_key.as_str(), key) {
                return Some(&self.enum_layouts[remaining - 1]);
            }
            assert(prefix.drop_last() =~= self.enum_layouts().take(remaining - 1));
            remaining = remaining - 1;
        }
        None
    }
}

/// An error at an early instance stays the error when more instances follow.
pub proof fn lemma_instances_error_stable(definitions: Definitions, instances: Seq<InstanceView>, count: nat, end: nat)
    requires
        count <= end <= instances.len(),
        instance_layouts(definitions, instances, count) is Err,
    ensures
        instance_layouts(definitions, instances, end) == instance_layouts(definitions, instances, count),
    decreases end - count,
{
    if end > count {
        lemma_instances_error_stable(definitions, instances, count, (end - 1) as nat);
    }
}

} // verus!

verus! {

/// Fields placed one after the other below `end`: each at an offset its alignment allows,
/// none overlapping the next, none aligned more strictly than `alignment`.
pub open spec fn fields_well_placed(fields: Seq<FieldView>, end: int, alignment: int) -> bool {
    &&& forall|i: int| 0 <= i < fields.len() && fields[i].alignment > 0 ==> fields[i].offset % fields[i].alignment == 0
    &&& forall|i: int, j: int| 0 <= i < j < fields.len() ==> fields[i].offset + fields[i].size <= fields[j].offset
    &&& forall|i: int| 0 <= i < fields.len() ==> fields[i].offset + fields[i].size <= end
    &&& forall|i: int| 0 <= i < fields.len() ==> fields[i].alignment <= alignment
}

/// `alignment` is the largest of 1 and the alignments of `fields`.
pub open spec fn largest_alignment(fields: Seq<FieldView>, alignment: int) -> bool {
    &&& alignment >= 1
    &&& forall|i: int| 0 <= i < fields.len() ==> fields[i].alignment <= alignment
    &&& alignment == 1 || exists|i: int| 0 <= i < fields.len() && fields[i].alignment == alignment
}

proof fn lemma_fields_placed(
    definitions: Definitions,
    items: Seq<FieldItem>,
    parameters: Seq<Seq<char>>,
    arguments: Seq<TypeView>,
    visiting: Seq<Seq<char>>,
    key: Seq<char>,
    fuel: nat,
    count: nat,
)
    ensures
        fields_spec(definitions, items, parameters, arguments, visiting, key, fuel, count) matches Ok((end, alignment, fields)) ==> {
            &&& fields.len() == if count <= items.len() { count } else { 0 }
            &&& fields_well_placed(fields, end as int, alignment as int)
            &&& largest_alignment(fields, alignment as int)
            &&& forall|i: int| 0 <= i < fields.len() ==> fields[i].name == items[i].name
        },
    decreases count,
{
    if count > 0 && count <= items.len() && fuel > 0 {
        lemma_fields_placed(definitions, items, parameters, arguments, visiting, key, fuel, (count - 1) as nat);
        if let Ok((offset, alignment, fields)) = fields_spec(
            definitions,
            items,
            parameters,
            arguments,
            visiting,
            key,
            fuel,
            (count - 1) as nat,
        ) {
            let item = items[count - 1];
            if let Ok(layout) = layout_type_spec(
                definitions,
                substitute(parameters, arguments, item.ty),
                visiting,
                (fuel - 1) as nat,
            ) {
                if layout.alignment > 0 {
                    super::layout::law_align_up(offset, layout.alignment);
                }
                if let Some(start) = spec_align_up(offset, layout.alignment) {
                    if start + layout.size <= u32::MAX {
                        let placed = fields.push(
                            FieldView {
                                name: item.name,
                                offset: start,
                                size: layout.size,
                                alignment: layout.alignment,
                                owned: item.owned,
                            },
                        );
                        let widest = max_u32(alignment, layout.alignment);
                        assert(start >= offset);
                        assert(fields_well_placed(placed, start + layout.size, widest as int));
                        if widest != 1 && widest == layout.alignment {
                            assert(placed[fields.len() as int].alignment == widest);
                        }
                        if widest != 1 && widest == alignment {
                            let w = choose|i: int| 0 <= i < fields.len() && fields[i].alignment == alignment;
                            assert(placed[w].alignment == widest);
                        }
                        assert(largest_alignment(placed, widest as int));
                    }
                }
            }
        }
    }
}

/// A generic struct's fields come in declaration order, each at an offset its alignment
/// allows, none overlapping the next, all within the struct's size. The struct's alignment is
/// the largest of 1 and its fields' alignments, and its size is a multiple of it.
pub proof fn law_generic_struct_layout(
    definitions: Definitions,
    definition: StructDefView,
    arguments: Seq<TypeView>,
    visiting: Seq<Seq<char>>,
    fuel: nat,
)
    ensures
        layout_struct_spec(definitions, definition, arguments, visiting, fuel) matches Ok(layout) ==> {
            &&& layout.size % layout.alignment == 0
            &&& layout.fields.len() == definition.fields.len()
            &&& fields_well_placed(layout.fields, layout.size as int, layout.alignment as int)
            &&& largest_alignment(layout.fields, layout.alignment as int)
            &&& forall|i: int| 0 <= i < layout.fields.len() ==> layout.fields[i].name == Some(definition.fields[i].name)
        },
{
    let key = application_key_spec(definition.name, arguments);
    if !visiting.contains(key) && fuel > 0 && definition.parameters.len() == arguments.len() {
        let items = struct_items(definition);
        lemma_fields_placed(definitions, items, definition.parameters, arguments, visiting.push(key), key, fuel, items.len());
        if let Ok((offset, alignment, fields)) = fields_spec(
            definitions,
            items,
            definition.parameters,
            arguments,
            visiting.push(key),
            key,
            fuel,
            items.len(),
        ) {
            super::layout::law_align_up(offset, alignment);
            assert forall|i: int| 0 <= i < fields.len() implies fields[i].name == Some(definition.fields[i].name) by {
                assert(items[i].name == Some(definition.fields[i].name));
            }
        }
    }
}

/// The rounded size of the payload of the variant at `index` of `definition`, laid out on its
/// own, if it can be laid out.
pub open spec fn variant_payload_size(
    definitions: Definitions,
    definition: EnumDefView,
    arguments: Seq<TypeView>,
    visiting: Seq<Seq<char>>,
    key: Seq<char>,
    fuel: nat,
    index: int,
) -> Option<u32> {
    let items = payload_items(definition.variants[index].payload);
    match fields_spec(definitions, items, definition.parameters, arguments, visiting, key, fuel, items.len()) {
        Ok((end, alignment, _)) => spec_align_up(end, alignment),
        Err(_) => None,
    }
}

proof fn lemma_variants_placed(
    definitions: Definitions,
    definition: EnumDefView,
    arguments: Seq<TypeView>,
    visiting: Seq<Seq<char>>,
    key: Seq<char>,
    fuel: nat,
    count: nat,
)
    ensures
        variants_spec(definitions, definition, arguments, visiting, key, fuel, count) matches Ok((size, alignment, variants)) ==> {
            &&& alignment >= 1
            &&& variants.len() == if count <= definition.variants.len() { count } else { 0 }
            &&& forall|i: int| 0 <= i < variants.len() ==> variants[i].discriminant == i
            &&& forall|i: int| 0 <= i < variants.len() ==> variants[i].name == definition.variants[i].name
            &&& forall|i: int| 0 <= i < variants.len() ==> fields_well_placed(#[trigger] variants[i].fields, size as int, alignment as int)
            &&& size == 0 || exists|i: int|
                0 <= i < variants.len() && variant_payload_size(definitions, definition, arguments, visiting, key, fuel, i)
                    == Some(size)
        },
    decreases count,
{
    if count > 0 && count <= definition.variants.len() {
        lemma_variants_placed(definitions, definition, arguments, visiting, key, fuel, (count - 1) as nat);
        if let Ok((max_size, max_alignment, variants)) = variants_spec(
            definitions,
            definition,
            arguments,
            visiting,
            key,
            fuel,
            (count - 1) as nat,
        ) {
            let variant = definition.variants[count - 1];
            let items = payload_items(variant.payload);
            lemma_fields_placed(definitions, items, definition.parameters, arguments, visiting, key, fuel, items.len());
            if let Ok((offset, alignment, fields)) = fields_spec(
                definitions,
                items,
                definition.parameters,
                arguments,
                visiting,
                key,
                fuel,
                items.len(),
            ) {
                super::layout::law_align_up(offset, alignment);
                if let Some(payload_size) = spec_align_up(offset, alignment) {
                    if count - 1 <= u32::MAX {
                        let size = max_u32(max_size, payload_size);
                        let widest = max_u32(max_alignment, alignment);
                        let placed = variants.push(
                            VariantLayoutView { name: variant.name, discriminant: (count - 1) as u32, fields },
                        );
                        assert forall|i: int| 0 <= i < placed.len() implies fields_well_placed(
                            #[trigger] placed[i].fields,
                            size as int,
                            widest as int,
                        ) by {
                            if i < variants.len() {
                                assert(fields_well_placed(variants[i].fields, max_size as int, max_alignment as int));
                            }
                        }
                        if size != 0 {
                            if size == payload_size {
                                assert(variant_payload_size(definitions, definition, arguments, visiting, key, fuel, count - 1)
                                    == Some(size));
                            } else {
                                let w = choose|w: int|
                                    0 <= w < variants.len() && variant_payload_size(
                                        definitions,
                                        definition,
                                        arguments,
                                        visiting,
                                        key,
                                        fuel,
                                        w,
                                    ) == Some(max_size);
                                assert(variant_payload_size(definitions, definition, arguments, visiting, key, fuel, w)
                                    == Some(size));
                            }
                        }
                    }
                }
            }
        }
    }
}

/// A generic enum keeps a 4-byte discriminant before its payload, which starts at offset 4 or
/// later; each variant's discriminant is its position; within each payload the fields lie at
/// offsets their alignments allow, none overlapping the next, all within the largest payload;
/// the largest payload size is the rounded size of some variant's payload, or 0; the size
/// holds the largest payload and is a multiple of the alignment, which is at least 4 and at
/// least every field's.
pub proof fn law_generic_enum_layout(
    definitions: Definitions,
    definition: EnumDefView,
    arguments: Seq<TypeView>,
    visiting: Seq<Seq<char>>,
    fuel: nat,
)
    ensures
        layout_enum_spec(definitions, definition, arguments, visiting, fuel) matches Ok(layout) ==> {
            &&& layout.alignment >= 4
            &&& layout.payload_offset >= 4
            &&& layout.payload_offset + layout.max_payload_size <= layout.size
            &&& layout.size % layout.alignment == 0
            &&& layout.variants.len() == definition.variants.len()
            &&& forall|i: int| 0 <= i < layout.variants.len() ==> layout.variants[i].discriminant == i
            &&& forall|i: int| 0 <= i < layout.variants.len() ==> layout.variants[i].name == definition.variants[i].name
            &&& forall|i: int|
                0 <= i < layout.variants.len() ==> fields_well_placed(
                    #[trigger] layout.variants[i].fields,
                    layout.max_payload_size as int,
                    layout.alignment as int,
                )
            &&& layout.max_payload_size == 0 || exists|i: int|
                0 <= i < layout.variants.len() && variant_payload_size(
                    definitions,
                    definition,
                    arguments,
                    visiting.push(application_key_spec(definition.name, arguments)),
                    application_key_spec(definition.name, arguments),
                    fuel,
                    i,
                ) == Some(layout.max_payload_size)
        },
{
    let key = application_key_spec(definition.name, arguments);
    if !visiting.contains(key) && fuel > 0 && definition.parameters.len() == arguments.len() {
        lemma_variants_placed(definitions, definition, arguments, visiting.push(key), key, fuel, definition.variants.len());
        if let Ok((max_payload_size, max_alignment, variants)) = variants_spec(
            definitions,
            definition,
            arguments,
            visiting.push(key),
            key,
            fuel,
            definition.variants.len(),
        ) {
            super::layout::law_align_up(4, max_alignment);
            if max_payload_size != 0 {
                let w = choose|w: int|
                    0 <= w < variants.len() && variant_payload_size(
                        definitions,
                        definition,
                        arguments,
                        visiting.push(key),
                        key,
                        fuel,
                        w,
                    ) == Some(max_payload_size);
                assert(variant_payload_size(definitions, definition, arguments, visiting.push(key), key, fuel, w) == Some(
                    max_payload_size,
                ));
            }
            if let Some(payload_offset) = spec_align_up(4, max_alignment) {
                let alignment = max_u32(4, max_alignment);
                if payload_offset + max_payload_size <= u32::MAX {
                    super::layout::law_align_up((payload_offset + max_payload_size) as u32, alignment);
                    assert forall|i: int| 0 <= i < variants.len() implies fields_well_placed(
                        #[trigger] variants[i].fields,
                        max_payload_size as int,
                        alignment as int,
                    ) by {
                        assert(fields_well_placed(variants[i].fields, max_payload_size as int, max_alignment as int));
                    }
                }
            }
        }
    }
}

} // verus!
