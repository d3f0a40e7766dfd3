use vstd::prelude::*;

use crate::ast::{CaseBranch, Pattern, VariantPayload};
use crate::text::{owned, str_eq};

use super::generic_layout::emit_error;
use super::layout::enum_layout::first_variant;
use super::layout::{EnumFieldLayout, EnumVariantLayout, LayoutRegistry, NativeFieldView, NativeType, enum_field_layout_view};
use super::native::NativeEmitError;

verus! {

/// The names a variant pattern binds, in order, each with the payload field it names, if it
/// names one.
pub open spec fn pattern_bindings(payload: VariantPayload) -> Seq<(Option<Seq<char>>, Seq<char>)> {
    match payload {
        VariantPayload::Unit => Seq::empty(),
        VariantPayload::Positional(items) => Seq::new(
            items@.len(),
            |i: int| (None::<Seq<char>>, items@[i].name@),
        ),
        VariantPayload::Named(items) => Seq::new(
            items@.len(),
            |i: int| (Some(items@[i].name@), items@[i].binding.name@),
        ),
    }
}

/// The position of the first field named `name`, or -1.
pub open spec fn first_field_named(fields: Seq<NativeFieldView>, name: Seq<char>) -> int
    decreases fields.len(),
{
    if fields.len() == 0 {
        -1
    } else if first_field_named(fields.drop_last(), name) >= 0 {
        first_field_named(fields.drop_last(), name)
    } else if fields.last().name == Some(name) {
        fields.len() - 1
    } else {
        -1
    }
}

/// The payload field that the binding at position `index` reads: the first field of the name
/// it gives, if there is one, else the field at the same position, else none (-1).
pub open spec fn payload_field(fields: Seq<NativeFieldView>, index: int, name: Option<Seq<char>>) -> int {
    match name {
        Some(n) if first_field_named(fields, n) >= 0 => first_field_named(fields, n),
        _ => if 0 <= index < fields.len() {
            index
        } else {
            -1
        },
    }
}

/// A name that a case branch binds to a payload field, where the field lies and its type.
pub struct PayloadBinding {
    pub name: String,
    pub payload_offset: u32,
    pub field_offset: u32,
    pub ty: NativeType,
}

pub struct PayloadBindingView {
    pub name: Seq<char>,
    pub payload_offset: u32,
    pub field_offset: u32,
    pub ty: NativeType,
}

pub open spec fn payload_binding_view(binding: PayloadBinding) -> PayloadBindingView {
    PayloadBindingView {
        name: binding.name@,
        payload_offset: binding.payload_offset,
        field_offset: binding.field_offset,
        ty: binding.ty,
    }
}

/// The bindings among the first `count` that are not `_`, each with its field.
pub open spec fn bindings_from(
    bindings: Seq<(Option<Seq<char>>, Seq<char>)>,
    fields: Seq<NativeFieldView>,
    payload_offset: u32,
    count: nat,
) -> Result<Seq<PayloadBindingView>, Seq<char>>
    decreases count,
{
    if count == 0 || count > bindings.len() {
        Ok(Seq::empty())
    } else {
        match bindings_from(bindings, fields, payload_offset, (count - 1) as nat) {
            Err(error) => Err(error),
            Ok(done) => {
                let (name, binding) = bindings[count - 1];
                if binding == "_"@ {
                    Ok(done)
                } else {
                    let field = payload_field(fields, count - 1, name);
                    if field < 0 {
                        Err("missing case payload field layout"@)
                    } else {
                        Ok(
                            done.push(
                                PayloadBindingView {
                                    name: binding,
                                    payload_offset,
                                    field_offset: fields[field].offset,
                                    ty: fields[field].ty,
                                },
                            ),
                        )
                    }
                }
            },
        }
    }
}

/// What a case branch binds when its pattern matches a subject of native type `subject`:
/// nothing unless the pattern names a variant and the subject is an enum; then each name the
/// pattern binds (but `_`), read from the payload field it names or stands at.
pub open spec fn spec_bind_payload(
    pattern: Pattern,
    subject: NativeType,
    layouts: Seq<super::layout::EnumLayoutView>,
) -> Result<Seq<PayloadBindingView>, Seq<char>> {
    match pattern {
        Pattern::Variant { variant, payload, .. } => match subject {
            NativeType::Enum(id) => if id >= layouts.len() {
                Err("missing enum layout"@)
            } else {
                let layout = layouts[id as int];
                let index = first_variant(layout.variants, variant@);
                if index < 0 {
                    Err("missing case variant layout"@)
                } else {
                    let bindings = pattern_bindings(payload);
                    bindings_from(bindings, layout.variants[index].fields, layout.payload_offset, bindings.len())
                }
            },
            _ => Ok(Seq::empty()),
        },
        _ => Ok(Seq::empty()),
    }
}

fn field_for(variant: &EnumVariantLayout, index: usize, name: Option<&String>) -> (field: Option<usize>)
    ensures
        ({
            let fields = variant.fields@.map_values(|f: EnumFieldLayout| enum_field_layout_view(f));
            let expected = payload_field(
                fields,
                index as int,
                match name {
                    Some(n) => Some(n@),
                    None => None,
                },
            );
            match field {
                Some(i) => i == expected && i < fields.len(),
                None => expected == -1,
            }
        }),
{
    let ghost fields = variant.fields@.map_values(|f: EnumFieldLayout| enum_field_layout_view(f));
    if let Some(wanted) = name {
        let mut position: usize = 0;
        while position < variant.fields.len()
            invariant
                fields == variant.fields@.map_values(|f: EnumFieldLayout| enum_field_layout_view(f)),
                position <= fields.len(),
                first_field_named(fields.take(position as int), wanted@) == -1,
                name == Some(wanted),
            decreases fields.len() - position,
        {
            proof {
                assert(fields.take(position + 1).drop_last() =~= fields.take(position as int));
                assert(fields.take(position + 1).last() == enum_field_layout_view(variant.fields@[position as int]));
            }
            let matches = match &variant.fields[position].name {
                Some(field_name) => str_eq(field_name.as_str(), wanted.as_str()),
                None => false,
            };
            if matches {
                proof {
                    assert(first_field_named(fields.take(position + 1), wanted@) == position);
                    lemma_first_field_prefix(fields, wanted@, position + 1);
                    assert(payload_field(fields, index as int, Some(wanted@)) == position as int);
                }
                return Some(position);
            }
            position = position + 1;
        }
        proof {
            assert(fields.take(position as int) =~= fields);
        }
    }
    if index < variant.fields.len() {
        Some(index)
    } else {
        None
    }
}

proof fn lemma_first_field_prefix(fields: Seq<NativeFieldView>, name: Seq<char>, count: int)
    requires
        0 <= count <= fields.len(),
        first_field_named(fields.take(count), name) >= 0,
    ensures
        first_field_named(fields, name) == first_field_named(fields.take(count), name),
        0 <= first_field_named(fields, name) < fields.len(),
    decreases fields.len(),
{
    if count == fields.len() {
        assert(fields.take(count) =~= fields);
    } else {
        assert(fields.drop_last().take(count) =~= fields.take(count));
        lemma_first_field_prefix(fields.drop_last(), name, count);
    }
    lemma_first_field_bounds(fields.take(count), name);
}

proof fn lemma_first_field_bounds(fields: Seq<NativeFieldView>, name: Seq<char>)
    ensures
        -1 <= first_field_named(fields, name) < fields.len(),
    decreases fields.len(),
{
    if fields.len() > 0 {
        lemma_first_field_bounds(fields.drop_last(), name);
    }
}

/// Where each name that `branch` binds comes from, when its pattern matches a subject of
/// native type `subject_type`.
pub fn bind_payload(branch: &CaseBranch, subject_type: NativeType, layouts: &LayoutRegistry) -> (result: Result<
    Vec<PayloadBinding>,
    NativeEmitError,
>)
    requires
        layouts.wf(),
    ensures
        match result {
            Ok(bindings) => spec_bind_payload(branch.pattern, subject_type, layouts.enum_layouts()) == Ok::<
                Seq<PayloadBindingView>,
                Seq<char>,
            >(bindings@.map_values(|b: PayloadBinding| payload_binding_view(b))),
            Err(error) => spec_bind_payload(branch.pattern, subject_type, layouts.enum_layouts()) == Err::<
                Seq<PayloadBindingView>,
                Seq<char>,
            >(error.spec_message()),
        },
{
    let mut bound: Vec<PayloadBinding> = Vec::new();
    proof {
        assert(bound@.map_values(|b: PayloadBinding| payload_binding_view(b)) =~= Seq::<PayloadBindingView>::empty());
    }
    let (variant, payload) = match &branch.pattern {
        Pattern::Variant { variant, payload, .. } => (variant, payload),
        _ => {
            return Ok(bound);
        },
    };
    let enum_id = match subject_type {
        NativeType::Enum(id) => id,
        _ => {
            return Ok(bound);
        },
    };
    let layout = match layouts.enum_layout(enum_id) {
        Some(layout) => layout,
        None => {
            return Err(emit_error(owned("missing enum layout")));
        },
    };
    let variant_layout = match layouts.enum_variant(enum_id, variant.as_str()) {
        Some(found) => found,
        None => {
            return Err(emit_error(owned("missing case variant layout")));
        },
    };
    let ghost bindings = pattern_bindings(*payload);
    let ghost fields = variant_layout.fields@.map_values(|f: EnumFieldLayout| enum_field_layout_view(f));
    let ghost variants = layouts.enum_layouts()[enum_id as int].variants;
    proof {
        assert(fields == variants[first_variant(variants, variant@)].fields);
        assert(layouts.enum_layouts()[enum_id as int].payload_offset == layout.payload_offset);
        assert(spec_bind_payload(branch.pattern, subject_type, layouts.enum_layouts()) == bindings_from(
            bindings,
            fields,
            layout.payload_offset,
            bindings.len(),
        ));
    }
    let count: usize = match payload {
        VariantPayload::Unit => 0,
        VariantPayload::Positional(items) => items.len(),
        VariantPayload::Named(items) => items.len(),
    };
    let mut index: usize = 0;
    while index < count
        invariant
            bindings == pattern_bindings(*payload),
            count == bindings.len(),
            spec_bind_payload(branch.pattern, subject_type, layouts.enum_layouts()) == bindings_from(
                bindings,
                fields,
                layout.payload_offset,
                bindings.len(),
            ),
            fields == variant_layout.fields@.map_values(|f: EnumFieldLayout| enum_field_layout_view(f)),
            index <= count,
            bindings_from(bindings, fields, layout.payload_offset, index as nat) == Ok::<
                Seq<PayloadBindingView>,
                Seq<char>,
            >(bound@.map_values(|b: PayloadBinding| payload_binding_view(b))),
        decreases count - index,
    {
        let (name, binding): (Option<&String>, &String) = match payload {
            VariantPayload::Unit => (None, variant),
            VariantPayload::Positional(items) => (None, &items[index].name),
            VariantPayload::Named(items) => (Some(&items[index].name), &items[index].binding.name),
        };
        proof {
            assert(bindings[index as int] == (
                match name {
                    Some(n) => Some(n@),
                    None => None,
                },
                binding@,
            ));
        }
        if !str_eq(binding.as_str(), "_") {
            match field_for(variant_layout, index, name) {
                Some(field) => {
                    let ghost before = bound@.map_values(|b: PayloadBinding| payload_binding_view(b));
                    bound.push(
                        PayloadBinding {
                            name: binding.clone(),
                            payload_offset: layout.payload_offset,
                            field_offset: variant_layout.fields[field].offset,
                            ty: variant_layout.fields[field].ty,
                        },
                    );
                    proof {
                        assert(fields[field as int] == enum_field_layout_view(variant_layout.fields@[field as int]));
                        assert(bound@.map_values(|b: PayloadBinding| payload_binding_view(b)) =~= before.push(
                            payload_binding_view(bound@.last()),
                        ));
                    }
                },
                None => {
                    proof {
                        lemma_bindings_error_stable(bindings, fields, layout.payload_offset, (index + 1) as nat, bindings.len());
                    }
                    return Err(emit_error(owned("missing case payload field layout")));
                },
            }
        }
        index = index + 1;
    }
    Ok(bound)
}

proof fn lemma_bindings_error_stable(
    bindings: Seq<(Option<Seq<char>>, Seq<char>)>,
    fields: Seq<NativeFieldView>,
    payload_offset: u32,
    count: nat,
    end: nat,
)
    requires
        count <= end <= bindings.len(),
        bindings_from(bindings, fields, payload_offset, count) is Err,
    ensures
        bindings_from(bindings, fields, payload_offset, end) == bindings_from(bindings, fields, payload_offset, count),
    decreases end - count,
{
    if end > count {
        lemma_bindings_error_stable(bindings, fields, payload_offset, count, (end - 1) as nat);
    }
}

/// The first name bound by the pattern of `branch` that equals `name`.
pub fn branch_binding<'a>(branch: &'a CaseBranch, name: &str) -> (found: Option<&'a String>)
    ensures
        match found {
            Some(binding) => binding@ == name@ && branch.pattern is Variant && exists|i: int|
                0 <= i < pattern_bindings(branch.pattern->payload).len() && (#[trigger] pattern_bindings(
                    branch.pattern->payload,
                )[i]).1 == name@,
            None => !(branch.pattern is Variant) || forall|i: int|
                0 <= i < pattern_bindings(branch.pattern->payload).len() ==> (#[trigger] pattern_bindings(
                    branch.pattern->payload,
                )[i]).1 != name@,
        },
{
    let payload = match &branch.pattern {
        Pattern::Variant { payload, .. } => payload,
        _ => {
            return None;
        },
    };
    let ghost bindings = pattern_bindings(*payload);
    match payload {
        VariantPayload::Unit => None,
        VariantPayload::Positional(items) => {
            let mut index: usize = 0;
            while index < items.len()
                invariant
                    bindings == pattern_bindings(*payload),
                    *payload == VariantPayload::Positional(*items),
                    branch.pattern is Variant && branch.pattern->payload == *payload,
                    bindings.len() == items@.len(),
                    index <= items@.len(),
                    forall|i: int| 0 <= i < index ==> (#[trigger] bindings[i]).1 != name@,
                decreases items@.len() - index,
            {
                proof {
                    assert(bindings[index as int].1 == items@[index as int].name@);
                }
                if str_eq(items[index].name.as_str(), name) {
                    return Some(&items[index].name);
                }
                index = index + 1;
            }
            None
        },
        VariantPayload::Named(items) => {
            let mut index: usize = 0;
            while index < items.len()
                invariant
                    bindings == pattern_bindings(*payload),
                    *payload == VariantPayload::Named(*items),
                    branch.pattern is Variant && branch.pattern->payload == *payload,
                    bindings.len() == items@.len(),
                    index <= items@.len(),
                    forall|i: int| 0 <= i < index ==> (#[trigger] bindings[i]).1 != name@,
                decreases items@.len() - index,
            {
                proof {
                    assert(bindings[index as int].1 == items@[index as int].binding.name@);
                }
                if str_eq(items[index].binding.name.as_str(), name) {
                    return Some(&items[index].binding.name);
                }
                index = index + 1;
            }
            None
        },
    }
}

} // verus!
