use actus::ast::{
    EnumDef, EnumField, GenericParam, EnumPayload, EnumVariant, Program, StructDef, StructField, StructFieldRole,
    TopLevelDecl, TypeName,
};
use actus::codegen::generic_layout::GenericLayoutRegistry;
use actus::codegen::layout::LayoutRegistry;
use actus::semantic::GenericInstance;
use actus::span::SourceSpan;

fn span() -> SourceSpan {
    SourceSpan::new(0, 0)
}

fn ty(name: &str) -> TypeName {
    TypeName { name: name.to_owned(), arguments: Vec::new(), span: span() }
}

fn applied(name: &str, arguments: Vec<TypeName>) -> TypeName {
    TypeName { name: name.to_owned(), arguments, span: span() }
}

fn parameter(name: &str) -> GenericParam {
    GenericParam { name: name.to_owned(), bound: None, bounds: Vec::new(), span: span() }
}

fn field(name: &str, ty_name: &str) -> StructField {
    StructField { role: StructFieldRole::Value, name: name.to_owned(), ty: ty(ty_name), span: span() }
}

fn structure(name: &str, parameters: &[&str], fields: Vec<StructField>) -> TopLevelDecl {
    TopLevelDecl::Struct(StructDef {
        name: name.to_owned(),
        generic_parameters: parameters.iter().map(|name| parameter(name)).collect(),
        fields,
        span: span(),
    })
}

fn variant(name: &str, payload: EnumPayload) -> EnumVariant {
    EnumVariant { name: name.to_owned(), payload, span: span() }
}

fn enumeration(name: &str, parameters: &[&str], variants: Vec<EnumVariant>) -> TopLevelDecl {
    TopLevelDecl::Enum(EnumDef {
        name: name.to_owned(),
        generic_parameters: parameters.iter().map(|name| parameter(name)).collect(),
        variants,
        span: span(),
    })
}

#[test]
fn calculates_natural_offsets_and_trailing_padding() {
    let program = Program {
        declarations: vec![structure("Point", &[], vec![field("x", "Int"), field("y", "Int")])],
    };
    let layouts = LayoutRegistry::from_program(&program, 8).expect("layout should pass");
    let layout = layouts.get(layouts.id_for("Point").expect("Point layout should exist")).unwrap();

    assert_eq!(layout.alignment, 4);
    assert_eq!(layout.size, 8);
    assert_eq!(layout.fields[0].offset, 0);
    assert_eq!(layout.fields[1].offset, 4);
}

#[test]
fn calculates_enum_discriminant_and_payload_alignment() {
    let program = Program {
        declarations: vec![enumeration(
            "Value",
            &[],
            vec![
                variant("Empty", EnumPayload::Unit),
                variant("Count", EnumPayload::Tuple(vec![ty("Int")])),
                variant("Text", EnumPayload::Tuple(vec![ty("String")])),
                variant(
                    "Pair",
                    EnumPayload::Struct(vec![
                        EnumField { name: "left".to_owned(), ty: ty("Int"), span: span() },
                        EnumField { name: "right".to_owned(), ty: ty("Int"), span: span() },
                    ]),
                ),
            ],
        )],
    };
    let layouts = LayoutRegistry::from_program(&program, 8).expect("enum layout should pass");
    let layout = layouts
        .enum_layout(layouts.enum_id_for("Value").expect("Value layout should exist"))
        .unwrap();

    assert_eq!(layout.discriminant_offset, 0);
    assert_eq!(layout.payload_offset, 8);
    assert_eq!(layout.max_payload_size, 8);
    assert_eq!(layout.alignment, 8);
    assert_eq!(layout.size, 16);
    assert_eq!(layout.variants[0].discriminant, 0);
    assert_eq!(layout.variants[1].fields[0].offset, 0);
    assert_eq!(layout.variants[3].fields[1].offset, 4);
}

#[test]
fn calculates_unit_enum_layout_without_payload_padding() {
    let program = Program {
        declarations: vec![enumeration(
            "Color",
            &[],
            vec![variant("Red", EnumPayload::Unit), variant("Green", EnumPayload::Unit)],
        )],
    };
    let layouts = LayoutRegistry::from_program(&program, 8).expect("enum layout should pass");
    let layout = layouts
        .enum_layout(layouts.enum_id_for("Color").expect("Color layout should exist"))
        .unwrap();

    assert_eq!(layout.size, 4);
    assert_eq!(layout.alignment, 4);
    assert_eq!(layout.max_payload_size, 0);
}

fn instance(name: &str, arguments: Vec<TypeName>, key: &str) -> GenericInstance {
    GenericInstance { name: name.to_owned(), arguments, canonical_key: key.to_owned() }
}

#[test]
fn calculates_substituted_struct_offsets() {
    let program = Program {
        declarations: vec![structure("Box", &["T"], vec![field("item", "T")])],
    };
    let instances = vec![instance("Box", vec![ty("Int")], "Box[Int]")];
    let layouts = GenericLayoutRegistry::from_program(&program, &instances, 8)
        .expect("generic layout should pass");
    let layout = layouts.struct_layout("Box[Int]").expect("Box[Int] should be laid out");
    assert_eq!(layout.size, 4);
    assert_eq!(layout.alignment, 4);
    assert_eq!(layout.fields[0].offset, 0);
    assert_eq!(layout.fields[0].size, 4);
}

#[test]
fn calculates_nested_enum_payload_layout() {
    let program = Program {
        declarations: vec![
            structure("Box", &["T"], vec![field("item", "T")]),
            enumeration("Result", &["T"], vec![variant("Ok", EnumPayload::Tuple(vec![ty("T")]))]),
        ],
    };
    let instances = vec![
        instance("Box", vec![ty("Int")], "Box[Int]"),
        instance("Result", vec![applied("Box", vec![ty("Int")])], "Result[Box[Int]]"),
    ];
    let layouts = GenericLayoutRegistry::from_program(&program, &instances, 8)
        .expect("generic layout should pass");
    let layout =
        layouts.enum_layout("Result[Box[Int]]").expect("Result[Box[Int]] should be laid out");
    assert_eq!(layout.payload_offset, 4);
    assert_eq!(layout.max_payload_size, 4);
    assert_eq!(layout.size, 8);
    assert_eq!(layout.variants[0].fields[0].size, 4);
}

#[test]
fn places_generic_fields_apart_and_rounds_the_size_up() {
    let program = Program {
        declarations: vec![
            structure("Pair", &["A", "B"], vec![field("first", "A"), field("second", "B"), field("flag", "Bool")]),
            enumeration(
                "Either",
                &["A", "B"],
                vec![
                    variant("Left", EnumPayload::Tuple(vec![ty("A")])),
                    variant("Right", EnumPayload::Tuple(vec![ty("Int"), ty("B")])),
                ],
            ),
        ],
    };
    let instances = vec![
        instance("Pair", vec![ty("Int"), ty("String")], "Pair[Int,String]"),
        instance("Either", vec![ty("Int"), ty("String")], "Either[Int,String]"),
    ];
    let layouts = GenericLayoutRegistry::from_program(&program, &instances, 8)
        .expect("generic layout should pass");
    let pair = layouts.struct_layout("Pair[Int,String]").expect("Pair[Int,String] should be laid out");
    assert_eq!(pair.alignment, 8);
    assert_eq!(
        pair.fields.iter().map(|field| (field.offset, field.size, field.alignment)).collect::<Vec<_>>(),
        vec![(0, 4, 4), (8, 8, 8), (16, 4, 4)]
    );
    assert_eq!(pair.size, 24);
    let either = layouts.enum_layout("Either[Int,String]").expect("Either[Int,String] should be laid out");
    assert_eq!(either.alignment, 8);
    assert_eq!(either.payload_offset, 8);
    assert_eq!(either.max_payload_size, 16);
    assert_eq!(either.size, 24);
    assert_eq!(either.variants[1].discriminant, 1);
    assert_eq!(either.variants[1].fields[1].offset, 8);
}

#[test]
fn lays_out_generic_chains_of_any_length() {
    let depth = 1100;
    let mut declarations = Vec::new();
    for index in 0..depth {
        declarations.push(structure(&format!("Link{index}"), &[], vec![field("next", &format!("Link{}", index + 1))]));
    }
    declarations.push(structure(&format!("Link{depth}"), &[], vec![field("value", "Int")]));
    let program = Program { declarations };
    let instances = vec![instance("Link0", Vec::new(), "Link0")];
    let layouts = GenericLayoutRegistry::from_program(&program, &instances, 8)
        .expect("a long chain of definitions should be laid out");
    let layout = layouts.struct_layout("Link0").expect("Link0 should be laid out");
    assert_eq!(layout.size, 4);
    assert_eq!(layout.alignment, 4);
}
