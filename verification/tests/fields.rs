use spec_assets::derive::{
    is_classifiable, is_derivable, parse_field, spec_derive, Data, DeriveInput, Field, Fields,
    GenericArgument, PathArguments, PathSegment, SpecHandleField, Type,
};

fn segment(ident: &str, arguments: PathArguments) -> PathSegment {
    PathSegment { ident: ident.to_string(), arguments }
}

fn simple(ident: &str) -> Type {
    Type::Path(vec![segment(ident, PathArguments::Empty)])
}

fn generic(ident: &str, args: Vec<GenericArgument>) -> Type {
    Type::Path(vec![segment(ident, PathArguments::AngleBracketed(args))])
}

fn named_handle(target: &str) -> Type {
    generic("NamedHandle", vec![GenericArgument::Type(simple(target))])
}

fn field(ident: &str, ty: Type) -> Field {
    Field { ident: ident.to_string(), ty }
}

#[test]
fn named_handle_field_is_a_single_reference() {
    let f = field("bullet", named_handle("BulletSpec"));
    assert!(is_classifiable(&f));
    let args = vec![GenericArgument::Type(simple("BulletSpec"))];
    assert_eq!(
        parse_field(&f),
        SpecHandleField::NamedHandle { field_name: &"bullet".to_string(), args: &args }
    );
}

#[test]
fn vec_of_named_handles_is_a_list_of_references() {
    let f = field("magazine", generic("Vec", vec![GenericArgument::Type(named_handle("BulletSpec"))]));
    assert!(is_classifiable(&f));
    let args = vec![GenericArgument::Type(simple("BulletSpec"))];
    assert_eq!(
        parse_field(&f),
        SpecHandleField::NamedHandleVec { field_name: &"magazine".to_string(), args: &args }
    );
}

#[test]
fn other_fields_are_no_references() {
    let others = vec![
        field("name", simple("String")),
        field("damage", simple("f32")),
        field("bytes", generic("Vec", vec![GenericArgument::Type(simple("u8"))])),
        field("text", Type::Other("&'static str".to_string())),
        field("bare", simple("NamedHandle")),
        field("bare_list", generic("Vec", vec![GenericArgument::Type(simple("NamedHandle"))])),
        field("lifetimes", generic("Vec", vec![GenericArgument::Other("'a".to_string())])),
        field("tuples", generic("Vec", vec![GenericArgument::Type(Type::Other("(u8, u8)".to_string()))])),
        field("called", Type::Path(vec![segment("NamedHandle", PathArguments::Parenthesized("(u8)".to_string()))])),
        field("boxed", generic("Box", vec![GenericArgument::Type(named_handle("BulletSpec"))])),
        field("empty", Type::Path(Vec::new())),
    ];
    for f in &others {
        assert!(is_classifiable(f));
        assert_eq!(parse_field(f), SpecHandleField::OtherField);
    }
}

#[test]
fn only_the_first_segment_of_a_path_decides() {
    let qualified = field(
        "bullet",
        Type::Path(vec![
            segment("spec", PathArguments::Empty),
            segment(
                "NamedHandle",
                PathArguments::AngleBracketed(vec![GenericArgument::Type(simple("BulletSpec"))]),
            ),
        ]),
    );
    assert_eq!(parse_field(&qualified), SpecHandleField::OtherField);
    let trailing = field(
        "bullet",
        Type::Path(vec![
            segment(
                "NamedHandle",
                PathArguments::AngleBracketed(vec![GenericArgument::Type(simple("BulletSpec"))]),
            ),
            segment("Inner", PathArguments::Empty),
        ]),
    );
    assert!(matches!(parse_field(&trailing), SpecHandleField::NamedHandle { .. }));
    let inner_qualified = field(
        "magazine",
        generic(
            "Vec",
            vec![GenericArgument::Type(Type::Path(vec![
                segment("spec", PathArguments::Empty),
                segment(
                    "NamedHandle",
                    PathArguments::AngleBracketed(vec![GenericArgument::Type(simple("BulletSpec"))]),
                ),
            ]))],
        ),
    );
    assert_eq!(parse_field(&inner_qualified), SpecHandleField::OtherField);
}

#[test]
fn vec_with_another_number_of_arguments_is_not_classifiable() {
    let two = field(
        "pairs",
        generic(
            "Vec",
            vec![GenericArgument::Type(simple("u8")), GenericArgument::Type(simple("Global"))],
        ),
    );
    assert!(!is_classifiable(&two));
    let none = field("nothing", generic("Vec", Vec::new()));
    assert!(!is_classifiable(&none));
    let plain = field("plain", simple("Vec"));
    assert!(is_classifiable(&plain));
    let input = DeriveInput {
        ident: "Broken".to_string(),
        data: Data::Struct(Fields::Named(vec![field("name", simple("String")), two])),
    };
    assert!(!is_derivable(&input));
}

#[test]
fn spec_derive_lists_reference_fields_in_declaration_order() {
    let input = DeriveInput {
        ident: "GunSpec".to_string(),
        data: Data::Struct(Fields::Named(vec![
            field("name", simple("String")),
            field("spare", generic("Vec", vec![GenericArgument::Type(named_handle("BulletSpec"))])),
            field("bullet", named_handle("BulletSpec")),
            field("damage", simple("f32")),
            field("scope", named_handle("ScopeSpec")),
            field("skins", generic("Vec", vec![GenericArgument::Type(named_handle("Image"))])),
        ])),
    };
    assert!(is_derivable(&input));
    let fields = spec_derive(&input);
    let bullet_args = vec![GenericArgument::Type(simple("BulletSpec"))];
    let scope_args = vec![GenericArgument::Type(simple("ScopeSpec"))];
    let image_args = vec![GenericArgument::Type(simple("Image"))];
    assert_eq!(
        fields.named_handle_fields,
        vec![
            SpecHandleField::NamedHandle { field_name: &"bullet".to_string(), args: &bullet_args },
            SpecHandleField::NamedHandle { field_name: &"scope".to_string(), args: &scope_args },
        ]
    );
    assert_eq!(
        fields.named_handle_vecs,
        vec![
            SpecHandleField::NamedHandleVec { field_name: &"spare".to_string(), args: &bullet_args },
            SpecHandleField::NamedHandleVec { field_name: &"skins".to_string(), args: &image_args },
        ]
    );
}

#[test]
fn spec_derive_finds_nothing_outside_structs_with_named_fields() {
    for data in [Data::Enum, Data::Union, Data::Struct(Fields::Unit), Data::Struct(Fields::Unnamed)] {
        let input = DeriveInput { ident: "Other".to_string(), data };
        assert!(is_derivable(&input));
        let fields = spec_derive(&input);
        assert!(fields.named_handle_fields.is_empty());
        assert!(fields.named_handle_vecs.is_empty());
    }
    let empty = DeriveInput {
        ident: "Empty".to_string(),
        data: Data::Struct(Fields::Named(Vec::new())),
    };
    let fields = spec_derive(&empty);
    assert!(fields.named_handle_fields.is_empty());
    assert!(fields.named_handle_vecs.is_empty());
}
