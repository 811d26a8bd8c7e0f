use hidl::ast::{
    Arg, Dictionary, Enum, EnumField, Expr, Extension, ExtensionInterface, FlagField, Flags, Func,
    IntType, Interface, Namespace, PrimType, SignedIntType, Struct, StructField, Type, TypeDef,
    TypeKind, UnsignedIntType,
};
use hidl::markdown::{
    doc_all, document, document_einterface, document_extension, document_func,
    document_interface, document_link, document_type, document_with, write_version, Page,
};

fn custom(name: &str) -> Type {
    Type::Custom(name.to_owned())
}

fn array(of: Type) -> Type {
    Type::Array(Box::new(of))
}

fn dictionary(key: Type, value: Type) -> Type {
    Type::Dictionary(Box::new(Dictionary { key, value }))
}

fn arg(name: &str, ty: Type) -> Arg {
    Arg { name: name.to_owned(), ty }
}

fn func(name: &str, args: Vec<Arg>, ret: Option<Type>, docs: &str) -> Func {
    Func { name: name.to_owned(), docs: docs.to_owned(), args, ret }
}

fn type_def(name: &str, docs: &str, kind: TypeKind) -> TypeDef {
    TypeDef { name: name.to_owned(), docs: docs.to_owned(), kind }
}

fn flags_type() -> TypeDef {
    type_def(
        "Perm",
        "What is allowed\n",
        TypeKind::Flags(Flags {
            backing: IntType::Unsigned(UnsignedIntType::U8),
            fields: vec![
                FlagField { name: "A".to_owned(), expr: Expr::Num(1), value: Some(1) },
                FlagField { name: "C".to_owned(), expr: Expr::Num(12), value: Some(12) },
                FlagField { name: "Z".to_owned(), expr: Expr::Num(0), value: Some(0) },
            ],
        }),
    )
}

fn extension(name: &str) -> Extension {
    Extension {
        name: name.to_owned(),
        version: (0, 3, 1),
        docs: "Sound\n".to_owned(),
        interface: None,
        interfaces: vec![ExtensionInterface {
            name: name.to_owned(),
            docs: "Plays\n".to_owned(),
            version: Some((0, 3, 1)),
            methods: vec![func("play", vec![], None, "Play\n")],
            events: vec![],
        }],
        types: vec![flags_type()],
    }
}

#[test]
fn types_as_signatures_show_them() {
    assert_eq!(Type::Primitive(PrimType::String).to_string(), "string");
    assert_eq!(custom("Thing").to_string(), "Thing");
    assert_eq!(array(custom("T")).to_string(), "[]T");
    assert_eq!(dictionary(custom("K"), custom("V")).to_string(), "[K]V");
    assert_eq!(
        array(dictionary(Type::Primitive(PrimType::Uuid), array(custom("T")))).to_string(),
        "[][uuid][]T"
    );
    assert_eq!(
        dictionary(
            dictionary(custom("A"), custom("B")),
            Type::IntType(IntType::Signed(SignedIntType::VI16))
        )
        .to_string(),
        "[[A]B]vi16"
    );
}

#[test]
fn every_primitive_type_has_its_name() {
    let names = [
        (PrimType::String, "string"),
        (PrimType::Object, "object"),
        (PrimType::Uuid, "uuid"),
        (PrimType::Bytes, "bytes"),
        (PrimType::Bool, "bool"),
        (PrimType::Matrix4x4, "matrix4x4"),
        (PrimType::F32, "f32"),
        (PrimType::F64, "f64"),
    ];
    for (ty, name) in names {
        assert_eq!(ty.to_string(), name);
        assert_eq!(Type::Primitive(ty).to_string(), name);
    }
}

#[test]
fn every_integer_type_has_its_name() {
    let signed = [
        (SignedIntType::I8, "i8"),
        (SignedIntType::I16, "i16"),
        (SignedIntType::I32, "i32"),
        (SignedIntType::I64, "i64"),
        (SignedIntType::VI8, "vi8"),
        (SignedIntType::VI16, "vi16"),
        (SignedIntType::VI32, "vi32"),
        (SignedIntType::VI64, "vi64"),
    ];
    for (ty, name) in signed {
        assert_eq!(ty.to_string(), name);
        assert_eq!(IntType::Signed(ty).to_string(), name);
        assert_eq!(Type::IntType(IntType::Signed(ty)).to_string(), name);
    }
    let unsigned = [
        (UnsignedIntType::U8, "u8"),
        (UnsignedIntType::U16, "u16"),
        (UnsignedIntType::U32, "u32"),
        (UnsignedIntType::U64, "u64"),
        (UnsignedIntType::VU8, "vu8"),
        (UnsignedIntType::VU16, "vu16"),
        (UnsignedIntType::VU32, "vu32"),
        (UnsignedIntType::VU64, "vu64"),
    ];
    for (ty, name) in unsigned {
        assert_eq!(ty.to_string(), name);
        assert_eq!(IntType::Unsigned(ty).to_string(), name);
        assert_eq!(Type::IntType(IntType::Unsigned(ty)).to_string(), name);
    }
}

#[test]
fn a_clone_of_a_type_is_the_same_type() {
    let ty = array(dictionary(custom("K"), Type::Primitive(PrimType::Bool)));
    assert_eq!(ty.clone(), ty);
    let e = Expr::BinOp(
        Box::new(Expr::Ident("A".to_owned())),
        hidl::ast::Op::BAnd,
        Box::new(Expr::BNum(3)),
    );
    assert_eq!(e.clone(), e);
}

#[test]
fn a_version_line() {
    assert_eq!(write_version((2, 1, 0)), "*v2.1.0*\n\n");
    assert_eq!(write_version((0, 0, 0)), "*v0.0.0*\n\n");
    assert_eq!(
        write_version((u64::MAX, 10, 123)),
        "*v18446744073709551615.10.123*\n\n"
    );
}

#[test]
fn a_func_with_arguments_and_result() {
    let f = func(
        "get",
        vec![
            arg("id", Type::IntType(IntType::Unsigned(UnsignedIntType::U32))),
            arg("names", array(Type::Primitive(PrimType::String))),
        ],
        Some(dictionary(Type::Primitive(PrimType::String), Type::Primitive(PrimType::Uuid))),
        "Gets it\n",
    );
    assert_eq!(
        document_func(&f),
        "##### `get(id: u32, names: []string) -> [string]uuid`\nGets it\n\n"
    );
}

#[test]
fn a_func_without_arguments_or_result() {
    assert_eq!(document_func(&func("ping", vec![], None, "")), "##### `ping()`\n\n");
    assert_eq!(
        document_func(&func("one", vec![arg("x", custom("X"))], None, "D\n")),
        "##### `one(x: X)`\nD\n\n"
    );
}

#[test]
fn a_section_has_its_heading_only_with_items() {
    let show = |n: &u8| format!("<{}>", n);
    assert_eq!(doc_all(show, &[], "## Numbers"), "");
    assert_eq!(doc_all(show, &[1, 2, 3], "## Numbers"), "## Numbers\n<1><2><3>");
}

#[test]
fn an_interface_shows_events_before_methods() {
    let i = Interface {
        name: "Object".to_owned(),
        docs: "The root\n".to_owned(),
        version: (1, 2, 3),
        methods: vec![func("m", vec![], None, "M\n")],
        events: vec![func("e", vec![], None, "E\n"), func("f", vec![], None, "F\n")],
    };
    assert_eq!(
        document_interface(&i),
        "### Interface `Object`\n*v1.2.3*\n\nThe root\n\n#### Events\n##### `e()`\nE\n\n##### `f()`\nF\n\n#### Methods\n##### `m()`\nM\n\n"
    );
}

#[test]
fn an_interface_without_funcs_has_no_sections() {
    let i = Interface {
        name: "Object".to_owned(),
        docs: String::new(),
        version: (1, 0, 0),
        methods: vec![],
        events: vec![],
    };
    assert_eq!(document_interface(&i), "### Interface `Object`\n*v1.0.0*\n\n\n");
}

#[test]
fn an_interface_of_an_extension_shows_no_version() {
    let i = ExtensionInterface {
        name: "Player".to_owned(),
        docs: "Plays\n".to_owned(),
        version: Some((9, 9, 9)),
        methods: vec![func("m", vec![], None, "M\n")],
        events: vec![],
    };
    assert_eq!(
        document_einterface(&i),
        "### Interface `Player`\nPlays\n\n#### Methods\n##### `m()`\nM\n\n"
    );
}

#[test]
fn a_struct_shows_names_and_types() {
    let t = type_def(
        "Point",
        "A point\n",
        TypeKind::Struct(Struct {
            fields: vec![
                StructField { name: "x".to_owned(), ty: Type::Primitive(PrimType::F32) },
                StructField { name: "tags".to_owned(), ty: array(custom("Tag")) },
            ],
        }),
    );
    assert_eq!(
        document_type(&t),
        "### Struct `Point`\nA point\n\n- `x`: `f32`\n- `tags`: `[]Tag`\n"
    );
}

#[test]
fn an_enum_shows_names() {
    let t = type_def(
        "Color",
        "A color\n",
        TypeKind::Enum(Enum {
            backing: IntType::Unsigned(UnsignedIntType::U8),
            fields: vec![
                EnumField { name: "Red".to_owned(), value: Some(0) },
                EnumField { name: "Green".to_owned(), value: Some(7) },
            ],
        }),
    );
    assert_eq!(document_type(&t), "### Enum `Color`\nA color\n\n- `Red`\n- `Green`\n");
}

#[test]
fn flags_show_values_in_binary() {
    assert_eq!(
        document_type(&flags_type()),
        "### Flags `Perm`\nWhat is allowed\n\n- `A = 1`\n- `C = 1100`\n- `Z = 0`\n"
    );
}

#[test]
fn the_page_of_an_extension() {
    assert_eq!(
        document_extension(&extension("sound")),
        "# Extension `sound`\n*v0.3.1*\n\nSound\n\n## Interfaces\n### Interface `sound`\nPlays\n\n#### Methods\n##### `play()`\nPlay\n\n## Types\n### Flags `Perm`\nWhat is allowed\n\n- `A = 1`\n- `C = 1100`\n- `Z = 0`\n"
    );
}

#[test]
fn the_pages_of_a_tree() {
    let tree = Namespace {
        name: "core".to_owned(),
        interfaces: vec![Interface {
            name: "Object".to_owned(),
            docs: "The root\n".to_owned(),
            version: (1, 0, 0),
            methods: vec![],
            events: vec![],
        }],
        types: vec![flags_type()],
        extensions: vec![extension("sound_fx"), extension("XMLHttp")],
    };
    let pages = document(&tree);
    assert_eq!(pages.len(), 4);
    assert_eq!(
        pages[0],
        Page {
            path: "sound_fx.md".to_owned(),
            text: document_extension(&tree.extensions[0]),
        }
    );
    assert_eq!(
        pages[1],
        Page { path: "XMLHttp.md".to_owned(), text: document_extension(&tree.extensions[1]) }
    );
    assert_eq!(
        pages[2],
        Page {
            path: "SUMMARY.md".to_owned(),
            text: "- [Core](README.md)\n- [Sound Fx](sound_fx.md)\n- [Xml Http](XMLHttp.md)\n"
                .to_owned(),
        }
    );
    assert_eq!(
        pages[3],
        Page {
            path: "README.md".to_owned(),
            text: "# Hypercosm Protocol Docs\n## Interfaces\n### Interface `Object`\n*v1.0.0*\n\nThe root\n\n## Types\n### Flags `Perm`\nWhat is allowed\n\n- `A = 1`\n- `C = 1100`\n- `Z = 0`\n## Extensions\n- [sound_fx](sound_fx.md)\n- [XMLHttp](XMLHttp.md)\n"
                .to_owned(),
        }
    );
}

#[test]
fn the_page_of_an_extension_replaces_the_extension_of_its_name() {
    let tree = Namespace {
        name: "core".to_owned(),
        interfaces: vec![],
        types: vec![],
        extensions: vec![extension("audio.v2")],
    };
    let pages = document(&tree);
    assert_eq!(pages[0].path, "audio.md");
    assert_eq!(pages[1].text, "- [Core](README.md)\n- [Audio V2](audio.md)\n");
}

#[test]
fn a_tree_without_extensions_has_two_pages() {
    let tree =
        Namespace { name: "core".to_owned(), interfaces: vec![], types: vec![], extensions: vec![] };
    let pages = document(&tree);
    assert_eq!(
        pages,
        vec![
            Page { path: "SUMMARY.md".to_owned(), text: "- [Core](README.md)\n".to_owned() },
            Page { path: "README.md".to_owned(), text: "# Hypercosm Protocol Docs\n".to_owned() },
        ]
    );
}

#[test]
fn pages_under_given_file_names() {
    let tree = Namespace {
        name: "core".to_owned(),
        interfaces: vec![],
        types: vec![],
        extensions: vec![extension("sound")],
    };
    let pages = document_with(
        &tree,
        &vec!["ext/sound.markdown".to_owned()],
        &vec!["The Sound".to_owned()],
    );
    assert_eq!(pages.len(), 3);
    assert_eq!(pages[0].path, "ext/sound.markdown");
    assert_eq!(pages[0].text, document_extension(&tree.extensions[0]));
    assert_eq!(pages[1].path, "SUMMARY.md");
    assert_eq!(pages[1].text, "- [Core](README.md)\n- [The Sound](ext/sound.markdown)\n");
    assert_eq!(pages[2].path, "README.md");
    assert_eq!(
        pages[2].text,
        "# Hypercosm Protocol Docs\n## Extensions\n- [sound](ext/sound.markdown)\n"
    );
}

#[test]
fn a_line_that_leads_to_a_page() {
    assert_eq!(document_link("Core", "README.md"), "- [Core](README.md)\n");
    assert_eq!(document_link("", ""), "- []()\n");
}

#[test]
fn a_clone_of_a_page_is_the_same_page() {
    let page = Page { path: "a.md".to_owned(), text: "A\n".to_owned() };
    assert_eq!(page.clone(), page);
}
