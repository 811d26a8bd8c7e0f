use hidl::ast::{
    Arg, Enum, EnumField, Expr, Extension, ExtensionInterface, FlagField, Flags, Func,
    ImplicitInterface, IntType, Interface, Namespace, Op, PrimType, SignedIntType, Struct,
    StructField, Type, TypeDef, TypeKind, UnsignedIntType,
};
use hidl::eval::EvalError;
use hidl::hir::{
    enum_numbered, extension_lowered, flags_valued, is_lowered, lower_enum, lower_extension,
    lower_extension_interface, lower_flags, lower_func, lower_implicit_interface,
    lower_interface, lower_namespace, lower_type_def, type_def_lowered, vmap, LowerError,
};

fn field(name: &str, value: Option<i128>) -> EnumField {
    EnumField { name: name.to_owned(), value }
}

fn fields(values: &[Option<i128>]) -> Vec<EnumField> {
    values.iter().enumerate().map(|(i, v)| field(&format!("f{}", i), *v)).collect()
}

fn an_enum(values: &[Option<i128>]) -> Enum {
    Enum { backing: IntType::Unsigned(UnsignedIntType::U8), fields: fields(values) }
}

fn numbers(e: &Enum) -> Vec<Option<i128>> {
    e.fields.iter().map(|f| f.value).collect()
}

fn flag(name: &str, expr: Expr, value: Option<u64>) -> FlagField {
    FlagField { name: name.to_owned(), expr, value }
}

fn func(name: &str, docs: &str) -> Func {
    Func {
        name: name.to_owned(),
        docs: docs.to_owned(),
        args: vec![Arg { name: "id".to_owned(), ty: Type::Primitive(PrimType::Uuid) }],
        ret: Some(Type::Array(Box::new(Type::Custom("Thing".to_owned())))),
    }
}

fn type_def(name: &str, docs: &str, kind: TypeKind) -> TypeDef {
    TypeDef { name: name.to_owned(), docs: docs.to_owned(), kind }
}

fn extension(name: &str) -> Extension {
    Extension {
        name: name.to_owned(),
        version: (2, 1, 0),
        docs: "* About it".to_owned(),
        interface: None,
        interfaces: vec![],
        types: vec![],
    }
}

#[test]
fn test_enum() {
    let enm = Enum {
        backing: IntType::Signed(SignedIntType::I16),
        fields: vec![
            field("a", None),
            field("b", None),
            field("c", Some(100)),
            field("d", None),
            field("e", Some(50)),
            field("f", None),
        ],
    };

    let lowered = Enum {
        backing: IntType::Signed(SignedIntType::I16),
        fields: vec![
            field("a", Some(0)),
            field("b", Some(1)),
            field("c", Some(100)),
            field("d", Some(101)),
            field("e", Some(50)),
            field("f", Some(51)),
        ],
    };
    assert_eq!(lower_enum(enm), Ok(lowered));
}

#[test]
fn an_empty_enum_stays_empty() {
    assert_eq!(lower_enum(an_enum(&[])), Ok(an_enum(&[])));
}

#[test]
fn numbers_may_be_negative_and_go_down() {
    let out = lower_enum(an_enum(&[Some(-5), None, None, Some(-10), None])).unwrap();
    assert_eq!(numbers(&out), vec![Some(-5), Some(-4), Some(-3), Some(-10), Some(-9)]);
}

#[test]
fn the_same_enum_gets_the_same_numbers() {
    let values = [None, Some(7), None, Some(-3), None];
    assert_eq!(lower_enum(an_enum(&values)), lower_enum(an_enum(&values)));
    let once = lower_enum(an_enum(&values)).unwrap();
    assert_eq!(lower_enum(once.clone()), Ok(once));
}

#[test]
fn two_given_numbers_that_are_the_same() {
    assert_eq!(
        lower_enum(an_enum(&[Some(3), Some(4), Some(3)])),
        Err(LowerError::DuplicateEnumValue { name: "f2".to_owned(), value: 3 })
    );
}

#[test]
fn a_counted_number_that_was_given_before() {
    assert_eq!(
        lower_enum(an_enum(&[Some(1), Some(0), None])),
        Err(LowerError::DuplicateEnumValue { name: "f2".to_owned(), value: 1 })
    );
}

#[test]
fn a_given_number_that_was_counted_before() {
    assert_eq!(
        lower_enum(an_enum(&[None, None, Some(1), Some(1)])),
        Err(LowerError::DuplicateEnumValue { name: "f2".to_owned(), value: 1 })
    );
}

#[test]
fn the_greatest_number_has_none_after_it() {
    let out = lower_enum(an_enum(&[Some(i128::MAX - 1), None])).unwrap();
    assert_eq!(numbers(&out), vec![Some(i128::MAX - 1), Some(i128::MAX)]);
    let out = lower_enum(an_enum(&[Some(i128::MAX), Some(0), None])).unwrap();
    assert_eq!(numbers(&out), vec![Some(i128::MAX), Some(0), Some(1)]);
    assert_eq!(
        lower_enum(an_enum(&[Some(i128::MAX), None])),
        Err(LowerError::EnumValueOutOfRange { name: "f1".to_owned() })
    );
    assert_eq!(
        lower_enum(an_enum(&[Some(i128::MAX - 1), None, None, Some(0), Some(0)])),
        Err(LowerError::EnumValueOutOfRange { name: "f2".to_owned() })
    );
}

#[test]
fn the_least_number_counts_up() {
    let out = lower_enum(an_enum(&[Some(i128::MIN), None])).unwrap();
    assert_eq!(numbers(&out), vec![Some(i128::MIN), Some(i128::MIN + 1)]);
}

#[test]
fn flags_get_their_values_and_keep_their_expressions() {
    let a_or_b = Expr::BinOp(
        Box::new(Expr::Ident("A".to_owned())),
        Op::BOr,
        Box::new(Expr::Ident("B".to_owned())),
    );
    let flags = Flags {
        backing: IntType::Unsigned(UnsignedIntType::VU32),
        fields: vec![
            flag("C", a_or_b.clone(), None),
            flag("A", Expr::Num(1), Some(99)),
            flag("B", Expr::BNum(2), None),
        ],
    };
    let lowered = Flags {
        backing: IntType::Unsigned(UnsignedIntType::VU32),
        fields: vec![
            flag("C", a_or_b, Some(3)),
            flag("A", Expr::Num(1), Some(1)),
            flag("B", Expr::BNum(2), Some(2)),
        ],
    };
    assert_eq!(lower_flags(flags), Ok(lowered));
}

#[test]
fn flags_fail_with_the_first_error() {
    let flags = Flags {
        backing: IntType::Unsigned(UnsignedIntType::U8),
        fields: vec![
            flag("A", Expr::Num(1), None),
            flag("B", Expr::Ident("Missing".to_owned()), None),
            flag("C", Expr::Ident("C".to_owned()), None),
        ],
    };
    assert_eq!(
        lower_flags(flags),
        Err(LowerError::Flag(EvalError::NotFound("Missing".to_owned())))
    );
    let flags = Flags {
        backing: IntType::Unsigned(UnsignedIntType::U8),
        fields: vec![
            flag("A", Expr::Ident("B".to_owned()), None),
            flag("B", Expr::Ident("A".to_owned()), None),
        ],
    };
    assert_eq!(lower_flags(flags), Err(LowerError::Flag(EvalError::Recursive("A".to_owned()))));
}

#[test]
fn a_func_changes_in_its_comment_only() {
    let lowered = lower_func(func("get", "  * Gets\n  *   it  "));
    assert_eq!(lowered, func("get", "Gets\n  it\n"));
}

#[test]
fn an_interface_keeps_name_and_version() {
    let i = Interface {
        name: "Object".to_owned(),
        docs: "* The root".to_owned(),
        version: (1, 2, 3),
        methods: vec![func("a", "* A"), func("b", "")],
        events: vec![func("c", "*C")],
    };
    let lowered = Interface {
        name: "Object".to_owned(),
        docs: "The root\n".to_owned(),
        version: (1, 2, 3),
        methods: vec![func("a", "A\n"), func("b", "")],
        events: vec![func("c", "C\n")],
    };
    assert_eq!(lower_interface(i), lowered);
}

#[test]
fn an_implicit_interface_takes_name_and_version() {
    let i = ImplicitInterface {
        docs: "* Docs".to_owned(),
        methods: vec![func("m", "* M")],
        events: vec![],
    };
    let lowered = ExtensionInterface {
        name: "ext".to_owned(),
        docs: "Docs\n".to_owned(),
        version: Some((2, 1, 0)),
        methods: vec![func("m", "M\n")],
        events: vec![],
    };
    assert_eq!(lower_implicit_interface(i, "ext", (2, 1, 0)), lowered);
}

#[test]
fn an_interface_of_an_extension_has_its_own_version_first() {
    let i = |version| ExtensionInterface {
        name: "I".to_owned(),
        docs: String::new(),
        version,
        methods: vec![],
        events: vec![],
    };
    assert_eq!(lower_extension_interface(i(None), (2, 1, 0)), i(Some((2, 1, 0))));
    assert_eq!(lower_extension_interface(i(Some((3, 0, 0))), (2, 1, 0)), i(Some((3, 0, 0))));
    assert_eq!(lower_extension_interface(i(Some((0, 0, 1))), (2, 1, 0)), i(Some((0, 0, 1))));
}

#[test]
fn an_implicit_interface_alone_is_the_one_interface() {
    let mut e = extension("sound");
    e.interface = Some(ImplicitInterface {
        docs: "* Plays".to_owned(),
        methods: vec![func("play", "* Play")],
        events: vec![],
    });
    let out = lower_extension(e).unwrap();
    assert_eq!(out.interface, None);
    assert_eq!(out.interfaces.len(), 1);
    assert_eq!(out.interfaces[0].name, "sound");
    assert_eq!(out.interfaces[0].version, Some((2, 1, 0)));
    assert_eq!(out.interfaces[0].docs, "Plays\n");
    assert_eq!(out.interfaces[0].methods, vec![func("play", "Play\n")]);
    assert_eq!(out.name, "sound");
    assert_eq!(out.version, (2, 1, 0));
    assert_eq!(out.docs, "About it\n");
}

#[test]
fn the_implicit_interface_comes_first() {
    let listed = |name: &str, version| ExtensionInterface {
        name: name.to_owned(),
        docs: String::new(),
        version,
        methods: vec![],
        events: vec![],
    };
    let mut e = extension("sound");
    e.interface = Some(ImplicitInterface { docs: String::new(), methods: vec![], events: vec![] });
    e.interfaces = vec![listed("A", None), listed("B", Some((3, 0, 0)))];
    let out = lower_extension(e).unwrap();
    assert_eq!(
        out.interfaces,
        vec![
            listed("sound", Some((2, 1, 0))),
            listed("A", Some((2, 1, 0))),
            listed("B", Some((3, 0, 0))),
        ]
    );
    assert!(extension_lowered(&out));
}

#[test]
fn the_types_of_an_extension_are_lowered_too() {
    let mut e = extension("sound");
    e.types = vec![type_def("E", "* An enum", TypeKind::Enum(an_enum(&[None, None])))];
    let out = lower_extension(e).unwrap();
    assert_eq!(
        out.types,
        vec![type_def("E", "An enum\n", TypeKind::Enum(an_enum(&[Some(0), Some(1)])))]
    );
    let mut e = extension("sound");
    e.types = vec![type_def("E", "", TypeKind::Enum(an_enum(&[Some(1), Some(1)])))];
    assert_eq!(
        lower_extension(e),
        Err(LowerError::DuplicateEnumValue { name: "f1".to_owned(), value: 1 })
    );
}

#[test]
fn a_struct_changes_in_its_comment_only() {
    let fields = vec![StructField {
        name: "x".to_owned(),
        ty: Type::IntType(IntType::Signed(SignedIntType::VI64)),
    }];
    let t = type_def("S", " * A struct ", TypeKind::Struct(Struct { fields: fields.clone() }));
    assert_eq!(
        lower_type_def(t),
        Ok(type_def("S", "A struct\n", TypeKind::Struct(Struct { fields })))
    );
}

#[test]
fn a_namespace_is_lowered_as_a_whole() {
    let mut ext = extension("sound");
    ext.interface =
        Some(ImplicitInterface { docs: "* I".to_owned(), methods: vec![], events: vec![] });
    let ns = Namespace {
        name: "core".to_owned(),
        interfaces: vec![Interface {
            name: "Object".to_owned(),
            docs: "* The root".to_owned(),
            version: (1, 0, 0),
            methods: vec![func("a", "* A")],
            events: vec![],
        }],
        types: vec![
            type_def("E", "* E", TypeKind::Enum(an_enum(&[None, Some(5), None]))),
            type_def(
                "F",
                "* F",
                TypeKind::Flags(Flags {
                    backing: IntType::Unsigned(UnsignedIntType::U8),
                    fields: vec![flag("A", Expr::BNum(0b101), None)],
                }),
            ),
        ],
        extensions: vec![ext],
    };
    assert!(!is_lowered(&ns));
    let out = lower_namespace(ns).unwrap();
    assert!(is_lowered(&out));
    assert_eq!(out.name, "core");
    assert_eq!(out.interfaces[0].docs, "The root\n");
    assert_eq!(out.interfaces[0].methods, vec![func("a", "A\n")]);
    assert_eq!(
        out.types,
        vec![
            type_def("E", "E\n", TypeKind::Enum(an_enum(&[Some(0), Some(5), Some(6)]))),
            type_def(
                "F",
                "F\n",
                TypeKind::Flags(Flags {
                    backing: IntType::Unsigned(UnsignedIntType::U8),
                    fields: vec![flag("A", Expr::BNum(0b101), Some(0b101))],
                }),
            ),
        ]
    );
    assert_eq!(out.extensions.len(), 1);
    assert_eq!(out.extensions[0].interfaces[0].name, "sound");
    assert_eq!(out.extensions[0].interface, None);
}

#[test]
fn a_namespace_fails_with_its_first_error() {
    let mut ext = extension("sound");
    ext.types = vec![type_def("X", "", TypeKind::Enum(an_enum(&[Some(9), Some(9)])))];
    let bad_flags = TypeKind::Flags(Flags {
        backing: IntType::Unsigned(UnsignedIntType::U8),
        fields: vec![flag("A", Expr::Ident("Nope".to_owned()), None)],
    });
    let ns = |types| Namespace {
        name: "core".to_owned(),
        interfaces: vec![],
        types,
        extensions: vec![ext.clone()],
    };
    assert_eq!(
        lower_namespace(ns(vec![
            type_def("A", "", TypeKind::Enum(an_enum(&[None]))),
            type_def("B", "", bad_flags),
            type_def("C", "", TypeKind::Enum(an_enum(&[Some(1), Some(1)]))),
        ])),
        Err(LowerError::Flag(EvalError::NotFound("Nope".to_owned())))
    );
    assert_eq!(
        lower_namespace(ns(vec![])),
        Err(LowerError::DuplicateEnumValue { name: "f1".to_owned(), value: 9 })
    );
}

#[test]
fn what_is_lowered_shows_in_the_shape() {
    assert!(enum_numbered(&an_enum(&[Some(1), Some(1)])));
    assert!(!enum_numbered(&an_enum(&[Some(1), None])));
    assert!(enum_numbered(&an_enum(&[])));
    let flags = |value| Flags {
        backing: IntType::Unsigned(UnsignedIntType::U8),
        fields: vec![flag("A", Expr::Num(1), value)],
    };
    assert!(flags_valued(&flags(Some(1))));
    assert!(!flags_valued(&flags(None)));
    assert!(type_def_lowered(&type_def("S", "", TypeKind::Struct(Struct { fields: vec![] }))));
    assert!(!type_def_lowered(&type_def("F", "", TypeKind::Flags(flags(None)))));
    let mut e = extension("x");
    assert!(extension_lowered(&e));
    e.interfaces = vec![ExtensionInterface {
        name: "I".to_owned(),
        docs: String::new(),
        version: None,
        methods: vec![],
        events: vec![],
    }];
    assert!(!extension_lowered(&e));
    let mut e = extension("x");
    e.interface = Some(ImplicitInterface { docs: String::new(), methods: vec![], events: vec![] });
    assert!(!extension_lowered(&e));
}

#[test]
fn vmap_keeps_the_order() {
    assert_eq!(vmap(vec![1u8, 2, 3], |x: u8| x as u32 * 10), vec![10u32, 20, 30]);
    assert_eq!(vmap(Vec::<u8>::new(), |x: u8| x), Vec::<u8>::new());
}

#[test]
fn lowering_errors_in_words() {
    assert_eq!(
        LowerError::DuplicateEnumValue { name: "b".to_owned(), value: -12 }.to_string(),
        "Enum b has duplicate value -12"
    );
    assert_eq!(
        LowerError::EnumValueOutOfRange { name: "b".to_owned() }.to_string(),
        "Enum b has a value out of range"
    );
    assert_eq!(
        LowerError::Flag(EvalError::NotFound("X".to_owned())).to_string(),
        "No definition found for X"
    );
}

#[test]
fn versions_are_ordered_as_triples() {
    let versions: [hidl::ast::Version; 4] = [(1, 2, 3), (1, 3, 0), (2, 0, 0), (2, 0, 1)];
    for i in 0..versions.len() {
        for j in 0..versions.len() {
            assert_eq!(versions[i] < versions[j], i < j);
        }
    }
}

#[test]
fn a_clone_of_a_tree_is_the_same_tree() {
    let mut ext = extension("sound");
    ext.interface =
        Some(ImplicitInterface { docs: "* I".to_owned(), methods: vec![func("m", "")], events: vec![] });
    ext.types = vec![type_def("E", "* E", TypeKind::Enum(an_enum(&[None, Some(5)])))];
    let ns = Namespace {
        name: "core".to_owned(),
        interfaces: vec![Interface {
            name: "Object".to_owned(),
            docs: "* The root".to_owned(),
            version: (1, 0, 0),
            methods: vec![func("a", "* A")],
            events: vec![func("b", "* B")],
        }],
        types: vec![type_def(
            "F",
            "",
            TypeKind::Flags(Flags {
                backing: IntType::Unsigned(UnsignedIntType::U8),
                fields: vec![flag("A", Expr::BNum(0b101), None)],
            }),
        )],
        extensions: vec![ext],
    };
    assert_eq!(ns.clone(), ns);
    let err = LowerError::Flag(EvalError::Recursive("A".to_owned()));
    assert_eq!(err.clone(), err);
}
