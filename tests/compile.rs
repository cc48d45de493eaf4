use proto_pydantic::descriptor::{
    EnumDecl, EnumValueDecl, FieldDecl, FileDecl, Label, MessageDecl, Pool, Request, WireKind,
};
use proto_pydantic::driver::{compile, generate_code, output_name};
use proto_pydantic::model::{
    build_file_model, map_registry, CompileError, FieldType, ValueType,
};
use proto_pydantic::names::{build_table, matches_ref, resolve, Symbol};
use proto_pydantic::scalar::{scalar_type, Scalar};

fn field(name: &str, kind: WireKind, label: Label, type_ref: &str) -> FieldDecl {
    FieldDecl {
        name: name.to_string(),
        kind,
        label,
        type_ref: type_ref.to_string(),
        proto3_optional: false,
    }
}

fn message(name: &str, parent: Option<usize>, file: usize, fields: Vec<FieldDecl>) -> MessageDecl {
    MessageDecl { name: name.to_string(), parent, file, fields, map_entry: false }
}

fn file(path: &str, package: &str) -> FileDecl {
    FileDecl { path: path.to_string(), package: package.to_string(), dependencies: vec![] }
}

fn request(files: Vec<FileDecl>, messages: Vec<MessageDecl>, enums: Vec<EnumDecl>) -> Request {
    let targets = files.iter().map(|f| f.path.clone()).collect();
    Request { file_to_generate: targets, pool: Pool { files, messages, enums } }
}

fn person_request() -> Request {
    let person = message(
        "Person",
        None,
        0,
        vec![
            field("name", WireKind::String, Label::Optional, ""),
            field("age", WireKind::Int32, Label::Optional, ""),
            field("tags", WireKind::Message, Label::Repeated, ".Person.TagsEntry"),
        ],
    );
    let mut entry = message(
        "TagsEntry",
        Some(0),
        0,
        vec![
            field("key", WireKind::String, Label::Optional, ""),
            field("value", WireKind::String, Label::Optional, ""),
        ],
    );
    entry.map_entry = true;
    request(vec![file("person.proto", "")], vec![person, entry], vec![])
}

fn only_content(req: &Request) -> String {
    let resp = generate_code(req);
    assert!(resp.error.is_none(), "unexpected error: {:?}", resp.error);
    assert_eq!(resp.files.len(), 1);
    resp.files[0].content.clone()
}

#[test]
fn scalar_table_covers_every_scalar_kind() {
    let cases = [
        (WireKind::Double, Some(Scalar::F64)),
        (WireKind::Float, Some(Scalar::F32)),
        (WireKind::Int64, Some(Scalar::I64)),
        (WireKind::UInt64, Some(Scalar::U64)),
        (WireKind::Int32, Some(Scalar::I32)),
        (WireKind::Fixed64, Some(Scalar::U64)),
        (WireKind::Fixed32, Some(Scalar::U32)),
        (WireKind::Bool, Some(Scalar::Bool)),
        (WireKind::String, Some(Scalar::Str)),
        (WireKind::Group, None),
        (WireKind::Message, None),
        (WireKind::Bytes, Some(Scalar::Bytes)),
        (WireKind::UInt32, Some(Scalar::U32)),
        (WireKind::Enum, None),
        (WireKind::SFixed32, Some(Scalar::I32)),
        (WireKind::SFixed64, Some(Scalar::I64)),
        (WireKind::SInt32, Some(Scalar::I32)),
        (WireKind::SInt64, Some(Scalar::I64)),
    ];
    for (kind, expected) in cases {
        assert_eq!(scalar_type(kind), expected, "{:?}", kind);
    }
}

#[test]
fn person_with_map_field() {
    let req = person_request();
    let content = only_content(&req);
    assert_eq!(
        content,
        "import enum\n\nimport pydantic\n\nclass Person(pydantic.BaseModel):\n    name: str\n    age: int\n    tags: dict[str, str]\n"
    );
    assert!(!content.contains("TagsEntry"));

    let table = build_table(&req.pool);
    let reg = map_registry(&req.pool, &table).unwrap();
    let md = build_file_model(&req.pool, &table, &reg, 0).unwrap();
    assert_eq!(md.classes.len(), 1);
    assert_eq!(md.classes[0].name, "Person");
    let tys: Vec<FieldType> = md.classes[0].fields.iter().map(|f| f.ty).collect();
    assert_eq!(
        tys,
        vec![
            FieldType::Single(ValueType::Scalar(Scalar::Str)),
            FieldType::Single(ValueType::Scalar(Scalar::I32)),
            FieldType::Dict(ValueType::Scalar(Scalar::Str), ValueType::Scalar(Scalar::Str)),
        ]
    );
}

#[test]
fn nested_message_reference() {
    let outer = message(
        "Outer",
        None,
        0,
        vec![field("inner", WireKind::Message, Label::Optional, ".Outer.Inner")],
    );
    let inner = message(
        "Inner",
        Some(0),
        0,
        vec![field("flag", WireKind::Bool, Label::Optional, "")],
    );
    let req = request(vec![file("outer.proto", "")], vec![outer, inner], vec![]);
    let table = build_table(&req.pool);
    assert_eq!(table.messages[1], "Outer.Inner");
    let reg = map_registry(&req.pool, &table).unwrap();
    let md = build_file_model(&req.pool, &table, &reg, 0).unwrap();
    assert_eq!(md.classes[0].fields[0].ty, FieldType::Single(ValueType::Message(1)));
    assert_eq!(md.classes[1].name, "Outer.Inner");
    assert_eq!(
        only_content(&req),
        "import enum\n\nimport pydantic\n\nclass Outer(pydantic.BaseModel):\n    inner: Outer.Inner\n\nclass Outer.Inner(pydantic.BaseModel):\n    flag: bool\n"
    );
}

#[test]
fn relative_reference_resolves() {
    let outer = message("Outer", None, 0, vec![]);
    let inner = message("Inner", Some(0), 0, vec![]);
    let req = request(vec![file("a.proto", "pkg")], vec![outer, inner], vec![]);
    let table = build_table(&req.pool);
    assert_eq!(table.messages[1], "pkg.Outer.Inner");
    assert_eq!(resolve(&req.pool, &table, &"Inner".to_string()), Some(Symbol::Message(1)));
    assert_eq!(resolve(&req.pool, &table, &"Outer.Inner".to_string()), Some(Symbol::Message(1)));
    assert_eq!(resolve(&req.pool, &table, &".pkg.Outer.Inner".to_string()), Some(Symbol::Message(1)));
    assert_eq!(resolve(&req.pool, &table, &".Outer.Inner".to_string()), None);
    assert_eq!(resolve(&req.pool, &table, &"nner".to_string()), None);
}

#[test]
fn reference_matching_rules() {
    let q = "a.b.C".to_string();
    assert!(matches_ref(&q, &".a.b.C".to_string()));
    assert!(matches_ref(&q, &"C".to_string()));
    assert!(matches_ref(&q, &"b.C".to_string()));
    assert!(matches_ref(&q, &"a.b.C".to_string()));
    assert!(!matches_ref(&q, &".b.C".to_string()));
    assert!(!matches_ref(&q, &"x.C".to_string()));
}

#[test]
fn ambiguous_reference_is_unresolved() {
    let a = message("Thing", None, 0, vec![]);
    let b = message("Thing", None, 1, vec![]);
    let user = message("User", None, 0, vec![field("t", WireKind::Message, Label::Optional, "Thing")]);
    let req = request(vec![file("a.proto", "a"), file("b.proto", "b")], vec![a, b, user], vec![]);
    assert_eq!(
        compile(&req).err(),
        Some(CompileError::UnresolvedReference { message: 2, field: 0 })
    );
}

#[test]
fn enum_values_kept_verbatim() {
    let color = EnumDecl {
        name: "Color".to_string(),
        parent: None,
        file: 0,
        values: vec![
            EnumValueDecl { name: "RED".to_string(), number: 0 },
            EnumValueDecl { name: "GREEN".to_string(), number: 2 },
            EnumValueDecl { name: "BLUE".to_string(), number: 2 },
        ],
    };
    let req = request(vec![file("color.proto", "")], vec![], vec![color]);
    assert_eq!(
        only_content(&req),
        "import enum\n\nimport pydantic\n\nclass Color(enum.IntEnum):\n    RED = 0\n    GREEN = 2\n    BLUE = 2\n"
    );
    let table = build_table(&req.pool);
    let reg = map_registry(&req.pool, &table).unwrap();
    let md = build_file_model(&req.pool, &table, &reg, 0).unwrap();
    let nums: Vec<i32> = md.enums[0].variants.iter().map(|v| v.number).collect();
    assert_eq!(nums, vec![0, 2, 2]);
}

#[test]
fn negative_enum_value() {
    let sign = EnumDecl {
        name: "Sign".to_string(),
        parent: None,
        file: 0,
        values: vec![
            EnumValueDecl { name: "NEG".to_string(), number: -5 },
            EnumValueDecl { name: "MIN".to_string(), number: i32::MIN },
        ],
    };
    let req = request(vec![file("s.proto", "")], vec![], vec![sign]);
    assert_eq!(
        only_content(&req),
        "import enum\n\nimport pydantic\n\nclass Sign(enum.IntEnum):\n    NEG = -5\n    MIN = -2147483648\n"
    );
}

#[test]
fn empty_request_is_an_error() {
    let req = request(vec![], vec![], vec![]);
    let resp = generate_code(&req);
    assert_eq!(resp.error.as_deref(), Some("No input files to generate"));
    assert!(resp.files.is_empty());
    assert_eq!(resp.supported_features, 0);
    assert_eq!(compile(&req).err(), Some(CompileError::EmptyRequest));
}

#[test]
fn missing_dependency_is_unresolved() {
    let mut f = file("user.proto", "app");
    f.dependencies = vec!["dep.proto".to_string()];
    let user = message(
        "User",
        None,
        0,
        vec![
            field("id", WireKind::Int64, Label::Optional, ""),
            field("thing", WireKind::Message, Label::Optional, ".dep.Thing"),
        ],
    );
    let req = request(vec![f], vec![user], vec![]);
    assert_eq!(
        compile(&req).err(),
        Some(CompileError::UnresolvedReference { message: 0, field: 1 })
    );
    let resp = generate_code(&req);
    assert_eq!(resp.error.as_deref(), Some("Unresolved type reference: .dep.Thing"));
    assert!(resp.files.is_empty());
    assert_eq!(resp.supported_features, 1);
}

#[test]
fn same_request_same_output() {
    let req = person_request();
    let a = generate_code(&req);
    let b = generate_code(&req);
    assert_eq!(a.error, b.error);
    assert_eq!(a.supported_features, b.supported_features);
    assert_eq!(a.files.len(), b.files.len());
    for (x, y) in a.files.iter().zip(b.files.iter()) {
        assert_eq!(x.name, y.name);
        assert_eq!(x.content.as_bytes(), y.content.as_bytes());
    }
}

#[test]
fn group_field_is_unsupported() {
    let m = message("Old", None, 0, vec![field("g", WireKind::Group, Label::Optional, ".Old.G")]);
    let req = request(vec![file("old.proto", "")], vec![m], vec![]);
    assert_eq!(
        compile(&req).err(),
        Some(CompileError::UnsupportedFeature { message: 0, field: 0 })
    );
    assert_eq!(
        generate_code(&req).error.as_deref(),
        Some("Group fields are not supported: g")
    );
}

#[test]
fn malformed_map_entry() {
    let mut entry = message("BadEntry", None, 0, vec![field("key", WireKind::String, Label::Optional, "")]);
    entry.map_entry = true;
    let req = request(vec![file("m.proto", "p")], vec![entry], vec![]);
    assert_eq!(compile(&req).err(), Some(CompileError::MalformedMapEntry { message: 0 }));
    assert_eq!(generate_code(&req).error.as_deref(), Some("Malformed map entry: p.BadEntry"));
}

#[test]
fn forward_parent_link_is_malformed() {
    let a = message("A", Some(1), 0, vec![]);
    let b = message("B", None, 0, vec![]);
    let req = request(vec![file("m.proto", "")], vec![a, b], vec![]);
    assert_eq!(compile(&req).err(), Some(CompileError::MalformedPool));
}

#[test]
fn unknown_file_to_generate() {
    let mut req = request(vec![file("m.proto", "")], vec![], vec![]);
    req.file_to_generate.push("other.proto".to_string());
    assert_eq!(compile(&req).err(), Some(CompileError::UnknownFile { index: 1 }));
    assert_eq!(
        generate_code(&req).error.as_deref(),
        Some("File to generate is not in the request: other.proto")
    );
}

#[test]
fn package_becomes_module_directory() {
    assert_eq!(output_name(&"a.b".to_string()), "a/b/__init__.py");
    assert_eq!(output_name(&"".to_string()), "__init__.py");
    let req = request(vec![file("x.proto", "a.b")], vec![message("X", None, 0, vec![])], vec![]);
    let resp = generate_code(&req);
    assert_eq!(resp.supported_features, 1);
    assert_eq!(resp.files[0].name, "a/b/__init__.py");
    assert_eq!(
        resp.files[0].content,
        "import enum\n\nimport pydantic\n\nclass a.b.X(pydantic.BaseModel):\n    pass\n"
    );
}

#[test]
fn optional_and_repeated_fields() {
    let mut opt = field("maybe", WireKind::UInt64, Label::Optional, "");
    opt.proto3_optional = true;
    let rep = field("many", WireKind::Bytes, Label::Repeated, "");
    let color = EnumDecl { name: "Color".to_string(), parent: Some(0), file: 0, values: vec![] };
    let col = field("color", WireKind::Enum, Label::Repeated, "Color");
    let m = message("M", None, 0, vec![opt, rep, col]);
    let req = request(vec![file("m.proto", "")], vec![m], vec![color]);
    assert_eq!(
        only_content(&req),
        "import enum\n\nimport pydantic\n\nclass M(pydantic.BaseModel):\n    maybe: int | None\n    many: list[bytes]\n    color: list[M.Color]\n\nclass M.Color(enum.IntEnum):\n    pass\n"
    );
}

#[test]
fn only_requested_files_are_generated() {
    let dep = message("Thing", None, 1, vec![]);
    let user = message("User", None, 0, vec![field("t", WireKind::Message, Label::Optional, ".dep.Thing")]);
    let mut req = request(vec![file("user.proto", "app"), file("dep.proto", "dep")], vec![dep, user], vec![]);
    req.file_to_generate = vec!["user.proto".to_string()];
    let resp = generate_code(&req);
    assert!(resp.error.is_none());
    assert_eq!(resp.files.len(), 1);
    assert_eq!(resp.files[0].name, "app/__init__.py");
    assert_eq!(
        resp.files[0].content,
        "import enum\n\nimport pydantic\n\nclass app.User(pydantic.BaseModel):\n    t: dep.Thing\n"
    );
}
