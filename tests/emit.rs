use typescript_type_def::emit::{write_definition_file, EmitCtx};
use typescript_type_def::model::{
    Array, DefinedTypeInfo, DefinitionFileOptions, Docs, Ident, Intersection, NativeTypeInfo,
    Object, ObjectField, Stats, Tuple, TypeDef, TypeExpr, TypeInfo, TypeName, TypeString, Union,
};

fn ident(s: &str) -> Ident {
    Ident(s.to_string())
}

fn name(path: &[&str], n: &str) -> TypeName {
    TypeName {
        docs: None,
        path: path.iter().map(|p| ident(p)).collect(),
        name: ident(n),
        generics: Vec::new(),
    }
}

fn native(n: &str) -> TypeDef {
    TypeDef {
        info: TypeInfo::Native(NativeTypeInfo { def: TypeExpr::Name(name(&[], n)) }),
        deps: Vec::new(),
    }
}

fn defined(path: &[&str], n: &str, def: TypeExpr, deps: Vec<usize>) -> TypeDef {
    TypeDef {
        info: TypeInfo::Defined(DefinedTypeInfo { docs: None, name: name(path, n), def }),
        deps,
    }
}

fn field(n: &str, optional: bool, ty: TypeExpr) -> ObjectField {
    ObjectField { docs: None, name: ident(n), optional, ty }
}

fn object(fields: Vec<ObjectField>) -> TypeExpr {
    TypeExpr::Object(Object { docs: None, fields })
}

fn literal(s: &str) -> TypeExpr {
    TypeExpr::String(TypeString { docs: None, value: s.to_string() })
}

fn bare(ns: &str) -> DefinitionFileOptions {
    DefinitionFileOptions { header: None, root_namespace: ns.to_string() }
}

fn body(text: &str, ns: &str) -> String {
    let prefix = format!("export default {};\nexport namespace {}{{\n", ns, ns);
    assert!(text.starts_with(&prefix), "{}", text);
    assert!(text.ends_with("}\n"), "{}", text);
    text[prefix.len()..text.len() - 2].to_string()
}

fn render(def: TypeExpr, types_before: Vec<TypeDef>) -> String {
    let mut types = types_before;
    let root = types.len();
    types.push(defined(&[], "T", def, Vec::new()));
    let (text, _) = write_definition_file(&types, root, bare("types"));
    let b = body(&text, "types");
    b.strip_prefix("export type T=").unwrap().strip_suffix(";\n").unwrap().to_string()
}

#[test]
fn round_trip_structural_fidelity() {
    // 0: string, 1: number, 2: Name, 3: Root
    let types = vec![
        native("string"),
        native("number"),
        defined(&[], "Name", TypeExpr::Ref(0), vec![0]),
        defined(
            &[],
            "Root",
            object(vec![
                field("id", false, TypeExpr::Ref(2)),
                field("tag", false, literal("x")),
                field(
                    "pair",
                    false,
                    TypeExpr::Tuple(Tuple {
                        docs: None,
                        elements: vec![TypeExpr::Ref(1), TypeExpr::Ref(1)],
                    }),
                ),
                field(
                    "items",
                    false,
                    TypeExpr::Array(Array { docs: None, item: Box::new(TypeExpr::Ref(2)) }),
                ),
            ]),
            vec![2, 0, 1],
        ),
    ];
    let (text, stats) = write_definition_file(&types, 3, bare("types"));
    assert_eq!(
        text,
        "export default types;\nexport namespace types{\nexport type Name=string;\nexport type Root={id:types.Name;tag:\"x\";pair:[number,number];items:(types.Name)[];};\n}\n"
    );
    assert_eq!(stats.type_definitions, 2);
}

#[test]
fn cycle_terminates_with_two_declarations() {
    let types = vec![
        defined(&[], "A", object(vec![field("b", true, TypeExpr::Ref(1))]), vec![1]),
        defined(&[], "B", object(vec![field("a", false, TypeExpr::Ref(0))]), vec![0]),
    ];
    let (text, stats) = write_definition_file(&types, 0, bare("types"));
    assert_eq!(
        body(&text, "types"),
        "export type B={a:types.A;};\nexport type A={b?:types.B;};\n"
    );
    assert_eq!(stats.type_definitions, 2);
}

#[test]
fn self_reference_is_declared_once() {
    let types = vec![defined(
        &[],
        "List",
        object(vec![field("next", true, TypeExpr::Ref(0))]),
        vec![0],
    )];
    let (text, stats) = write_definition_file(&types, 0, bare("t"));
    assert_eq!(body(&text, "t"), "export type List={next?:t.List;};\n");
    assert_eq!(stats.type_definitions, 1);
}

#[test]
fn shared_dependency_emitted_once() {
    // diamond: 3 -> 1, 2; 1 -> 0; 2 -> 0
    let types = vec![
        defined(&[], "D", literal("d"), vec![]),
        defined(&[], "B", TypeExpr::Ref(0), vec![0]),
        defined(&[], "C", TypeExpr::Ref(0), vec![0]),
        defined(
            &[],
            "A",
            TypeExpr::Tuple(Tuple { docs: None, elements: vec![TypeExpr::Ref(1), TypeExpr::Ref(2)] }),
            vec![1, 2, 0, 1],
        ),
    ];
    let (text, stats) = write_definition_file(&types, 3, bare("types"));
    assert_eq!(
        body(&text, "types"),
        "export type D=\"d\";\nexport type B=types.D;\nexport type C=types.D;\nexport type A=[types.B,types.C];\n"
    );
    assert_eq!(text.matches("export type D=").count(), 1);
    assert_eq!(stats.type_definitions, 4);
}

#[test]
fn native_types_are_not_declared_or_counted() {
    let types = vec![
        native("number"),
        defined(&[], "X", TypeExpr::Ref(0), vec![0]),
        TypeDef {
            info: TypeInfo::Native(NativeTypeInfo {
                def: TypeExpr::Array(Array { docs: None, item: Box::new(TypeExpr::Ref(1)) }),
            }),
            deps: vec![1],
        },
        defined(&[], "Y", TypeExpr::Ref(2), vec![2]),
    ];
    let (text, stats) = write_definition_file(&types, 3, bare("types"));
    assert_eq!(body(&text, "types"), "export type X=number;\nexport type Y=(types.X)[];\n");
    assert_eq!(stats.type_definitions, 2);
}

#[test]
fn namespace_paths_keep_equal_names_apart() {
    let types = vec![
        defined(&["a"], "Foo", literal("a"), vec![]),
        defined(&["b", "c"], "Foo", literal("b"), vec![]),
        defined(
            &[],
            "Root",
            TypeExpr::Tuple(Tuple { docs: None, elements: vec![TypeExpr::Ref(0), TypeExpr::Ref(1)] }),
            vec![0, 1],
        ),
    ];
    let (text, stats) = write_definition_file(&types, 2, bare("types"));
    assert_eq!(
        body(&text, "types"),
        "export namespace a{export type Foo=\"a\";}\nexport namespace b.c{export type Foo=\"b\";}\nexport type Root=[types.a.Foo,types.b.c.Foo];\n"
    );
    assert_eq!(stats.type_definitions, 3);
}

#[test]
fn empty_union_is_never() {
    assert_eq!(render(TypeExpr::Union(Union { docs: None, members: vec![] }), vec![]), "never");
}

#[test]
fn empty_intersection_is_any() {
    assert_eq!(
        render(TypeExpr::Intersection(Intersection { docs: None, members: vec![] }), vec![]),
        "any"
    );
}

#[test]
fn union_and_intersection_members() {
    let u = TypeExpr::Union(Union { docs: None, members: vec![literal("a"), literal("b")] });
    assert_eq!(render(u, vec![]), "(\"a\"|\"b\")");
    let i = TypeExpr::Intersection(Intersection {
        docs: None,
        members: vec![object(vec![]), object(vec![field("x", false, literal("y"))])],
    });
    assert_eq!(render(i, vec![]), "({}&{x:\"y\";})");
}

#[test]
fn field_order_and_optionality() {
    let o = object(vec![field("a", true, literal("1")), field("b", false, literal("2"))]);
    assert_eq!(render(o, vec![]), "{a?:\"1\";b:\"2\";}");
}

#[test]
fn empty_tuple() {
    assert_eq!(render(TypeExpr::Tuple(Tuple { docs: None, elements: vec![] }), vec![]), "[]");
}

#[test]
fn array_item_is_parenthesized() {
    let u = TypeExpr::Union(Union { docs: None, members: vec![literal("a"), literal("b")] });
    let a = TypeExpr::Array(Array { docs: None, item: Box::new(u) });
    assert_eq!(render(a, vec![]), "((\"a\"|\"b\"))[]");
}

#[test]
fn string_literal_is_escaped() {
    assert_eq!(render(literal("a\"b\\c\n"), vec![]), "\"a\\\"b\\\\c\\n\"");
}

#[test]
fn name_with_path_and_generics() {
    let mut n = name(&["x", "y"], "Record");
    n.generics = vec![literal("k"), TypeExpr::Ref(0)];
    assert_eq!(render(TypeExpr::Name(n), vec![native("number")]), "x.y.Record<\"k\",number>");
}

#[test]
fn docs_precede_their_owner() {
    let types = vec![TypeDef {
        info: TypeInfo::Defined(DefinedTypeInfo {
            docs: Some(Docs(vec!["first".to_string(), "second */ end".to_string()])),
            name: name(&[], "D"),
            def: TypeExpr::Object(Object {
                docs: None,
                fields: vec![ObjectField {
                    docs: Some(Docs(vec!["f".to_string()])),
                    name: ident("f"),
                    optional: false,
                    ty: literal("v"),
                }],
            }),
        }),
        deps: vec![],
    }];
    let (text, _) = write_definition_file(&types, 0, bare("types"));
    assert_eq!(
        body(&text, "types"),
        "\n/**\n * first\n * second */ end\n */\nexport type D={\n/**\n * f\n */\nf:\"v\";};\n"
    );
}

#[test]
fn header_lines_become_comments() {
    let options = DefinitionFileOptions {
        header: Some(vec!["line one".to_string(), "line two".to_string()]),
        root_namespace: "ns".to_string(),
    };
    let types = vec![defined(&[], "A", literal("a"), vec![])];
    let (text, _) = write_definition_file(&types, 0, options);
    assert_eq!(
        text,
        "// line one\n// line two\n\nexport default ns;\nexport namespace ns{\nexport type A=\"a\";\n}\n"
    );
}

#[test]
fn default_options() {
    let options = DefinitionFileOptions::default();
    assert_eq!(options.root_namespace, "types");
    assert_eq!(options.header, Some(vec!["AUTO-GENERATED by typescript-type-def".to_string()]));
    let types = vec![defined(&[], "A", literal("a"), vec![])];
    let (text, _) = write_definition_file(&types, 0, DefinitionFileOptions::default());
    assert!(text.starts_with("// AUTO-GENERATED by typescript-type-def\n\nexport default types;\n"));
}

#[test]
fn root_outside_arena_emits_nothing() {
    let types = vec![defined(&[], "A", literal("a"), vec![])];
    let (text, stats) = write_definition_file(&types, 5, bare("types"));
    assert_eq!(body(&text, "types"), "");
    assert_eq!(stats.type_definitions, 0);
}

#[test]
fn emit_ctx_steps() {
    let types = vec![
        defined(&[], "A", literal("a"), vec![]),
        native("number"),
    ];
    let mut ctx = EmitCtx::new(types.len(), bare("types"));
    assert_eq!(ctx.visited, vec![false, false]);
    ctx.emit_type(&types, 0);
    ctx.emit_type(&types, 0);
    ctx.emit_type(&types, 1);
    assert_eq!(ctx.out, "export type A=\"a\";\n");
    assert_eq!(ctx.visited, vec![true, true]);
    assert_eq!(ctx.stats.type_definitions, 1);
    ctx.emit_def(&types, 1);
    assert_eq!(ctx.out, "export type A=\"a\";\n");
}

#[test]
fn stats_default_is_zero() {
    let s = Stats::default();
    assert_eq!(s.type_definitions, 0);
}

#[test]
fn native_reference_to_a_later_type_renders_nothing() {
    let types = vec![
        TypeDef {
            info: TypeInfo::Native(NativeTypeInfo {
                def: TypeExpr::Array(Array { docs: None, item: Box::new(TypeExpr::Ref(1)) }),
            }),
            deps: vec![1],
        },
        defined(&[], "X", literal("x"), vec![]),
        defined(&[], "Y", TypeExpr::Ref(0), vec![0]),
    ];
    let (text, stats) = write_definition_file(&types, 2, bare("types"));
    assert_eq!(body(&text, "types"), "export type X=\"x\";\nexport type Y=()[];\n");
    assert_eq!(stats.type_definitions, 2);
}
