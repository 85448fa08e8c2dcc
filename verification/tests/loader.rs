use openapi_patcher::model::Schema;
use openapi_patcher::parse::{load_document, parse_document, parse_ref, parse_schema};
use openapi_patcher::tree::{Override, Tree, apply_overrides};
use openapi_patcher::model::SchemaRef;

fn s(v: &str) -> Tree {
    Tree::Str(v.to_string())
}

fn m(entries: Vec<(&str, Tree)>) -> Tree {
    Tree::Mapping(
        entries
            .into_iter()
            .map(|(k, v)| (k.to_string(), v))
            .collect(),
    )
}

fn path(parts: Vec<&str>) -> Vec<String> {
    parts.into_iter().map(|p| p.to_string()).collect()
}

#[test]
fn set_path_overwrites_existing_key() {
    let t = m(vec![("type", s("string")), ("other", Tree::Int(3))]);
    let out = t.set_path(&path(vec!["type"]), s("object"));
    assert_eq!(
        out,
        m(vec![("type", s("object")), ("other", Tree::Int(3))])
    );
}

#[test]
fn set_path_creates_missing_path() {
    let out = Tree::Null.set_path(&path(vec!["a", "b"]), Tree::Int(1));
    assert_eq!(out, m(vec![("a", m(vec![("b", Tree::Int(1))]))]));
}

#[test]
fn set_path_replaces_scalar_on_the_way() {
    let t = m(vec![("a", Tree::Int(5))]);
    let out = t.set_path(&path(vec!["a", "b"]), s("x"));
    assert_eq!(out, m(vec![("a", m(vec![("b", s("x"))]))]));
}

#[test]
fn set_path_twice_equals_once() {
    let build = || m(vec![("schemas", m(vec![("UserName", m(vec![("x", Tree::Bool(true))]))]))]);
    let p = path(vec!["schemas", "UserName", "type"]);
    let once = build().set_path(&p, s("object"));
    let twice = build().set_path(&p, s("object")).set_path(&p, s("object"));
    assert_eq!(once, twice);
}

#[test]
fn overrides_apply_in_order() {
    let t = Tree::Null;
    let out = apply_overrides(
        t,
        vec![
            Override {
                path: path(vec!["a"]),
                value: s("first"),
            },
            Override {
                path: path(vec!["a"]),
                value: s("second"),
            },
        ],
    );
    assert_eq!(out, m(vec![("a", s("second"))]));
}

#[test]
fn schema_without_type_fails_strict_parse() {
    let node = m(vec![("properties", m(vec![]))]);
    assert_eq!(parse_schema(&node), None);
}

#[test]
fn schema_with_wrong_type_fails_strict_parse() {
    let node = m(vec![("type", s("objeect"))]);
    assert_eq!(parse_schema(&node), None);
}

#[test]
fn forced_type_makes_strict_parse_succeed() {
    let node = m(vec![("properties", m(vec![("name", m(vec![("type", s("string"))]))]))]);
    assert_eq!(parse_schema(&node), None);
    let coerced = node.set_path(&path(vec!["type"]), s("object"));
    let parsed = parse_schema(&coerced);
    assert_eq!(
        parsed,
        Some(Schema::Object {
            properties: vec![(
                "name".to_string(),
                SchemaRef::Inline(Box::new(Schema::Other {
                    kind_name: "string".to_string(),
                })),
            )],
        })
    );
}

#[test]
fn parse_reads_all_of_and_refs() {
    let node = m(vec![(
        "allOf",
        Tree::Sequence(vec![
            m(vec![("$ref", s("#/components/schemas/Base"))]),
            m(vec![("type", s("string"))]),
        ]),
    )]);
    let parsed = parse_schema(&node);
    assert_eq!(
        parsed,
        Some(Schema::AllOf {
            members: vec![
                SchemaRef::Named("#/components/schemas/Base".to_string()),
                SchemaRef::Inline(Box::new(Schema::Other {
                    kind_name: "string".to_string(),
                })),
            ],
        })
    );
}

#[test]
fn ref_node_parses_as_named_reference() {
    let node = m(vec![("$ref", s("#/components/schemas/Base"))]);
    assert_eq!(
        parse_ref(&node),
        Some(SchemaRef::Named("#/components/schemas/Base".to_string()))
    );
}

#[test]
fn document_requires_paths() {
    let t = m(vec![("openapi", s("3.0.0"))]);
    assert_eq!(parse_document(&t), None);
}

#[test]
fn document_parses_operations_and_schemas() {
    let t = m(vec![
        (
            "paths",
            m(vec![(
                "/accounts/get",
                m(vec![("post", m(vec![("externalDocs", m(vec![("url", s("/x"))]))]))]),
            )]),
        ),
        (
            "components",
            m(vec![(
                "schemas",
                m(vec![("Foo", m(vec![("type", s("object"))]))]),
            )]),
        ),
    ]);
    let d = parse_document(&t).expect("document should parse");
    assert_eq!(d.operations.len(), 1);
    assert_eq!(d.operations[0].path, "/accounts/get".to_string());
    assert_eq!(d.operations[0].method, "post".to_string());
    assert_eq!(d.operations[0].external_docs, Some("/x".to_string()));
    assert_eq!(d.schemas.len(), 1);
    assert_eq!(d.schemas[0].0, "Foo".to_string());
    assert_eq!(
        d.schemas[0].1,
        Schema::Object {
            properties: vec![],
        }
    );
}

#[test]
fn loader_coerces_then_parses() {
    let build = || {
        m(vec![
            ("paths", m(vec![])),
            (
                "components",
                m(vec![(
                    "schemas",
                    m(vec![("UserName", m(vec![("properties", m(vec![]))]))]),
                )]),
            ),
        ])
    };
    assert_eq!(parse_document(&build()), None);
    let overrides = vec![Override {
        path: path(vec!["components", "schemas", "UserName", "type"]),
        value: s("object"),
    }];
    let d = load_document(build(), overrides).expect("coerced document should parse");
    assert_eq!(d.schemas.len(), 1);
    assert_eq!(d.schemas[0].0, "UserName".to_string());
    assert_eq!(
        d.schemas[0].1,
        Schema::Object {
            properties: vec![],
        }
    );
}
