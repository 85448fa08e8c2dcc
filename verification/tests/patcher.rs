use openapi_patcher::model::{Document, Operation, Schema, SchemaRef};
use openapi_patcher::patch::{
    is_credential_name,
    filter_all_of_members, keep_all_of_member, patch_document, rewrite_doc_url, rewrite_operation,
    strip_credential_properties,
};

fn inline_string() -> SchemaRef {
    SchemaRef::Inline(Box::new(Schema::Other {
        kind_name: "string".to_string(),
    }))
}

fn inline_object_foo() -> SchemaRef {
    SchemaRef::Inline(Box::new(Schema::Object {
        properties: vec![("foo".to_string(), inline_string())],
    }))
}

fn foo_with_credentials() -> Schema {
    Schema::Object {
        properties: vec![
            ("client_id".to_string(), inline_string()),
            ("secret".to_string(), inline_string()),
            ("name".to_string(), inline_string()),
        ],
    }
}

#[test]
fn strip_removes_credentials_keeping_order() {
    let out = strip_credential_properties(foo_with_credentials());
    assert_eq!(
        out,
        Schema::Object {
            properties: vec![("name".to_string(), inline_string())],
        }
    );
}

#[test]
fn strip_keeps_order_of_surrounding_properties() {
    let schema = Schema::Object {
        properties: vec![
            ("a".to_string(), inline_string()),
            ("secret".to_string(), inline_string()),
            ("b".to_string(), inline_string()),
            ("client_id".to_string(), inline_string()),
            ("c".to_string(), inline_string()),
        ],
    };
    let out = strip_credential_properties(schema);
    assert_eq!(
        out,
        Schema::Object {
            properties: vec![
                ("a".to_string(), inline_string()),
                ("b".to_string(), inline_string()),
                ("c".to_string(), inline_string()),
            ],
        }
    );
}

#[test]
fn strip_twice_equals_strip_once() {
    let once = strip_credential_properties(foo_with_credentials());
    let twice = strip_credential_properties(strip_credential_properties(foo_with_credentials()));
    assert_eq!(once, twice);
}

#[test]
fn strip_is_noop_without_credentials() {
    let schema = Schema::Object {
        properties: vec![("name".to_string(), inline_string())],
    };
    let out = strip_credential_properties(schema);
    assert_eq!(
        out,
        Schema::Object {
            properties: vec![("name".to_string(), inline_string())],
        }
    );
}

#[test]
fn strip_leaves_other_kinds_alone() {
    let out = strip_credential_properties(Schema::Other {
        kind_name: "integer".to_string(),
    });
    assert_eq!(
        out,
        Schema::Other {
            kind_name: "integer".to_string(),
        }
    );
}

#[test]
fn filter_drops_inline_object_keeps_named_ref() {
    let bar = Schema::AllOf {
        members: vec![SchemaRef::Named("Base".to_string()), inline_object_foo()],
    };
    let out = filter_all_of_members(bar);
    assert_eq!(
        out,
        Schema::AllOf {
            members: vec![SchemaRef::Named("Base".to_string())],
        }
    );
}

#[test]
fn filter_keeps_inline_non_object_member() {
    let bar = Schema::AllOf {
        members: vec![inline_string(), inline_object_foo()],
    };
    let out = filter_all_of_members(bar);
    assert_eq!(
        out,
        Schema::AllOf {
            members: vec![inline_string()],
        }
    );
}

#[test]
fn filter_count_matches_removed_members() {
    let bar = Schema::AllOf {
        members: vec![
            SchemaRef::Named("A".to_string()),
            inline_object_foo(),
            inline_string(),
            inline_object_foo(),
        ],
    };
    match filter_all_of_members(bar) {
        Schema::AllOf { members } => assert_eq!(members.len(), 2),
        _ => panic!("kind changed"),
    }
}

#[test]
fn keep_member_decisions() {
    assert!(keep_all_of_member(&SchemaRef::Named("Base".to_string())));
    assert!(keep_all_of_member(&inline_string()));
    assert!(!keep_all_of_member(&inline_object_foo()));
}

#[test]
fn url_rewrite_prefixes_base() {
    let out = rewrite_doc_url("https://plaid.com/docs", "/x");
    assert_eq!(out, "https://plaid.com/docs/x".to_string());
}

#[test]
fn operation_without_docs_is_untouched() {
    let op = Operation {
        path: "/accounts/get".to_string(),
        method: "post".to_string(),
        external_docs: None,
    };
    let out = rewrite_operation(op, "https://plaid.com/docs");
    assert_eq!(out.external_docs, None);
    assert_eq!(out.path, "/accounts/get".to_string());
    assert_eq!(out.method, "post".to_string());
}

#[test]
fn whole_pipeline_applies_all_three_edits() {
    let mut doc = Document {
        operations: vec![Operation {
            path: "/accounts/get".to_string(),
            method: "post".to_string(),
            external_docs: Some("/x".to_string()),
        }],
        schemas: vec![
            ("Foo".to_string(), foo_with_credentials()),
            (
                "Bar".to_string(),
                Schema::AllOf {
                    members: vec![SchemaRef::Named("Base".to_string()), inline_object_foo()],
                },
            ),
        ],
    };
    patch_document(&mut doc, "https://plaid.com/docs");
    assert_eq!(
        doc.operations[0].external_docs,
        Some("https://plaid.com/docs/x".to_string())
    );
    assert_eq!(doc.schemas[0].0, "Foo".to_string());
    assert_eq!(
        doc.schemas[0].1,
        Schema::Object {
            properties: vec![("name".to_string(), inline_string())],
        }
    );
    assert_eq!(doc.schemas[1].0, "Bar".to_string());
    assert_eq!(
        doc.schemas[1].1,
        Schema::AllOf {
            members: vec![SchemaRef::Named("Base".to_string())],
        }
    );
}

#[test]
fn filter_twice_equals_filter_once() {
    let build = || Schema::AllOf {
        members: vec![
            SchemaRef::Named("Base".to_string()),
            inline_object_foo(),
            inline_string(),
        ],
    };
    let once = filter_all_of_members(build());
    let twice = filter_all_of_members(filter_all_of_members(build()));
    assert_eq!(once, twice);
}

#[test]
fn credential_names_are_recognized() {
    assert!(is_credential_name("client_id"));
    assert!(is_credential_name("secret"));
    assert!(!is_credential_name("name"));
    assert!(!is_credential_name(""));
}
