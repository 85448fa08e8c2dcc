use openapi_patcher::config::{Generator, build_packaging};

#[test]
fn generator_names_parse() {
    assert_eq!(Generator::from_name("rust"), Some(Generator::Rust));
    assert_eq!(Generator::from_name("python"), Some(Generator::Python));
    assert_eq!(Generator::from_name("typescript"), Some(Generator::Typescript));
    assert_eq!(Generator::from_name("golang"), Some(Generator::Golang));
    assert_eq!(Generator::from_name("cobol"), None);
    assert_eq!(Generator::from_name(""), None);
}

#[test]
fn repo_names_per_target() {
    assert_eq!(Generator::Rust.repo_name(), "plaid-rs");
    assert_eq!(Generator::Python.repo_name(), "plaid-python");
    assert_eq!(Generator::Typescript.repo_name(), "plaid-ts");
    assert_eq!(Generator::Golang.repo_name(), "plaid-go");
}

#[test]
fn package_name_differs_for_python() {
    assert_eq!(Generator::Python.package_name(), "plaid2");
    assert_eq!(Generator::Rust.package_name(), "plaid");
    assert_eq!(Generator::Typescript.package_name(), "plaid");
    assert_eq!(Generator::Golang.package_name(), "plaid");
}

#[test]
fn packaging_metadata_is_assembled() {
    let p = build_packaging(Generator::Rust, "libninjacom", "Plaid", "1.2.3");
    assert_eq!(p.package_name, "plaid".to_string());
    assert_eq!(p.service_name, "Plaid".to_string());
    assert_eq!(p.qualified_repo, "libninjacom/plaid-rs".to_string());
    assert_eq!(p.dest_path, "../plaid-rs".to_string());
    assert_eq!(p.package_version, "1.2.3".to_string());
    assert_eq!(p.generator, Generator::Rust);
}

#[test]
fn packaging_metadata_for_python() {
    let p = build_packaging(Generator::Python, "libninjacom", "Plaid", "0.1.0");
    assert_eq!(p.package_name, "plaid2".to_string());
    assert_eq!(p.qualified_repo, "libninjacom/plaid-python".to_string());
    assert_eq!(p.dest_path, "../plaid-python".to_string());
}
