//! Tests for the front ends and the definition registry.

use uniffi_bindgen::APIConverter;
use uniffi_bindgen::CompileError;
use uniffi_bindgen::ComponentInterface;
use uniffi_bindgen::HostEnum;
use uniffi_bindgen::HostVariant;

fn host_variant(name: &str, has_discriminant: bool, has_fields: bool, docs: &[&str]) -> HostVariant {
    HostVariant {
        name: name.to_string(),
        has_discriminant,
        has_fields,
        docs: docs.iter().map(|d| d.to_string()).collect(),
    }
}

#[test]
fn test_duplicate_variants() {
    let udl = r#"
            namespace test{};
            // Weird, but currently allowed!
            // We should probably disallow this...
            [Error]
            enum Testing { "one", "two", "one" };
        "#;
    let ci = ComponentInterface::from_webidl(udl).unwrap();
    assert_eq!(ci.iter_error_definitions().len(), 1);
    assert_eq!(ci.get_error_definition("Testing").unwrap().values().len(), 3);
}

#[test]
fn test_webidl_error_definition() {
    let udl = r#"
            namespace example {};
            [Error]
            enum Example {
              "one",
              "two"
            };
        "#;
    let ci = ComponentInterface::from_webidl(udl).unwrap();
    let err = ci.get_error_definition("Example").unwrap();
    assert_eq!(err.name(), "Example");
    assert_eq!(err.values().len(), 2);
    assert_eq!(err.values()[0], "one");
    assert_eq!(err.values()[1], "two");
    assert_eq!(err.docs().len(), 0);
    assert_eq!(ci.namespace(), "example");
}

#[test]
fn test_front_end_equivalence() {
    let udl = r#"namespace example {}; [Error] enum Testing { "one", "two" };"#;
    let ci = ComponentInterface::from_webidl(udl).unwrap();
    let from_idl = ci.get_error_definition("Testing").unwrap();

    let host = HostEnum {
        name: "Testing".to_string(),
        docs: vec![],
        variants: vec![host_variant("one", false, false, &[]), host_variant(
            "two",
            false,
            false,
            &[],
        )],
    };
    let mut scratch = ComponentInterface::new("example".to_string());
    let from_attrs = host.convert(&mut scratch).unwrap();

    assert_eq!(from_idl.name(), from_attrs.name());
    assert_eq!(from_idl.values(), from_attrs.values());
    assert_eq!(from_idl.docs(), from_attrs.docs());
}

#[test]
fn test_explicit_discriminant_rejected() {
    let host = HostEnum {
        name: "Testing".to_string(),
        docs: vec![],
        variants: vec![host_variant("one", false, false, &[]), host_variant(
            "two",
            true,
            false,
            &[],
        )],
    };
    let mut ci = ComponentInterface::new("t".to_string());
    let err = host.convert(&mut ci).unwrap_err();
    let msg = err.message();
    assert!(msg.contains("explicit discriminant not supported"));
    assert!(msg.contains("`two`"));
    match err {
        CompileError::ExplicitDiscriminant { enum_name, variant } => {
            assert_eq!(enum_name, "Testing");
            assert_eq!(variant, "two");
        },
        other => panic!("wrong condition: {:?}", other),
    }
}

#[test]
fn test_variant_with_fields_rejected() {
    let host = HostEnum {
        name: "Testing".to_string(),
        docs: vec![],
        variants: vec![host_variant("one", false, true, &[])],
    };
    let mut ci = ComponentInterface::new("t".to_string());
    let err = host.convert(&mut ci).unwrap_err();
    let msg = err.message();
    assert!(msg.contains("variant cannot have fields"));
    assert!(msg.contains("`one`"));
    match err {
        CompileError::VariantWithFields { enum_name, variant } => {
            assert_eq!(enum_name, "Testing");
            assert_eq!(variant, "one");
        },
        other => panic!("wrong condition: {:?}", other),
    }
}

#[test]
fn test_docs_formatting() {
    let host = HostEnum {
        name: "E".to_string(),
        docs: vec!["does a thing".to_string()],
        variants: vec![host_variant("v", false, false, &["detail"])],
    };
    let mut ci = ComponentInterface::new("t".to_string());
    let err = host.convert(&mut ci).unwrap();
    assert_eq!(err.docs(), vec!["does a thing", "", "  `v`:", "      detail"]);
}

#[test]
fn test_duplicate_definition_rejected() {
    let udl = r#"
            namespace test {};
            [Error] enum A { "x" };
            [Error] enum A { "y" };
        "#;
    let err = ComponentInterface::from_webidl(udl).unwrap_err();
    let msg = err.message();
    assert!(msg.contains("Duplicate definition"));
    match err {
        CompileError::DuplicateDefinition { name } => assert_eq!(name, "A"),
        other => panic!("wrong condition: {:?}", other),
    }
}

#[test]
fn test_syntax_error_rejected() {
    let err = ComponentInterface::from_webidl("this is not an interface").unwrap_err();
    assert!(matches!(err, CompileError::Syntax { .. }));
    assert_eq!(err.message(), "Syntax error in interface definition");
}

#[test]
fn test_lookup_missing_definition() {
    let udl = "namespace test {};";
    let ci = ComponentInterface::from_webidl(udl).unwrap();
    assert!(ci.get_error_definition("Nothing").is_none());
    assert_eq!(ci.iter_error_definitions().len(), 0);
}

#[test]
fn test_empty_enum_body() {
    let udl = r#"namespace t {}; [Error] enum Empty { };"#;
    let ci = ComponentInterface::from_webidl(udl).unwrap();
    assert_eq!(ci.get_error_definition("Empty").unwrap().values().len(), 0);
}

#[test]
fn test_trailing_comma_accepted() {
    let udl = r#"namespace t {}; [Error] enum E { "a", "b", };"#;
    let ci = ComponentInterface::from_webidl(udl).unwrap();
    assert_eq!(ci.get_error_definition("E").unwrap().values(), vec!["a", "b"]);
}

#[test]
fn test_resolve_type() {
    let udl = r#"namespace t {}; [Error] enum Oops { "x" };"#;
    let ci = ComponentInterface::from_webidl(udl).unwrap();
    let ok = uniffi_bindgen::Type::Optional(Box::new(uniffi_bindgen::Type::Error(
        "Oops".to_string(),
    )));
    assert!(ci.resolve_type(&ok).is_ok());
    let missing = uniffi_bindgen::Type::Sequence(Box::new(uniffi_bindgen::Type::Error(
        "Nope".to_string(),
    )));
    match ci.resolve_type(&missing).unwrap_err() {
        CompileError::UnresolvedReference { name } => assert_eq!(name, "Nope"),
        other => panic!("wrong condition: {:?}", other),
    }
    assert!(ci.resolve_type(&uniffi_bindgen::Type::Boolean).is_ok());
}

#[test]
fn test_registration_order_kept() {
    let udl = r#"
            namespace test {};
            [Error] enum B { "b" };
            [Error] enum A { "a" };
        "#;
    let ci = ComponentInterface::from_webidl(udl).unwrap();
    let defs = ci.iter_error_definitions();
    assert_eq!(defs.len(), 2);
    assert_eq!(defs[0].name(), "B");
    assert_eq!(defs[1].name(), "A");
}
