//! Tests for the canonical-text backend, the type system and versioning.

use uniffi_bindgen::ComponentInterface;
use uniffi_bindgen::FfiType;
use uniffi_bindgen::Type;
use uniffi_bindgen::UDLFile;
use uniffi_bindgen::docstring;
use uniffi_bindgen::ffi_type;
use uniffi_bindgen::generate_udl_bindings;
use uniffi_bindgen::parse_type_udl;
use uniffi_bindgen::return_type_udl;
use uniffi_bindgen::type_udl;
use uniffi_bindgen::version_compatible;

#[test]
fn test_round_trip() {
    let udl = r#"
            namespace example {};
            [Error]
            enum Testing { "one", "two" };
        "#;
    let ci = ComponentInterface::from_webidl(udl).unwrap();
    let rendered = generate_udl_bindings(&ci).unwrap();
    let ci2 = ComponentInterface::from_webidl(&rendered).unwrap();
    assert_eq!(ci2.namespace(), ci.namespace());
    assert_eq!(ci2.iter_error_definitions().len(), 1);
    let err = ci2.get_error_definition("Testing").unwrap();
    assert_eq!(err.values(), vec!["one", "two"]);
    // canonical text is a fixed point of the round trip
    assert_eq!(generate_udl_bindings(&ci2).unwrap(), rendered);
}

#[test]
fn test_rendered_text_shape() {
    let udl = r#"namespace example {}; [Error] enum Testing { "one" };"#;
    let ci = ComponentInterface::from_webidl(udl).unwrap();
    let rendered = UDLFile::new(&ci).render().unwrap();
    assert_eq!(
        rendered,
        "namespace example {};\n\n[Error]\nenum Testing {\n    \"one\",\n};\n"
    );
}

#[test]
fn test_type_udl_spellings() {
    assert_eq!(type_udl(&Type::UInt8).unwrap(), "u8");
    assert_eq!(type_udl(&Type::UInt16).unwrap(), "u16");
    assert_eq!(type_udl(&Type::UInt32).unwrap(), "u32");
    assert_eq!(type_udl(&Type::UInt64).unwrap(), "u64");
    assert_eq!(type_udl(&Type::Int8).unwrap(), "i8");
    assert_eq!(type_udl(&Type::Int16).unwrap(), "i16");
    assert_eq!(type_udl(&Type::Int32).unwrap(), "i32");
    assert_eq!(type_udl(&Type::Int64).unwrap(), "i64");
    assert_eq!(type_udl(&Type::Float32).unwrap(), "f32");
    assert_eq!(type_udl(&Type::Float64).unwrap(), "f64");
    assert_eq!(type_udl(&Type::Boolean).unwrap(), "boolean");
    assert_eq!(type_udl(&Type::String).unwrap(), "string");
    assert_eq!(type_udl(&Type::Enum("Hue".to_string())).unwrap(), "Hue");
    assert_eq!(type_udl(&Type::Object("Thing".to_string())).unwrap(), "Thing");
    assert_eq!(
        type_udl(&Type::StringMap(Box::new(Type::UInt64))).unwrap(),
        "record<DOMString, u64>"
    );
}

#[test]
fn test_composite_nesting() {
    let t = Type::Optional(Box::new(Type::Sequence(Box::new(Type::String))));
    let rendered = type_udl(&t).unwrap();
    assert_eq!(rendered, "sequence<string>?");
    let back = parse_type_udl(&rendered).unwrap();
    assert_eq!(back, t);
}

#[test]
fn test_type_parser_rejects_bare_name() {
    assert!(parse_type_udl("Widget").is_none());
    assert!(parse_type_udl("sequence<").is_none());
    assert!(parse_type_udl("u8trailing").is_none());
}

#[test]
fn test_return_type_udl() {
    assert_eq!(return_type_udl(&None).unwrap(), "void");
    assert_eq!(return_type_udl(&Some(&Type::UInt32)).unwrap(), "u32");
}

#[test]
fn test_docstring_filter() {
    let docs: Vec<&str> = vec!["line one", "line two"];
    assert_eq!(docstring(&docs, &2).unwrap(), "\n  //line one\n  //line two");
    let empty: Vec<&str> = vec![];
    assert_eq!(docstring(&empty, &4).unwrap(), "");
}

#[test]
fn test_ffi_type_total() {
    assert_eq!(ffi_type(&Type::UInt8), FfiType::UInt8);
    assert_eq!(ffi_type(&Type::UInt16), FfiType::UInt16);
    assert_eq!(ffi_type(&Type::UInt32), FfiType::UInt32);
    assert_eq!(ffi_type(&Type::UInt64), FfiType::UInt64);
    assert_eq!(ffi_type(&Type::Int8), FfiType::Int8);
    assert_eq!(ffi_type(&Type::Int16), FfiType::Int16);
    assert_eq!(ffi_type(&Type::Int32), FfiType::Int32);
    assert_eq!(ffi_type(&Type::Int64), FfiType::Int64);
    assert_eq!(ffi_type(&Type::Float32), FfiType::Float32);
    assert_eq!(ffi_type(&Type::Float64), FfiType::Float64);
    assert_eq!(ffi_type(&Type::Boolean), FfiType::UInt8);
    assert_eq!(ffi_type(&Type::String), FfiType::RustBuffer);
    assert_eq!(ffi_type(&Type::Enum("E".to_string())), FfiType::UInt32);
    assert_eq!(ffi_type(&Type::Record("R".to_string())), FfiType::RustBuffer);
    assert_eq!(ffi_type(&Type::Object("O".to_string())), FfiType::Handle);
    assert_eq!(ffi_type(&Type::Error("X".to_string())), FfiType::Int32);
    assert_eq!(ffi_type(&Type::CallbackInterface("C".to_string())), FfiType::Handle);
    assert_eq!(ffi_type(&Type::Optional(Box::new(Type::UInt8))), FfiType::RustBuffer);
    assert_eq!(ffi_type(&Type::Sequence(Box::new(Type::UInt8))), FfiType::RustBuffer);
    assert_eq!(ffi_type(&Type::StringMap(Box::new(Type::UInt8))), FfiType::RustBuffer);
}

#[test]
fn test_version_compatibility() {
    assert!(version_compatible("0.5.0", "0.5.0"));
    assert!(!version_compatible("0.5.0", "0.5.1"));
    assert!(!version_compatible("0.5.0", "1.5.0"));
    assert!(version_compatible("1.2.0", "1.9.3"));
    assert!(!version_compatible("1.2.0", "2.0.0"));
    assert!(!version_compatible("12.0.0", "1.0.0"));
}
