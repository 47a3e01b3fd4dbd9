use arch_metrics::metrics::cbo::{calculate, extract_all_types, extract_type_name};
use arch_metrics::models::{FieldInfo, StructInfo};

#[test]
fn test_cbo_no_coupling() {
    let struct_a = StructInfo {
        name: "User".to_string(),
        fields: vec![FieldInfo { name: "name".to_string(), ty: "String".to_string() }],
        methods: vec![],
        traits: vec![],
    };

    let all_structs = vec![struct_a.clone()];

    assert_eq!(calculate(&struct_a, &all_structs), 0);
}

#[test]
fn test_cbo_with_coupling() {
    let struct_a = StructInfo {
        name: "User".to_string(),
        fields: vec![
            FieldInfo { name: "name".to_string(), ty: "String".to_string() },
            FieldInfo { name: "address".to_string(), ty: "Address".to_string() },
        ],
        methods: vec![],
        traits: vec![],
    };

    let struct_b = StructInfo {
        name: "Address".to_string(),
        fields: vec![FieldInfo { name: "street".to_string(), ty: "String".to_string() }],
        methods: vec![],
        traits: vec![],
    };

    let all_structs = vec![struct_a.clone(), struct_b];

    // User is coupled to Address
    assert_eq!(calculate(&struct_a, &all_structs), 1);
}

#[test]
fn test_cbo_multiple_couplings() {
    let struct_a = StructInfo {
        name: "Order".to_string(),
        fields: vec![
            FieldInfo { name: "user".to_string(), ty: "User".to_string() },
            FieldInfo { name: "product".to_string(), ty: "Product".to_string() },
        ],
        methods: vec![],
        traits: vec![],
    };

    let struct_b = StructInfo {
        name: "User".to_string(),
        fields: vec![],
        methods: vec![],
        traits: vec![],
    };

    let struct_c = StructInfo {
        name: "Product".to_string(),
        fields: vec![],
        methods: vec![],
        traits: vec![],
    };

    let all_structs = vec![struct_a.clone(), struct_b, struct_c];

    // Order is coupled to both User and Product
    assert_eq!(calculate(&struct_a, &all_structs), 2);
}

#[test]
fn test_extract_type_name() {
    assert_eq!(extract_type_name("String"), Some("String".to_string()));
    assert_eq!(extract_type_name("Vec<String>"), Some("Vec".to_string()));
    assert_eq!(extract_type_name("&str"), Some("str".to_string()));
    assert_eq!(extract_type_name("&mut String"), Some("String".to_string()));
}

#[test]
fn test_extract_all_types_generic() {
    assert_eq!(
        extract_all_types("Vec<Address>"),
        vec!["Vec".to_string(), "Address".to_string()]
    );
    assert_eq!(extract_all_types("&mut String"), vec!["String".to_string()]);
}

#[test]
fn test_extract_all_types_spaced_and_nested() {
    // Type text as a token printer renders it, with spaces around punctuation.
    assert_eq!(
        extract_all_types("Vec < Address >"),
        vec!["Vec".to_string(), "Address".to_string()]
    );
    assert_eq!(
        extract_all_types("HashMap<User, Product>"),
        vec!["HashMap".to_string(), "User".to_string(), "Product".to_string()]
    );
}

#[test]
fn test_cbo_trait_counts_unconditionally() {
    // A struct implementing one trait and referencing no other known type.
    let struct_a = StructInfo {
        name: "User".to_string(),
        fields: vec![FieldInfo { name: "name".to_string(), ty: "String".to_string() }],
        methods: vec![],
        traits: vec!["Display".to_string()],
    };

    let all_structs = vec![struct_a.clone()];

    assert_eq!(calculate(&struct_a, &all_structs), 1);
}

#[test]
fn test_cbo_excludes_self_reference() {
    // A recursive field of the struct's own type is not counted.
    let struct_a = StructInfo {
        name: "Node".to_string(),
        fields: vec![FieldInfo { name: "next".to_string(), ty: "Node".to_string() }],
        methods: vec![],
        traits: vec![],
    };

    let all_structs = vec![struct_a.clone()];

    assert_eq!(calculate(&struct_a, &all_structs), 0);
}

#[test]
fn test_cbo_same_type_counted_once() {
    // Two fields of the same known type count as one coupling.
    let struct_a = StructInfo {
        name: "Order".to_string(),
        fields: vec![
            FieldInfo { name: "buyer".to_string(), ty: "User".to_string() },
            FieldInfo { name: "seller".to_string(), ty: "User".to_string() },
        ],
        methods: vec![],
        traits: vec![],
    };

    let struct_b = StructInfo {
        name: "User".to_string(),
        fields: vec![],
        methods: vec![],
        traits: vec![],
    };

    let all_structs = vec![struct_a.clone(), struct_b];

    assert_eq!(calculate(&struct_a, &all_structs), 1);
}
