use arch_metrics::metrics::{analyze_struct, lcom, wmc};
use arch_metrics::models::{FieldInfo, MethodInfo, StructInfo};

#[test]
fn test_lcom_perfectly_cohesive() {
    // All methods access the same field - perfectly cohesive
    let struct_info = StructInfo {
        name: "User".to_string(),
        fields: vec![FieldInfo { name: "name".to_string(), ty: "String".to_string() }],
        methods: vec![
            MethodInfo {
                name: "get_name".to_string(),
                fields_accessed: vec!["name".to_string()],
                external_type_refs: vec![],
                cyclomatic_complexity: 1,
            },
            MethodInfo {
                name: "print_name".to_string(),
                fields_accessed: vec!["name".to_string()],
                external_type_refs: vec![],
                cyclomatic_complexity: 1,
            },
        ],
        traits: vec![],
    };

    // Should be close to 0 (perfectly cohesive)
    let r = lcom::calculate(&struct_info);
    let lcom_value = r.num as f64 / r.den as f64;
    assert!(lcom_value < 0.1, "Expected low LCOM for cohesive struct, got {}", lcom_value);
}

#[test]
fn test_lcom_low_cohesion() {
    // Methods access different fields - low cohesion
    let struct_info = StructInfo {
        name: "User".to_string(),
        fields: vec![
            FieldInfo { name: "name".to_string(), ty: "String".to_string() },
            FieldInfo { name: "email".to_string(), ty: "String".to_string() },
        ],
        methods: vec![
            MethodInfo {
                name: "get_name".to_string(),
                fields_accessed: vec!["name".to_string()],
                external_type_refs: vec![],
                cyclomatic_complexity: 1,
            },
            MethodInfo {
                name: "get_email".to_string(),
                fields_accessed: vec!["email".to_string()],
                external_type_refs: vec![],
                cyclomatic_complexity: 1,
            },
        ],
        traits: vec![],
    };

    // Should be higher (less cohesive)
    let r = lcom::calculate(&struct_info);
    let lcom_value = r.num as f64 / r.den as f64;
    assert!(lcom_value > 0.5, "Expected high LCOM for low cohesion struct, got {}", lcom_value);
}

#[test]
fn test_lcom_empty_struct() {
    let struct_info = StructInfo {
        name: "Empty".to_string(),
        fields: vec![],
        methods: vec![],
        traits: vec![],
    };

    let r = lcom::calculate(&struct_info);
    assert_eq!(r.num as f64 / r.den as f64, 0.0);
}

#[test]
fn test_lcom_single_method_is_zero() {
    // One method only: no evidence of incohesion, the score is exactly zero.
    let struct_info = StructInfo {
        name: "User".to_string(),
        fields: vec![FieldInfo { name: "name".to_string(), ty: "String".to_string() }],
        methods: vec![MethodInfo {
            name: "get_name".to_string(),
            fields_accessed: vec![],
            external_type_refs: vec![],
            cyclomatic_complexity: 1,
        }],
        traits: vec![],
    };

    let r = lcom::calculate(&struct_info);
    assert_eq!(r.num, 0);
}

#[test]
fn test_lcom_exact_value() {
    // Three methods, two fields: the first field is read by two methods,
    // the second by none. sumMA = 2, so the score is (3 - 2/2) / (3 - 1) = 1.
    let read_first = |name: &str| MethodInfo {
        name: name.to_string(),
        fields_accessed: vec!["a".to_string()],
        external_type_refs: vec![],
        cyclomatic_complexity: 1,
    };
    let struct_info = StructInfo {
        name: "Pair".to_string(),
        fields: vec![
            FieldInfo { name: "a".to_string(), ty: "u32".to_string() },
            FieldInfo { name: "b".to_string(), ty: "u32".to_string() },
        ],
        methods: vec![
            read_first("first"),
            read_first("second"),
            MethodInfo {
                name: "third".to_string(),
                fields_accessed: vec![],
                external_type_refs: vec![],
                cyclomatic_complexity: 1,
            },
        ],
        traits: vec![],
    };

    let r = lcom::calculate(&struct_info);
    assert_eq!(r.num as f64 / r.den as f64, 1.0);
}

#[test]
fn test_lcom_fractional_value() {
    // Two fields, two methods; the first method reads both fields, the
    // second only the first. sumMA = 3, so the score is
    // (2 - 3/2) / (2 - 1) = 0.5.
    let struct_info = StructInfo {
        name: "Pair".to_string(),
        fields: vec![
            FieldInfo { name: "a".to_string(), ty: "u32".to_string() },
            FieldInfo { name: "b".to_string(), ty: "u32".to_string() },
        ],
        methods: vec![
            MethodInfo {
                name: "both".to_string(),
                fields_accessed: vec!["a".to_string(), "b".to_string()],
                external_type_refs: vec![],
                cyclomatic_complexity: 1,
            },
            MethodInfo {
                name: "first".to_string(),
                fields_accessed: vec!["a".to_string()],
                external_type_refs: vec![],
                cyclomatic_complexity: 1,
            },
        ],
        traits: vec![],
    };

    let r = lcom::calculate(&struct_info);
    assert_eq!(r.num as f64 / r.den as f64, 0.5);
}

#[test]
fn test_wmc_empty_struct() {
    let struct_info = StructInfo {
        name: "Empty".to_string(),
        fields: vec![],
        methods: vec![],
        traits: vec![],
    };

    assert_eq!(wmc::calculate(&struct_info), 0);
}

#[test]
fn test_wmc_with_methods() {
    let struct_info = StructInfo {
        name: "User".to_string(),
        fields: vec![FieldInfo { name: "name".to_string(), ty: "String".to_string() }],
        methods: vec![
            MethodInfo {
                name: "get_name".to_string(),
                fields_accessed: vec!["name".to_string()],
                external_type_refs: vec![],
                cyclomatic_complexity: 1,
            },
            MethodInfo {
                name: "set_name".to_string(),
                fields_accessed: vec!["name".to_string()],
                external_type_refs: vec![],
                cyclomatic_complexity: 1,
            },
            MethodInfo {
                name: "validate".to_string(),
                fields_accessed: vec![],
                external_type_refs: vec![],
                cyclomatic_complexity: 3,
            },
        ],
        traits: vec![],
    };

    assert_eq!(wmc::calculate(&struct_info), 5); // 1 + 1 + 3
}

#[test]
fn test_wmc_floors_zero_complexity_at_one() {
    // A hand-built record with complexity zero still weighs one.
    let struct_info = StructInfo {
        name: "User".to_string(),
        fields: vec![],
        methods: vec![MethodInfo {
            name: "noop".to_string(),
            fields_accessed: vec![],
            external_type_refs: vec![],
            cyclomatic_complexity: 0,
        }],
        traits: vec![],
    };

    assert_eq!(wmc::calculate(&struct_info), 1);
}

#[test]
fn test_analyze_struct_assembles_all_metrics() {
    let struct_a = StructInfo {
        name: "Order".to_string(),
        fields: vec![FieldInfo { name: "user".to_string(), ty: "User".to_string() }],
        methods: vec![MethodInfo {
            name: "user".to_string(),
            fields_accessed: vec!["user".to_string()],
            external_type_refs: vec![],
            cyclomatic_complexity: 2,
        }],
        traits: vec![],
    };
    let struct_b = StructInfo {
        name: "User".to_string(),
        fields: vec![],
        methods: vec![],
        traits: vec![],
    };

    let all_structs = vec![struct_a.clone(), struct_b];
    let result = analyze_struct(&struct_a, &all_structs);

    assert_eq!(result.struct_name, "Order");
    assert_eq!(result.lcom.num, 0);
    assert_eq!(result.cbo, 1);
    assert_eq!(result.wmc, 2);
}
