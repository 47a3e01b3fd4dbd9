use arch_metrics::ast::{
    Arm, Block, Expr, FieldDecl, File, ImplFn, Item, ItemImpl, ItemStruct, ItemUse, Stmt,
    UseTree,
};
use arch_metrics::metrics::analyze_all;
use arch_metrics::models::OutputFormat;
use arch_metrics::parser::{
    analyze_method, calculate_cyclomatic_complexity, extract_external_types, StructVisitor,
};

fn empty_block() -> Block {
    Block { stmts: vec![] }
}

fn expr_stmt(expr: Expr) -> Stmt {
    Stmt::Expr { expr }
}

fn self_field(member: &str) -> Expr {
    Expr::FieldAccess {
        base: Box::new(Expr::Path { path: "self".to_string() }),
        member: Some(member.to_string()),
    }
}

#[test]
fn test_complexity_empty_body_is_one() {
    assert_eq!(calculate_cyclomatic_complexity(&empty_block()), 1);
}

#[test]
fn test_complexity_if_else_with_nested_while() {
    // One if/else with one while nested inside the else branch: 1 base + 1
    // if + 1 while = 3.
    let while_loop = Expr::While { cond: Box::new(Expr::Other), body: empty_block() };
    let else_block = Expr::Block { block: Block { stmts: vec![expr_stmt(while_loop)] } };
    let if_expr = Expr::If {
        cond: Box::new(Expr::Other),
        then_branch: empty_block(),
        else_branch: Some(Box::new(else_block)),
    };
    let body = Block { stmts: vec![expr_stmt(if_expr)] };

    assert_eq!(calculate_cyclomatic_complexity(&body), 3);
}

#[test]
fn test_complexity_match_is_flat() {
    // A match contributes one, regardless of its arm count.
    let m = Expr::Match {
        scrutinee: Box::new(Expr::Other),
        arms: vec![
            Arm { guard: None, body: Expr::Other },
            Arm { guard: None, body: Expr::Other },
            Arm { guard: None, body: Expr::Other },
        ],
    };
    let body = Block { stmts: vec![expr_stmt(m)] };

    assert_eq!(calculate_cyclomatic_complexity(&body), 2);
}

#[test]
fn test_analyze_method_records_field_reads() {
    let owner = arch_metrics::models::StructInfo {
        name: "User".to_string(),
        fields: vec![
            arch_metrics::models::FieldInfo { name: "name".to_string(), ty: "String".to_string() },
            arch_metrics::models::FieldInfo { name: "email".to_string(), ty: "String".to_string() },
        ],
        methods: vec![],
        traits: vec![],
    };
    // fn describe(&self) { self.name; other::label(); self.name }
    let body = Block {
        stmts: vec![
            expr_stmt(self_field("name")),
            expr_stmt(Expr::Path { path: "other :: label".to_string() }),
            expr_stmt(self_field("name")),
        ],
    };
    let method = ImplFn { name: "describe".to_string(), block: body };

    let record = analyze_method(&method, &owner);

    assert_eq!(record.name, "describe");
    // Deduplicated, and only declared fields count.
    assert_eq!(record.fields_accessed, vec!["name".to_string()]);
    assert_eq!(record.external_type_refs, vec!["other :: label".to_string()]);
    assert_eq!(record.cyclomatic_complexity, 1);
}

#[test]
fn test_analyze_method_ignores_self_rooted_paths() {
    let owner = arch_metrics::models::StructInfo {
        name: "User".to_string(),
        fields: vec![],
        methods: vec![],
        traits: vec![],
    };
    let body = Block {
        stmts: vec![
            expr_stmt(Expr::Path { path: "self :: helper".to_string() }),
            expr_stmt(Expr::Path { path: "crate :: models :: User".to_string() }),
            expr_stmt(Expr::Path { path: "std :: mem :: swap".to_string() }),
        ],
    };
    let method = ImplFn { name: "helper".to_string(), block: body };

    let record = analyze_method(&method, &owner);

    assert_eq!(record.external_type_refs, vec!["std :: mem :: swap".to_string()]);
}

fn user_file() -> File {
    // struct User { name: String }
    // impl User { fn get_name(&self) { self.name } }
    // impl Display for User { fn fmt(&self) { self.name } }
    File {
        items: vec![
            Item::Struct(ItemStruct {
                name: "User".to_string(),
                fields: vec![FieldDecl {
                    name: Some("name".to_string()),
                    ty: "String".to_string(),
                }],
            }),
            Item::Impl(ItemImpl {
                trait_name: None,
                self_ty_name: Some("User".to_string()),
                fns: vec![ImplFn {
                    name: "get_name".to_string(),
                    block: Block { stmts: vec![expr_stmt(self_field("name"))] },
                }],
            }),
            Item::Impl(ItemImpl {
                trait_name: Some("Display".to_string()),
                self_ty_name: Some("User".to_string()),
                fns: vec![ImplFn {
                    name: "fmt".to_string(),
                    block: Block { stmts: vec![expr_stmt(self_field("name"))] },
                }],
            }),
        ],
    }
}

#[test]
fn test_visitor_two_passes() {
    let file = user_file();
    let mut visitor = StructVisitor::new();
    visitor.visit_file(&file);

    assert_eq!(visitor.structs.len(), 1);
    let user = &visitor.structs[0];
    assert_eq!(user.name, "User");
    assert_eq!(user.fields.len(), 1);
    assert_eq!(user.fields[0].name, "name");
    assert_eq!(user.fields[0].ty, "String");
    // The inherent impl contributes a method; the trait impl contributes
    // only the trait name.
    assert_eq!(user.methods.len(), 1);
    assert_eq!(user.methods[0].name, "get_name");
    assert_eq!(user.methods[0].fields_accessed, vec!["name".to_string()]);
    assert_eq!(user.methods[0].cyclomatic_complexity, 1);
    assert_eq!(user.traits, vec!["Display".to_string()]);
}

#[test]
fn test_visitor_impl_before_struct_still_attaches() {
    // The struct pass runs before the impl pass, so an impl written above
    // its struct declaration still finds it.
    let file = File {
        items: vec![
            Item::Impl(ItemImpl {
                trait_name: None,
                self_ty_name: Some("User".to_string()),
                fns: vec![ImplFn { name: "touch".to_string(), block: empty_block() }],
            }),
            Item::Struct(ItemStruct { name: "User".to_string(), fields: vec![] }),
        ],
    };
    let mut visitor = StructVisitor::new();
    visitor.visit_file(&file);

    assert_eq!(visitor.structs.len(), 1);
    assert_eq!(visitor.structs[0].methods.len(), 1);
}

#[test]
fn test_visitor_unknown_self_type_is_ignored() {
    let file = File {
        items: vec![
            Item::Struct(ItemStruct { name: "User".to_string(), fields: vec![] }),
            Item::Impl(ItemImpl {
                trait_name: None,
                self_ty_name: Some("Stranger".to_string()),
                fns: vec![ImplFn { name: "touch".to_string(), block: empty_block() }],
            }),
        ],
    };
    let mut visitor = StructVisitor::new();
    visitor.visit_file(&file);

    assert_eq!(visitor.structs.len(), 1);
    assert_eq!(visitor.structs[0].methods.len(), 0);
}

#[test]
fn test_struct_construction_records_external_type() {
    let owner = arch_metrics::models::StructInfo {
        name: "Factory".to_string(),
        fields: vec![arch_metrics::models::FieldInfo {
            name: "count".to_string(),
            ty: "u32".to_string(),
        }],
        methods: vec![],
        traits: vec![],
    };
    let body = Block {
        stmts: vec![expr_stmt(Expr::Struct {
            path: "Address".to_string(),
            field_inits: vec![self_field("count")],
        })],
    };
    let method = ImplFn { name: "build".to_string(), block: body };

    let record = analyze_method(&method, &owner);

    assert_eq!(record.external_type_refs, vec!["Address".to_string()]);
    assert_eq!(record.fields_accessed, vec!["count".to_string()]);
}

#[test]
fn test_extract_external_types_from_use_trees() {
    let file = File {
        items: vec![
            Item::Use(ItemUse {
                tree: UseTree::Path {
                    tree: Box::new(UseTree::Group {
                        items: vec![
                            UseTree::Name { ident: "HashMap".to_string() },
                            UseTree::Rename { rename: "Set".to_string() },
                            UseTree::Glob,
                        ],
                    }),
                },
            }),
            Item::Use(ItemUse { tree: UseTree::Name { ident: "HashMap".to_string() } }),
        ],
    };

    let names = extract_external_types(&file);

    assert_eq!(names, vec!["HashMap".to_string(), "Set".to_string()]);
}

#[test]
fn test_analysis_is_deterministic() {
    // Two full runs over the same tree yield identical result sequences.
    let file = user_file();

    let mut v1 = StructVisitor::new();
    v1.visit_file(&file);
    let r1 = analyze_all(&v1.structs);

    let mut v2 = StructVisitor::new();
    v2.visit_file(&file);
    let r2 = analyze_all(&v2.structs);

    assert_eq!(r1.len(), r2.len());
    for (a, b) in r1.iter().zip(r2.iter()) {
        assert_eq!(a.struct_name, b.struct_name);
        assert_eq!(a.lcom, b.lcom);
        assert_eq!(a.cbo, b.cbo);
        assert_eq!(a.wmc, b.wmc);
    }
}

#[test]
fn test_duplicate_struct_names_stay_distinct() {
    // Two declarations sharing a name are kept as separate records, and an
    // impl block attaches to the first of them.
    let file = File {
        items: vec![
            Item::Struct(ItemStruct { name: "User".to_string(), fields: vec![] }),
            Item::Struct(ItemStruct {
                name: "User".to_string(),
                fields: vec![FieldDecl {
                    name: Some("name".to_string()),
                    ty: "String".to_string(),
                }],
            }),
            Item::Impl(ItemImpl {
                trait_name: None,
                self_ty_name: Some("User".to_string()),
                fns: vec![ImplFn { name: "touch".to_string(), block: empty_block() }],
            }),
        ],
    };
    let mut visitor = StructVisitor::new();
    visitor.visit_file(&file);

    assert_eq!(visitor.structs.len(), 2);
    assert_eq!(visitor.structs[0].methods.len(), 1);
    assert_eq!(visitor.structs[1].methods.len(), 0);
}

#[test]
fn test_output_format_from_str() {
    assert!(matches!(OutputFormat::from_str("table"), Ok(OutputFormat::Table)));
    assert!(matches!(OutputFormat::from_str("JSON"), Ok(OutputFormat::Json)));
    assert!(matches!(OutputFormat::from_str("Csv"), Ok(OutputFormat::Csv)));
    let err = OutputFormat::from_str("bogus");
    assert_eq!(err, Err("Unknown format: bogus".to_string()));
}
