use vstd::prelude::*;

verus! {

/// One source unit, already parsed: the top-level items the extractor reads.
pub struct File {
    pub items: Vec<Item>,
}

/// A top-level item of interest: a struct declaration, an implementation
/// block, or a use declaration.
pub enum Item {
    Struct(ItemStruct),
    Impl(ItemImpl),
    Use(ItemUse),
}

/// A declared struct: its name and its fields in declaration order.
pub struct ItemStruct {
    pub name: String,
    pub fields: Vec<FieldDecl>,
}

/// One declared field: its name (absent for tuple-struct positions) and the
/// raw text of its declared type.
pub struct FieldDecl {
    pub name: Option<String>,
    pub ty: String,
}

/// An implementation block: the trait it implements (if any), the name of
/// its self type when that type is a plain path, and its functions in
/// declaration order.
pub struct ItemImpl {
    pub trait_name: Option<String>,
    pub self_ty_name: Option<String>,
    pub fns: Vec<ImplFn>,
}

/// One function of an implementation block: its name and its body.
pub struct ImplFn {
    pub name: String,
    pub block: Block,
}

/// A use declaration.
pub struct ItemUse {
    pub tree: UseTree,
}

/// The tree of a use declaration.
pub enum UseTree {
    Path { tree: Box<UseTree> },
    Name { ident: String },
    Rename { rename: String },
    Glob,
    Group { items: Vec<UseTree> },
}

/// A block: a sequence of statements.
pub struct Block {
    pub stmts: Vec<Stmt>,
}

/// A statement: a local binding with an optional initializer, an expression
/// statement, or anything else (which carries no signal for the analysis).
pub enum Stmt {
    Local { init: Option<Expr> },
    Expr { expr: Expr },
    Other,
}

/// One arm of a match expression: an optional guard and a body.
pub struct Arm {
    pub guard: Option<Expr>,
    pub body: Expr,
}

/// The closed set of expression shapes the analysis distinguishes. Shapes
/// that carry no signal are mapped to `Other`.
pub enum Expr {
    FieldAccess { base: Box<Expr>, member: Option<String> },
    MethodCall { receiver: Box<Expr>, args: Vec<Expr> },
    Call { func: Box<Expr>, args: Vec<Expr> },
    Binary { left: Box<Expr>, right: Box<Expr> },
    Unary { operand: Box<Expr> },
    Reference { operand: Box<Expr> },
    Block { block: Block },
    If { cond: Box<Expr>, then_branch: Block, else_branch: Option<Box<Expr>> },
    While { cond: Box<Expr>, body: Block },
    ForLoop { iter_expr: Box<Expr>, body: Block },
    Loop { body: Block },
    Match { scrutinee: Box<Expr>, arms: Vec<Arm> },
    Struct { path: String, field_inits: Vec<Expr> },
    Path { path: String },
    Other,
}

/// The size of an expression tree, used as a termination measure for the
/// recursive analysis.
pub open spec fn expr_size(e: Expr) -> nat
    decreases e,
{
    match e {
        Expr::FieldAccess { base, .. } => 1 + expr_size(*base),
        Expr::MethodCall { receiver, args } => 1 + expr_size(*receiver) + expr_list_size(args@),
        Expr::Call { func, args } => 1 + expr_size(*func) + expr_list_size(args@),
        Expr::Binary { left, right } => 1 + expr_size(*left) + expr_size(*right),
        Expr::Unary { operand } => 1 + expr_size(*operand),
        Expr::Reference { operand } => 1 + expr_size(*operand),
        Expr::Block { block } => 1 + block_size(block),
        Expr::If { cond, then_branch, else_branch } => {
            1 + expr_size(*cond) + block_size(then_branch) + (match else_branch {
                Some(e2) => expr_size(*e2),
                None => 0,
            })
        },
        Expr::While { cond, body } => 1 + expr_size(*cond) + block_size(body),
        Expr::ForLoop { iter_expr, body } => 1 + expr_size(*iter_expr) + block_size(body),
        Expr::Loop { body } => 1 + block_size(body),
        Expr::Match { scrutinee, arms } => 1 + expr_size(*scrutinee) + arm_list_size(arms@),
        Expr::Struct { field_inits, .. } => 1 + expr_list_size(field_inits@),
        Expr::Path { .. } => 1,
        Expr::Other => 1,
    }
}

pub open spec fn expr_list_size(es: Seq<Expr>) -> nat
    decreases es,
{
    if es.len() == 0 {
        0
    } else {
        expr_list_size(es.drop_last()) + expr_size(es.last())
    }
}

pub open spec fn arm_size(a: Arm) -> nat
    decreases a,
{
    1 + (match a.guard {
        Some(g) => expr_size(g),
        None => 0,
    }) + expr_size(a.body)
}

pub open spec fn arm_list_size(arms: Seq<Arm>) -> nat
    decreases arms,
{
    if arms.len() == 0 {
        0
    } else {
        arm_list_size(arms.drop_last()) + arm_size(arms.last())
    }
}

pub open spec fn stmt_size(st: Stmt) -> nat
    decreases st,
{
    match st {
        Stmt::Local { init } => match init {
            Some(e) => 1 + expr_size(e),
            None => 1,
        },
        Stmt::Expr { expr } => 1 + expr_size(expr),
        Stmt::Other => 1,
    }
}

pub open spec fn stmt_list_size(ss: Seq<Stmt>) -> nat
    decreases ss,
{
    if ss.len() == 0 {
        0
    } else {
        stmt_list_size(ss.drop_last()) + stmt_size(ss.last())
    }
}

pub open spec fn block_size(b: Block) -> nat
    decreases b,
{
    1 + stmt_list_size(b.stmts@)
}

pub open spec fn use_tree_size(t: UseTree) -> nat
    decreases t,
{
    match t {
        UseTree::Path { tree } => 1 + use_tree_size(*tree),
        UseTree::Name { .. } => 1,
        UseTree::Rename { .. } => 1,
        UseTree::Glob => 1,
        UseTree::Group { items } => 1 + use_tree_list_size(items@),
    }
}

pub open spec fn use_tree_list_size(ts: Seq<UseTree>) -> nat
    decreases ts,
{
    if ts.len() == 0 {
        0
    } else {
        use_tree_list_size(ts.drop_last()) + use_tree_size(ts.last())
    }
}

pub proof fn lemma_expr_list_size_element(es: Seq<Expr>, i: int)
    requires
        0 <= i < es.len(),
    ensures
        expr_size(es[i]) <= expr_list_size(es),
    decreases es.len(),
{
    if i == es.len() - 1 {
        assert(es.last() == es[i]);
    } else {
        lemma_expr_list_size_element(es.drop_last(), i);
        assert(es.drop_last()[i] == es[i]);
    }
}

pub proof fn lemma_arm_list_size_element(arms: Seq<Arm>, i: int)
    requires
        0 <= i < arms.len(),
    ensures
        arm_size(arms[i]) <= arm_list_size(arms),
    decreases arms.len(),
{
    if i == arms.len() - 1 {
        assert(arms.last() == arms[i]);
    } else {
        lemma_arm_list_size_element(arms.drop_last(), i);
        assert(arms.drop_last()[i] == arms[i]);
    }
}

pub proof fn lemma_stmt_list_size_element(ss: Seq<Stmt>, i: int)
    requires
        0 <= i < ss.len(),
    ensures
        stmt_size(ss[i]) <= stmt_list_size(ss),
    decreases ss.len(),
{
    if i == ss.len() - 1 {
        assert(ss.last() == ss[i]);
    } else {
        lemma_stmt_list_size_element(ss.drop_last(), i);
        assert(ss.drop_last()[i] == ss[i]);
    }
}

pub proof fn lemma_use_tree_list_size_element(ts: Seq<UseTree>, i: int)
    requires
        0 <= i < ts.len(),
    ensures
        use_tree_size(ts[i]) <= use_tree_list_size(ts),
    decreases ts.len(),
{
    if i == ts.len() - 1 {
        assert(ts.last() == ts[i]);
    } else {
        lemma_use_tree_list_size_element(ts.drop_last(), i);
        assert(ts.drop_last()[i] == ts[i]);
    }
}

} // verus!
