use vstd::prelude::*;
use crate::ast::{
    arm_list_size, block_size, expr_list_size, expr_size, lemma_arm_list_size_element,
    lemma_expr_list_size_element, lemma_stmt_list_size_element, lemma_use_tree_list_size_element,
    stmt_list_size, stmt_size, use_tree_list_size, use_tree_size, Arm, Block, Expr, FieldDecl,
    File, ImplFn, Item, ItemImpl, ItemStruct, Stmt, UseTree,
};
use crate::metrics::cap_usize;
use crate::models::{
    models_of, FieldInfo, FieldModel, MethodInfo, MethodModel, StructInfo, StructModel,
};
use crate::text::{
    contains_seq, has_prefix, insert_unique, push_unique, str_contains, str_eq_str,
    str_has_prefix, string_eq,
};

verus! {

/// The receiver keyword as characters.
pub open spec fn self_chars() -> Seq<char> {
    seq!['s', 'e', 'l', 'f']
}

/// The current-module keyword as characters.
pub open spec fn crate_chars() -> Seq<char> {
    seq!['c', 'r', 'a', 't', 'e']
}

/// The namespace separator as characters.
pub open spec fn colon2_chars() -> Seq<char> {
    seq![':', ':']
}

/// Whether the expression is a bare path naming exactly the receiver.
pub open spec fn is_self_path(e: Expr) -> bool {
    e matches Expr::Path { path } && path@ == self_chars()
}

/// Whether the path text mentions any of the known field names as a
/// substring (the accepted containment heuristic for construction
/// expressions, not a true type resolution).
pub open spec fn path_mentions_field_spec(p: Seq<char>, fnames: Seq<Seq<char>>) -> bool {
    exists|i: int| 0 <= i < fnames.len() && contains_seq(p, fnames[i])
}

/// Whether the path text is a qualified path rooted neither at the receiver
/// keyword nor at the current-module keyword.
pub open spec fn is_external_path(p: Seq<char>) -> bool {
    contains_seq(p, colon2_chars()) && !has_prefix(p, self_chars()) && !has_prefix(
        p,
        crate_chars(),
    )
}

/// The names of the declared fields of a struct model.
pub open spec fn field_names_of(s: StructModel) -> Seq<Seq<char>> {
    s.fields.map_values(|f: FieldModel| f.name)
}

/// Walks one expression, accumulating the accessed field names (first
/// component) and the external type references (second component), each in
/// first-encounter order without duplicates.
pub open spec fn walk_expr(
    e: Expr,
    fnames: Seq<Seq<char>>,
    acc: (Seq<Seq<char>>, Seq<Seq<char>>),
) -> (Seq<Seq<char>>, Seq<Seq<char>>)
    decreases e,
{
    match e {
        Expr::FieldAccess { base, member } => match member {
            Some(n) => if is_self_path(*base) && fnames.contains(n@) {
                (push_unique(acc.0, n@), acc.1)
            } else {
                acc
            },
            None => acc,
        },
        Expr::MethodCall { receiver, args } => walk_expr_list(
            args@,
            fnames,
            walk_expr(*receiver, fnames, acc),
        ),
        Expr::Call { func, args } => walk_expr_list(args@, fnames, walk_expr(*func, fnames, acc)),
        Expr::Binary { left, right } => walk_expr(*right, fnames, walk_expr(*left, fnames, acc)),
        Expr::Unary { operand } => walk_expr(*operand, fnames, acc),
        Expr::Reference { operand } => walk_expr(*operand, fnames, acc),
        Expr::Block { block } => walk_block(block, fnames, acc),
        Expr::If { cond, then_branch, else_branch } => {
            let acc1 = walk_block(then_branch, fnames, walk_expr(*cond, fnames, acc));
            match else_branch {
                Some(e2) => walk_expr(*e2, fnames, acc1),
                None => acc1,
            }
        },
        Expr::While { cond, body } => walk_block(body, fnames, walk_expr(*cond, fnames, acc)),
        Expr::ForLoop { iter_expr, body } => walk_block(
            body,
            fnames,
            walk_expr(*iter_expr, fnames, acc),
        ),
        Expr::Loop { body } => walk_block(body, fnames, acc),
        Expr::Match { scrutinee, arms } => walk_arm_list(
            arms@,
            fnames,
            walk_expr(*scrutinee, fnames, acc),
        ),
        Expr::Struct { path, field_inits } => {
            let et = if path_mentions_field_spec(path@, fnames) {
                acc.1
            } else {
                push_unique(acc.1, path@)
            };
            walk_expr_list(field_inits@, fnames, (acc.0, et))
        },
        Expr::Path { path } => if is_external_path(path@) {
            (acc.0, push_unique(acc.1, path@))
        } else {
            acc
        },
        Expr::Other => acc,
    }
}

pub open spec fn walk_expr_list(
    es: Seq<Expr>,
    fnames: Seq<Seq<char>>,
    acc: (Seq<Seq<char>>, Seq<Seq<char>>),
) -> (Seq<Seq<char>>, Seq<Seq<char>>)
    decreases es,
{
    if es.len() == 0 {
        acc
    } else {
        walk_expr(es.last(), fnames, walk_expr_list(es.drop_last(), fnames, acc))
    }
}

pub open spec fn walk_arm(
    a: Arm,
    fnames: Seq<Seq<char>>,
    acc: (Seq<Seq<char>>, Seq<Seq<char>>),
) -> (Seq<Seq<char>>, Seq<Seq<char>>)
    decreases a,
{
    let acc1 = match a.guard {
        Some(g) => walk_expr(g, fnames, acc),
        None => acc,
    };
    walk_expr(a.body, fnames, acc1)
}

pub open spec fn walk_arm_list(
    arms: Seq<Arm>,
    fnames: Seq<Seq<char>>,
    acc: (Seq<Seq<char>>, Seq<Seq<char>>),
) -> (Seq<Seq<char>>, Seq<Seq<char>>)
    decreases arms,
{
    if arms.len() == 0 {
        acc
    } else {
        walk_arm(arms.last(), fnames, walk_arm_list(arms.drop_last(), fnames, acc))
    }
}

pub open spec fn walk_stmt(
    st: Stmt,
    fnames: Seq<Seq<char>>,
    acc: (Seq<Seq<char>>, Seq<Seq<char>>),
) -> (Seq<Seq<char>>, Seq<Seq<char>>)
    decreases st,
{
    match st {
        Stmt::Local { init } => match init {
            Some(e) => walk_expr(e, fnames, acc),
            None => acc,
        },
        Stmt::Expr { expr } => walk_expr(expr, fnames, acc),
        Stmt::Other => acc,
    }
}

pub open spec fn walk_stmt_list(
    ss: Seq<Stmt>,
    fnames: Seq<Seq<char>>,
    acc: (Seq<Seq<char>>, Seq<Seq<char>>),
) -> (Seq<Seq<char>>, Seq<Seq<char>>)
    decreases ss,
{
    if ss.len() == 0 {
        acc
    } else {
        walk_stmt(ss.last(), fnames, walk_stmt_list(ss.drop_last(), fnames, acc))
    }
}

pub open spec fn walk_block(
    b: Block,
    fnames: Seq<Seq<char>>,
    acc: (Seq<Seq<char>>, Seq<Seq<char>>),
) -> (Seq<Seq<char>>, Seq<Seq<char>>)
    decreases b,
{
    walk_stmt_list(b.stmts@, fnames, acc)
}

/// Every name of `sub` is a name of `base` or one of the allowed names.
pub open spec fn names_within(
    sub: Seq<Seq<char>>,
    base: Seq<Seq<char>>,
    allowed: Seq<Seq<char>>,
) -> bool {
    forall|n: Seq<char>| #[trigger] sub.contains(n) ==> base.contains(n) || allowed.contains(n)
}

proof fn lemma_names_within_trans(
    c: Seq<Seq<char>>,
    b: Seq<Seq<char>>,
    a: Seq<Seq<char>>,
    allowed: Seq<Seq<char>>,
)
    requires
        names_within(c, b, allowed),
        names_within(b, a, allowed),
    ensures
        names_within(c, a, allowed),
{
}

/// Walking an expression only ever adds declared field names to the
/// accessed-fields component.
pub proof fn lemma_walk_expr_fields_subset(
    e: Expr,
    fnames: Seq<Seq<char>>,
    acc: (Seq<Seq<char>>, Seq<Seq<char>>),
)
    ensures
        names_within(walk_expr(e, fnames, acc).0, acc.0, fnames),
    decreases e,
{
    match e {
        Expr::FieldAccess { base, member } => {
            match member {
                Some(n) => {
                    if is_self_path(*base) && fnames.contains(n@) {
                        assert forall|x: Seq<char>|
                            #[trigger] push_unique(acc.0, n@).contains(x) implies acc.0.contains(
                            x,
                        ) || fnames.contains(x) by {
                            if !acc.0.contains(n@) {
                                let i = choose|i: int|
                                    0 <= i < acc.0.push(n@).len() && acc.0.push(n@)[i] == x;
                                if i < acc.0.len() {
                                    assert(acc.0.contains(x));
                                }
                            }
                        }
                    }
                },
                None => {},
            }
        },
        Expr::MethodCall { receiver, args } => {
            lemma_walk_expr_fields_subset(*receiver, fnames, acc);
            let acc1 = walk_expr(*receiver, fnames, acc);
            lemma_walk_expr_list_fields_subset(args@, fnames, acc1);
            lemma_names_within_trans(
                walk_expr_list(args@, fnames, acc1).0,
                acc1.0,
                acc.0,
                fnames,
            );
        },
        Expr::Call { func, args } => {
            lemma_walk_expr_fields_subset(*func, fnames, acc);
            let acc1 = walk_expr(*func, fnames, acc);
            lemma_walk_expr_list_fields_subset(args@, fnames, acc1);
            lemma_names_within_trans(
                walk_expr_list(args@, fnames, acc1).0,
                acc1.0,
                acc.0,
                fnames,
            );
        },
        Expr::Binary { left, right } => {
            lemma_walk_expr_fields_subset(*left, fnames, acc);
            let acc1 = walk_expr(*left, fnames, acc);
            lemma_walk_expr_fields_subset(*right, fnames, acc1);
            lemma_names_within_trans(walk_expr(*right, fnames, acc1).0, acc1.0, acc.0, fnames);
        },
        Expr::Unary { operand } => {
            lemma_walk_expr_fields_subset(*operand, fnames, acc);
        },
        Expr::Reference { operand } => {
            lemma_walk_expr_fields_subset(*operand, fnames, acc);
        },
        Expr::Block { block } => {
            lemma_walk_block_fields_subset(block, fnames, acc);
        },
        Expr::If { cond, then_branch, else_branch } => {
            lemma_walk_expr_fields_subset(*cond, fnames, acc);
            let acc_c = walk_expr(*cond, fnames, acc);
            lemma_walk_block_fields_subset(then_branch, fnames, acc_c);
            let acc1 = walk_block(then_branch, fnames, acc_c);
            lemma_names_within_trans(acc1.0, acc_c.0, acc.0, fnames);
            match else_branch {
                Some(e2) => {
                    lemma_walk_expr_fields_subset(*e2, fnames, acc1);
                    lemma_names_within_trans(
                        walk_expr(*e2, fnames, acc1).0,
                        acc1.0,
                        acc.0,
                        fnames,
                    );
                },
                None => {},
            }
        },
        Expr::While { cond, body } => {
            lemma_walk_expr_fields_subset(*cond, fnames, acc);
            let acc1 = walk_expr(*cond, fnames, acc);
            lemma_walk_block_fields_subset(body, fnames, acc1);
            lemma_names_within_trans(walk_block(body, fnames, acc1).0, acc1.0, acc.0, fnames);
        },
        Expr::ForLoop { iter_expr, body } => {
            lemma_walk_expr_fields_subset(*iter_expr, fnames, acc);
            let acc1 = walk_expr(*iter_expr, fnames, acc);
            lemma_walk_block_fields_subset(body, fnames, acc1);
            lemma_names_within_trans(walk_block(body, fnames, acc1).0, acc1.0, acc.0, fnames);
        },
        Expr::Loop { body } => {
            lemma_walk_block_fields_subset(body, fnames, acc);
        },
        Expr::Match { scrutinee, arms } => {
            lemma_walk_expr_fields_subset(*scrutinee, fnames, acc);
            let acc1 = walk_expr(*scrutinee, fnames, acc);
            lemma_walk_arm_list_fields_subset(arms@, fnames, acc1);
            lemma_names_within_trans(
                walk_arm_list(arms@, fnames, acc1).0,
                acc1.0,
                acc.0,
                fnames,
            );
        },
        Expr::Struct { path, field_inits } => {
            let et = if path_mentions_field_spec(path@, fnames) {
                acc.1
            } else {
                push_unique(acc.1, path@)
            };
            lemma_walk_expr_list_fields_subset(field_inits@, fnames, (acc.0, et));
        },
        Expr::Path { .. } => {},
        Expr::Other => {},
    }
}

pub proof fn lemma_walk_expr_list_fields_subset(
    es: Seq<Expr>,
    fnames: Seq<Seq<char>>,
    acc: (Seq<Seq<char>>, Seq<Seq<char>>),
)
    ensures
        names_within(walk_expr_list(es, fnames, acc).0, acc.0, fnames),
    decreases es,
{
    if es.len() > 0 {
        lemma_walk_expr_list_fields_subset(es.drop_last(), fnames, acc);
        let acc1 = walk_expr_list(es.drop_last(), fnames, acc);
        lemma_walk_expr_fields_subset(es.last(), fnames, acc1);
        lemma_names_within_trans(walk_expr(es.last(), fnames, acc1).0, acc1.0, acc.0, fnames);
    }
}

pub proof fn lemma_walk_arm_list_fields_subset(
    arms: Seq<Arm>,
    fnames: Seq<Seq<char>>,
    acc: (Seq<Seq<char>>, Seq<Seq<char>>),
)
    ensures
        names_within(walk_arm_list(arms, fnames, acc).0, acc.0, fnames),
    decreases arms,
{
    if arms.len() > 0 {
        lemma_walk_arm_list_fields_subset(arms.drop_last(), fnames, acc);
        let acc1 = walk_arm_list(arms.drop_last(), fnames, acc);
        let a = arms.last();
        let acc2 = match a.guard {
            Some(g) => walk_expr(g, fnames, acc1),
            None => acc1,
        };
        match a.guard {
            Some(g) => {
                lemma_walk_expr_fields_subset(g, fnames, acc1);
            },
            None => {},
        }
        lemma_walk_expr_fields_subset(a.body, fnames, acc2);
        assert(walk_arm_list(arms, fnames, acc) == walk_arm(a, fnames, acc1));
        assert(walk_arm(a, fnames, acc1) == walk_expr(a.body, fnames, acc2));
        lemma_names_within_trans(walk_expr(a.body, fnames, acc2).0, acc2.0, acc1.0, fnames);
        lemma_names_within_trans(walk_expr(a.body, fnames, acc2).0, acc1.0, acc.0, fnames);
    }
}

pub proof fn lemma_walk_stmt_fields_subset(
    st: Stmt,
    fnames: Seq<Seq<char>>,
    acc: (Seq<Seq<char>>, Seq<Seq<char>>),
)
    ensures
        names_within(walk_stmt(st, fnames, acc).0, acc.0, fnames),
    decreases st,
{
    match st {
        Stmt::Local { init } => match init {
            Some(e) => {
                lemma_walk_expr_fields_subset(e, fnames, acc);
            },
            None => {},
        },
        Stmt::Expr { expr } => {
            lemma_walk_expr_fields_subset(expr, fnames, acc);
        },
        Stmt::Other => {},
    }
}

pub proof fn lemma_walk_stmt_list_fields_subset(
    ss: Seq<Stmt>,
    fnames: Seq<Seq<char>>,
    acc: (Seq<Seq<char>>, Seq<Seq<char>>),
)
    ensures
        names_within(walk_stmt_list(ss, fnames, acc).0, acc.0, fnames),
    decreases ss,
{
    if ss.len() > 0 {
        lemma_walk_stmt_list_fields_subset(ss.drop_last(), fnames, acc);
        let acc1 = walk_stmt_list(ss.drop_last(), fnames, acc);
        lemma_walk_stmt_fields_subset(ss.last(), fnames, acc1);
        lemma_names_within_trans(walk_stmt(ss.last(), fnames, acc1).0, acc1.0, acc.0, fnames);
    }
}

/// Walking a whole body only ever adds declared field names to the
/// accessed-fields component: the recorded accesses are a subset of the
/// owning struct's field names.
pub proof fn lemma_walk_block_fields_subset(
    b: Block,
    fnames: Seq<Seq<char>>,
    acc: (Seq<Seq<char>>, Seq<Seq<char>>),
)
    ensures
        names_within(walk_block(b, fnames, acc).0, acc.0, fnames),
    decreases b,
{
    lemma_walk_stmt_list_fields_subset(b.stmts@, fnames, acc);
}

/// The cyclomatic contribution of one expression: one for each branching
/// construct (`if`, `while`, `for`, `loop`, and a flat one per `match`
/// regardless of arm count), found anywhere by structural recursion.
pub open spec fn cx_expr(e: Expr) -> nat
    decreases e,
{
    match e {
        Expr::FieldAccess { base, .. } => cx_expr(*base),
        Expr::MethodCall { receiver, args } => cx_expr(*receiver) + cx_expr_list(args@),
        Expr::Call { func, args } => cx_expr(*func) + cx_expr_list(args@),
        Expr::Binary { left, right } => cx_expr(*left) + cx_expr(*right),
        Expr::Unary { operand } => cx_expr(*operand),
        Expr::Reference { operand } => cx_expr(*operand),
        Expr::Block { block } => cx_block(block),
        Expr::If { cond, then_branch, else_branch } => {
            1 + cx_expr(*cond) + cx_block(then_branch) + (match else_branch {
                Some(e2) => cx_expr(*e2),
                None => 0,
            })
        },
        Expr::While { cond, body } => 1 + cx_expr(*cond) + cx_block(body),
        Expr::ForLoop { iter_expr, body } => 1 + cx_expr(*iter_expr) + cx_block(body),
        Expr::Loop { body } => 1 + cx_block(body),
        Expr::Match { scrutinee, arms } => 1 + cx_expr(*scrutinee) + cx_arm_list(arms@),
        Expr::Struct { field_inits, .. } => cx_expr_list(field_inits@),
        Expr::Path { .. } => 0,
        Expr::Other => 0,
    }
}

pub open spec fn cx_expr_list(es: Seq<Expr>) -> nat
    decreases es,
{
    if es.len() == 0 {
        0
    } else {
        cx_expr_list(es.drop_last()) + cx_expr(es.last())
    }
}

pub open spec fn cx_arm(a: Arm) -> nat
    decreases a,
{
    (match a.guard {
        Some(g) => cx_expr(g),
        None => 0,
    }) + cx_expr(a.body)
}

pub open spec fn cx_arm_list(arms: Seq<Arm>) -> nat
    decreases arms,
{
    if arms.len() == 0 {
        0
    } else {
        cx_arm_list(arms.drop_last()) + cx_arm(arms.last())
    }
}

pub open spec fn cx_stmt(st: Stmt) -> nat
    decreases st,
{
    match st {
        Stmt::Local { init } => match init {
            Some(e) => cx_expr(e),
            None => 0,
        },
        Stmt::Expr { expr } => cx_expr(expr),
        Stmt::Other => 0,
    }
}

pub open spec fn cx_stmt_list(ss: Seq<Stmt>) -> nat
    decreases ss,
{
    if ss.len() == 0 {
        0
    } else {
        cx_stmt_list(ss.drop_last()) + cx_stmt(ss.last())
    }
}

/// The cyclomatic contribution of a block: the statements it holds, the
/// block itself adding nothing.
pub open spec fn cx_block(b: Block) -> nat
    decreases b,
{
    cx_stmt_list(b.stmts@)
}

/// Adds two saturating counters.
fn sat_add(x: usize, y: usize) -> (r: usize)
    ensures
        r == cap_usize(x + y),
{
    if x <= usize::MAX - y {
        x + y
    } else {
        usize::MAX
    }
}

/// The cyclomatic contribution of one expression, saturating at
/// `usize::MAX`.
pub fn expr_complexity(expr: &Expr) -> (r: usize)
    ensures
        r == cap_usize(cx_expr(*expr) as int),
    decreases expr_size(*expr), 0int,
{
    match expr {
        Expr::FieldAccess { base, .. } => expr_complexity(base),
        Expr::MethodCall { receiver, args } => {
            let c1 = expr_complexity(receiver);
            let c2 = expr_list_complexity(args);
            sat_add(c1, c2)
        },
        Expr::Call { func, args } => {
            let c1 = expr_complexity(func);
            let c2 = expr_list_complexity(args);
            sat_add(c1, c2)
        },
        Expr::Binary { left, right } => {
            let c1 = expr_complexity(left);
            let c2 = expr_complexity(right);
            sat_add(c1, c2)
        },
        Expr::Unary { operand } => expr_complexity(operand),
        Expr::Reference { operand } => expr_complexity(operand),
        Expr::Block { block } => block_complexity(block),
        Expr::If { cond, then_branch, else_branch } => {
            let c1 = expr_complexity(cond);
            let c2 = block_complexity(then_branch);
            let c3 = match else_branch {
                Some(e2) => expr_complexity(e2),
                None => 0,
            };
            sat_add(1, sat_add(c1, sat_add(c2, c3)))
        },
        Expr::While { cond, body } => {
            let c1 = expr_complexity(cond);
            let c2 = block_complexity(body);
            sat_add(1, sat_add(c1, c2))
        },
        Expr::ForLoop { iter_expr, body } => {
            let c1 = expr_complexity(iter_expr);
            let c2 = block_complexity(body);
            sat_add(1, sat_add(c1, c2))
        },
        Expr::Loop { body } => sat_add(1, block_complexity(body)),
        Expr::Match { scrutinee, arms } => {
            let c1 = expr_complexity(scrutinee);
            let c2 = arm_list_complexity(arms);
            sat_add(1, sat_add(c1, c2))
        },
        Expr::Struct { field_inits, .. } => expr_list_complexity(field_inits),
        Expr::Path { .. } => 0,
        Expr::Other => 0,
    }
}

fn expr_list_complexity(es: &Vec<Expr>) -> (r: usize)
    ensures
        r == cap_usize(cx_expr_list(es@) as int),
    decreases expr_list_size(es@), 1int,
{
    let mut total: usize = 0;
    let mut i: usize = 0;
    let n = es.len();
    while i < n
        invariant
            n == es@.len(),
            i <= n,
            total == cap_usize(cx_expr_list(es@.take(i as int)) as int),
        decreases n - i,
    {
        proof {
            lemma_expr_list_size_element(es@, i as int);
            assert(es@.take(i + 1).drop_last() =~= es@.take(i as int));
            assert(es@.take(i + 1).last() == es@[i as int]);
        }
        let c = expr_complexity(&es[i]);
        total = sat_add(total, c);
        i += 1;
    }
    proof {
        assert(es@.take(es@.len() as int) =~= es@);
    }
    total
}

fn arm_list_complexity(arms: &Vec<Arm>) -> (r: usize)
    ensures
        r == cap_usize(cx_arm_list(arms@) as int),
    decreases arm_list_size(arms@), 1int,
{
    let mut total: usize = 0;
    let mut i: usize = 0;
    let n = arms.len();
    while i < n
        invariant
            n == arms@.len(),
            i <= n,
            total == cap_usize(cx_arm_list(arms@.take(i as int)) as int),
        decreases n - i,
    {
        proof {
            lemma_arm_list_size_element(arms@, i as int);
            assert(arms@.take(i + 1).drop_last() =~= arms@.take(i as int));
            assert(arms@.take(i + 1).last() == arms@[i as int]);
        }
        let g = match &arms[i].guard {
            Some(ge) => expr_complexity(ge),
            None => 0,
        };
        let b = expr_complexity(&arms[i].body);
        let gb = sat_add(g, b);
        proof {
            assert(g == cap_usize(
                (match arms@[i as int].guard {
                    Some(ge) => cx_expr(ge),
                    None => 0nat,
                }) as int,
            ));
            assert(gb == cap_usize(cx_arm(arms@[i as int]) as int));
        }
        total = sat_add(total, gb);
        i += 1;
    }
    proof {
        assert(arms@.take(arms@.len() as int) =~= arms@);
    }
    total
}

/// The cyclomatic contribution of one statement, saturating at
/// `usize::MAX`.
pub fn stmt_complexity(stmt: &Stmt) -> (r: usize)
    ensures
        r == cap_usize(cx_stmt(*stmt) as int),
    decreases stmt_size(*stmt), 2int,
{
    match stmt {
        Stmt::Local { init } => match init {
            Some(e) => expr_complexity(e),
            None => 0,
        },
        Stmt::Expr { expr } => expr_complexity(expr),
        Stmt::Other => 0,
    }
}

fn block_complexity(b: &Block) -> (r: usize)
    ensures
        r == cap_usize(cx_block(*b) as int),
    decreases block_size(*b), 0int,
{
    let mut total: usize = 0;
    let mut i: usize = 0;
    let n = b.stmts.len();
    while i < n
        invariant
            n == b.stmts@.len(),
            i <= n,
            total == cap_usize(cx_stmt_list(b.stmts@.take(i as int)) as int),
        decreases n - i,
    {
        proof {
            lemma_stmt_list_size_element(b.stmts@, i as int);
            assert(b.stmts@.take(i + 1).drop_last() =~= b.stmts@.take(i as int));
            assert(b.stmts@.take(i + 1).last() == b.stmts@[i as int]);
        }
        let c = stmt_complexity(&b.stmts[i]);
        total = sat_add(total, c);
        i += 1;
    }
    proof {
        assert(b.stmts@.take(b.stmts@.len() as int) =~= b.stmts@);
    }
    total
}

/// The cyclomatic complexity of a function body: the base path plus one for
/// each branching construct found anywhere in the body, saturating at
/// `usize::MAX`.
pub fn calculate_cyclomatic_complexity(block: &Block) -> (r: usize)
    ensures
        r == cap_usize(1 + cx_block(*block) as int),
        r >= 1,
{
    let c = block_complexity(block);
    sat_add(1, c)
}

/// Whether the string names one of the struct's declared fields.
fn is_field_name(struct_info: &StructInfo, n: &String) -> (b: bool)
    ensures
        b == field_names_of(struct_info@).contains(n@),
{
    let ghost fnames = field_names_of(struct_info@);
    let nf = struct_info.fields.len();
    let mut i: usize = 0;
    while i < nf
        invariant
            fnames == field_names_of(struct_info@),
            nf == fnames.len(),
            i <= nf,
            forall|j: int| 0 <= j < i ==> fnames[j] != n@,
        decreases nf - i,
    {
        if string_eq(&struct_info.fields[i].name, n) {
            proof {
                assert(fnames[i as int] == n@);
            }
            return true;
        }
        i += 1;
    }
    false
}

/// Whether the path text mentions any declared field name as a substring.
fn path_mentions_field(struct_info: &StructInfo, path: &String) -> (b: bool)
    ensures
        b == path_mentions_field_spec(path@, field_names_of(struct_info@)),
{
    let ghost fnames = field_names_of(struct_info@);
    let nf = struct_info.fields.len();
    let mut i: usize = 0;
    while i < nf
        invariant
            fnames == field_names_of(struct_info@),
            nf == fnames.len(),
            i <= nf,
            forall|j: int| 0 <= j < i ==> !contains_seq(path@, fnames[j]),
        decreases nf - i,
    {
        if str_contains(path.as_str(), struct_info.fields[i].name.as_str()) {
            proof {
                assert(contains_seq(path@, fnames[i as int]));
            }
            return true;
        }
        i += 1;
    }
    false
}

/// Visits one expression, recording field accesses through the receiver and
/// external type references, as the traversal specification prescribes.
pub fn analyze_expr_expr(
    expr: &Expr,
    struct_info: &StructInfo,
    fields_accessed: &mut Vec<String>,
    external_types: &mut Vec<String>,
)
    ensures
        final(fields_accessed).deep_view() == walk_expr(
            *expr,
            field_names_of(struct_info@),
            (old(fields_accessed).deep_view(), old(external_types).deep_view()),
        ).0,
        final(external_types).deep_view() == walk_expr(
            *expr,
            field_names_of(struct_info@),
            (old(fields_accessed).deep_view(), old(external_types).deep_view()),
        ).1,
    decreases expr_size(*expr), 0int,
{
    let ghost fnames = field_names_of(struct_info@);
    match expr {
        Expr::FieldAccess { base, member } => {
            match member {
                Some(n) => {
                    let selfish = match &**base {
                        Expr::Path { path } => str_eq_str(path.as_str(), "self"),
                        _ => false,
                    };
                    proof {
                        reveal_strlit("self");
                        assert("self"@ =~= self_chars());
                        assert(selfish == is_self_path(**base));
                    }
                    if selfish && is_field_name(struct_info, n) {
                        insert_unique(fields_accessed, n);
                    }
                },
                None => {},
            }
        },
        Expr::MethodCall { receiver, args } => {
            analyze_expr_expr(receiver, struct_info, fields_accessed, external_types);
            analyze_expr_list(args, struct_info, fields_accessed, external_types);
        },
        Expr::Call { func, args } => {
            analyze_expr_expr(func, struct_info, fields_accessed, external_types);
            analyze_expr_list(args, struct_info, fields_accessed, external_types);
        },
        Expr::Binary { left, right } => {
            analyze_expr_expr(left, struct_info, fields_accessed, external_types);
            analyze_expr_expr(right, struct_info, fields_accessed, external_types);
        },
        Expr::Unary { operand } => {
            analyze_expr_expr(operand, struct_info, fields_accessed, external_types);
        },
        Expr::Reference { operand } => {
            analyze_expr_expr(operand, struct_info, fields_accessed, external_types);
        },
        Expr::Block { block } => {
            analyze_expr(block, struct_info, fields_accessed, external_types);
        },
        Expr::If { cond, then_branch, else_branch } => {
            analyze_expr_expr(cond, struct_info, fields_accessed, external_types);
            analyze_expr(then_branch, struct_info, fields_accessed, external_types);
            match else_branch {
                Some(e2) => {
                    analyze_expr_expr(e2, struct_info, fields_accessed, external_types);
                },
                None => {},
            }
        },
        Expr::While { cond, body } => {
            analyze_expr_expr(cond, struct_info, fields_accessed, external_types);
            analyze_expr(body, struct_info, fields_accessed, external_types);
        },
        Expr::ForLoop { iter_expr, body } => {
            analyze_expr_expr(iter_expr, struct_info, fields_accessed, external_types);
            analyze_expr(body, struct_info, fields_accessed, external_types);
        },
        Expr::Loop { body } => {
            analyze_expr(body, struct_info, fields_accessed, external_types);
        },
        Expr::Match { scrutinee, arms } => {
            analyze_expr_expr(scrutinee, struct_info, fields_accessed, external_types);
            analyze_arms(arms, struct_info, fields_accessed, external_types);
        },
        Expr::Struct { path, field_inits } => {
            if !path_mentions_field(struct_info, path) {
                insert_unique(external_types, path);
            }
            analyze_expr_list(field_inits, struct_info, fields_accessed, external_types);
        },
        Expr::Path { path } => {
            let qualified = str_contains(path.as_str(), "::") && !str_has_prefix(
                path.as_str(),
                "self",
            ) && !str_has_prefix(path.as_str(), "crate");
            proof {
                reveal_strlit("::");
                reveal_strlit("self");
                reveal_strlit("crate");
                assert("::"@ =~= colon2_chars());
                assert("self"@ =~= self_chars());
                assert("crate"@ =~= crate_chars());
                assert(qualified == is_external_path(path@));
            }
            if qualified {
                insert_unique(external_types, path);
            }
        },
        Expr::Other => {},
    }
}

fn analyze_expr_list(
    es: &Vec<Expr>,
    struct_info: &StructInfo,
    fields_accessed: &mut Vec<String>,
    external_types: &mut Vec<String>,
)
    ensures
        final(fields_accessed).deep_view() == walk_expr_list(
            es@,
            field_names_of(struct_info@),
            (old(fields_accessed).deep_view(), old(external_types).deep_view()),
        ).0,
        final(external_types).deep_view() == walk_expr_list(
            es@,
            field_names_of(struct_info@),
            (old(fields_accessed).deep_view(), old(external_types).deep_view()),
        ).1,
    decreases expr_list_size(es@), 1int,
{
    let ghost fnames = field_names_of(struct_info@);
    let ghost acc0 = (fields_accessed.deep_view(), external_types.deep_view());
    let n = es.len();
    let mut i: usize = 0;
    while i < n
        invariant
            fnames == field_names_of(struct_info@),
            acc0 == (old(fields_accessed).deep_view(), old(external_types).deep_view()),
            n == es@.len(),
            i <= n,
            (fields_accessed.deep_view(), external_types.deep_view()) == walk_expr_list(
                es@.take(i as int),
                fnames,
                acc0,
            ),
        decreases n - i,
    {
        proof {
            lemma_expr_list_size_element(es@, i as int);
            assert(es@.take(i + 1).drop_last() =~= es@.take(i as int));
            assert(es@.take(i + 1).last() == es@[i as int]);
        }
        analyze_expr_expr(&es[i], struct_info, fields_accessed, external_types);
        i += 1;
    }
    proof {
        assert(es@.take(es@.len() as int) =~= es@);
    }
}

fn analyze_arms(
    arms: &Vec<Arm>,
    struct_info: &StructInfo,
    fields_accessed: &mut Vec<String>,
    external_types: &mut Vec<String>,
)
    ensures
        final(fields_accessed).deep_view() == walk_arm_list(
            arms@,
            field_names_of(struct_info@),
            (old(fields_accessed).deep_view(), old(external_types).deep_view()),
        ).0,
        final(external_types).deep_view() == walk_arm_list(
            arms@,
            field_names_of(struct_info@),
            (old(fields_accessed).deep_view(), old(external_types).deep_view()),
        ).1,
    decreases arm_list_size(arms@), 1int,
{
    let ghost fnames = field_names_of(struct_info@);
    let ghost acc0 = (fields_accessed.deep_view(), external_types.deep_view());
    let n = arms.len();
    let mut i: usize = 0;
    while i < n
        invariant
            fnames == field_names_of(struct_info@),
            acc0 == (old(fields_accessed).deep_view(), old(external_types).deep_view()),
            n == arms@.len(),
            i <= n,
            (fields_accessed.deep_view(), external_types.deep_view()) == walk_arm_list(
                arms@.take(i as int),
                fnames,
                acc0,
            ),
        decreases n - i,
    {
        proof {
            lemma_arm_list_size_element(arms@, i as int);
            assert(arms@.take(i + 1).drop_last() =~= arms@.take(i as int));
            assert(arms@.take(i + 1).last() == arms@[i as int]);
        }
        let ghost acc_i = walk_arm_list(arms@.take(i as int), fnames, acc0);
        let ghost acc_g = match arms@[i as int].guard {
            Some(gs) => walk_expr(gs, fnames, acc_i),
            None => acc_i,
        };
        match &arms[i].guard {
            Some(g) => {
                analyze_expr_expr(g, struct_info, fields_accessed, external_types);
            },
            None => {},
        }
        proof {
            assert(fields_accessed.deep_view() == acc_g.0);
            assert(external_types.deep_view() == acc_g.1);
        }
        analyze_expr_expr(&arms[i].body, struct_info, fields_accessed, external_types);
        proof {
            let w = walk_expr(arms@[i as int].body, fnames, acc_g);
            assert(fields_accessed.deep_view() == w.0);
            assert(external_types.deep_view() == w.1);
            assert(walk_arm(arms@[i as int], fnames, acc_i) == w);
        }
        i += 1;
    }
    proof {
        assert(arms@.take(arms@.len() as int) =~= arms@);
    }
}

/// Visits one statement.
pub fn analyze_stmt(
    stmt: &Stmt,
    struct_info: &StructInfo,
    fields_accessed: &mut Vec<String>,
    external_types: &mut Vec<String>,
)
    ensures
        final(fields_accessed).deep_view() == walk_stmt(
            *stmt,
            field_names_of(struct_info@),
            (old(fields_accessed).deep_view(), old(external_types).deep_view()),
        ).0,
        final(external_types).deep_view() == walk_stmt(
            *stmt,
            field_names_of(struct_info@),
            (old(fields_accessed).deep_view(), old(external_types).deep_view()),
        ).1,
    decreases stmt_size(*stmt), 2int,
{
    match stmt {
        Stmt::Local { init } => match init {
            Some(e) => {
                analyze_expr_expr(e, struct_info, fields_accessed, external_types);
            },
            None => {},
        },
        Stmt::Expr { expr } => {
            analyze_expr_expr(expr, struct_info, fields_accessed, external_types);
        },
        Stmt::Other => {},
    }
}

/// Visits every statement of a block, in order.
pub fn analyze_expr(
    block: &Block,
    struct_info: &StructInfo,
    fields_accessed: &mut Vec<String>,
    external_types: &mut Vec<String>,
)
    ensures
        final(fields_accessed).deep_view() == walk_block(
            *block,
            field_names_of(struct_info@),
            (old(fields_accessed).deep_view(), old(external_types).deep_view()),
        ).0,
        final(external_types).deep_view() == walk_block(
            *block,
            field_names_of(struct_info@),
            (old(fields_accessed).deep_view(), old(external_types).deep_view()),
        ).1,
    decreases block_size(*block), 0int,
{
    let ghost fnames = field_names_of(struct_info@);
    let ghost acc0 = (fields_accessed.deep_view(), external_types.deep_view());
    let n = block.stmts.len();
    let mut i: usize = 0;
    while i < n
        invariant
            fnames == field_names_of(struct_info@),
            acc0 == (old(fields_accessed).deep_view(), old(external_types).deep_view()),
            n == block.stmts@.len(),
            i <= n,
            (fields_accessed.deep_view(), external_types.deep_view()) == walk_stmt_list(
                block.stmts@.take(i as int),
                fnames,
                acc0,
            ),
        decreases n - i,
    {
        proof {
            lemma_stmt_list_size_element(block.stmts@, i as int);
            assert(block.stmts@.take(i + 1).drop_last() =~= block.stmts@.take(i as int));
            assert(block.stmts@.take(i + 1).last() == block.stmts@[i as int]);
        }
        analyze_stmt(&block.stmts[i], struct_info, fields_accessed, external_types);
        i += 1;
    }
    proof {
        assert(block.stmts@.take(block.stmts@.len() as int) =~= block.stmts@);
    }
}

/// The record the analyzer produces for one associated function: the fields
/// it reads through the receiver, the external type paths it references,
/// and its cyclomatic complexity.
pub open spec fn method_record_spec(m: ImplFn, s: StructModel) -> MethodModel {
    let w = walk_block(m.block, field_names_of(s), (Seq::empty(), Seq::empty()));
    MethodModel {
        name: m.name@,
        fields_accessed: w.0,
        external_type_refs: w.1,
        cyclomatic_complexity: cap_usize(1 + cx_block(m.block) as int) as nat,
    }
}

/// Analyzes one associated function against its owning struct. The
/// recorded field accesses are always a subset of the struct's declared
/// field names, and the recorded complexity is always at least one.
pub fn analyze_method(method: &ImplFn, struct_info: &StructInfo) -> (r: MethodInfo)
    ensures
        r@ == method_record_spec(*method, struct_info@),
        r@.cyclomatic_complexity >= 1,
        names_within(r@.fields_accessed, Seq::empty(), field_names_of(struct_info@)),
{
    let mut fields_accessed: Vec<String> = Vec::new();
    let mut external_types: Vec<String> = Vec::new();
    proof {
        assert(fields_accessed.deep_view() =~= Seq::<Seq<char>>::empty());
        assert(external_types.deep_view() =~= Seq::<Seq<char>>::empty());
    }
    analyze_expr(&method.block, struct_info, &mut fields_accessed, &mut external_types);
    let cyclomatic_complexity = calculate_cyclomatic_complexity(&method.block);
    let r = MethodInfo {
        name: method.name.clone(),
        fields_accessed,
        external_type_refs: external_types,
        cyclomatic_complexity,
    };
    proof {
        let w = walk_block(
            method.block,
            field_names_of(struct_info@),
            (Seq::<Seq<char>>::empty(), Seq::<Seq<char>>::empty()),
        );
        assert(r@.fields_accessed =~= w.0);
        assert(r@.external_type_refs =~= w.1);
        lemma_walk_block_fields_subset(
            method.block,
            field_names_of(struct_info@),
            (Seq::<Seq<char>>::empty(), Seq::<Seq<char>>::empty()),
        );
    }
    r
}

/// The field records of a declared struct: the named fields, in declaration
/// order, each with the raw text of its declared type.
pub open spec fn field_records_spec(fs: Seq<FieldDecl>) -> Seq<FieldModel>
    decreases fs.len(),
{
    if fs.len() == 0 {
        Seq::empty()
    } else {
        let prev = field_records_spec(fs.drop_last());
        match fs.last().name {
            Some(n) => prev.push(FieldModel { name: n@, ty: fs.last().ty@ }),
            None => prev,
        }
    }
}

/// The record the first pass creates for one struct declaration: its fields
/// and empty method and trait collections.
pub open spec fn struct_record_spec(node: ItemStruct) -> StructModel {
    StructModel {
        name: node.name@,
        fields: field_records_spec(node.fields@),
        methods: Seq::empty(),
        traits: Seq::empty(),
    }
}

/// The index of the first struct of the given name, or the collection's
/// length when none carries it.
pub open spec fn find_struct_idx(ss: Seq<StructModel>, name: Seq<char>) -> int
    decreases ss.len(),
{
    if ss.len() == 0 {
        0
    } else if ss[0].name == name {
        0
    } else {
        1 + find_struct_idx(ss.subrange(1, ss.len() as int), name)
    }
}

proof fn lemma_find_struct_idx_is(ss: Seq<StructModel>, name: Seq<char>, i: int)
    requires
        0 <= i < ss.len(),
        ss[i].name == name,
        forall|j: int| 0 <= j < i ==> ss[j].name != name,
    ensures
        find_struct_idx(ss, name) == i,
    decreases i,
{
    if i > 0 {
        assert(ss[0].name != name);
        let t1 = ss.subrange(1, ss.len() as int);
        assert(t1[i - 1].name == name);
        assert(forall|j: int| 0 <= j < i - 1 ==> t1[j] == ss[j + 1] && ss[j + 1].name != name);
        lemma_find_struct_idx_is(t1, name, i - 1);
    }
}

proof fn lemma_find_struct_idx_absent(ss: Seq<StructModel>, name: Seq<char>)
    requires
        forall|j: int| 0 <= j < ss.len() ==> ss[j].name != name,
    ensures
        find_struct_idx(ss, name) == ss.len(),
    decreases ss.len(),
{
    if ss.len() > 0 {
        let t1 = ss.subrange(1, ss.len() as int);
        assert(forall|j: int| 0 <= j < t1.len() ==> t1[j] == ss[j + 1] && ss[j + 1].name != name);
        lemma_find_struct_idx_absent(t1, name);
    }
}

/// The record after the second pass attaches one implementation block's
/// functions: each is analyzed against the record and appended in
/// declaration order.
pub open spec fn add_impl_fns_spec(rec: StructModel, fns: Seq<ImplFn>) -> StructModel {
    StructModel {
        methods: rec.methods + Seq::new(fns.len(), |k: int| method_record_spec(fns[k], rec)),
        ..rec
    }
}

/// What one implementation block contributes: nothing when its self type is
/// not a plain path or matches no known record; the trait name (recorded,
/// with its functions skipped) when it implements a trait; its analyzed
/// functions otherwise.
pub open spec fn apply_impl_spec(ss: Seq<StructModel>, node: ItemImpl) -> Seq<StructModel> {
    match node.self_ty_name {
        None => ss,
        Some(n) => {
            let i = find_struct_idx(ss, n@);
            if i == ss.len() {
                ss
            } else {
                match node.trait_name {
                    Some(t) => ss.update(
                        i,
                        StructModel { traits: push_unique(ss[i].traits, t@), ..ss[i] },
                    ),
                    None => ss.update(i, add_impl_fns_spec(ss[i], node.fns@)),
                }
            }
        },
    }
}

/// The records after the first pass: one per struct declaration, in
/// declaration order.
pub open spec fn pass1_fold(ss: Seq<StructModel>, items: Seq<Item>) -> Seq<StructModel>
    decreases items.len(),
{
    if items.len() == 0 {
        ss
    } else {
        let prev = pass1_fold(ss, items.drop_last());
        match items.last() {
            Item::Struct(node) => prev.push(struct_record_spec(node)),
            _ => prev,
        }
    }
}

/// The records after the second pass attaches every implementation block.
pub open spec fn pass2_fold(ss: Seq<StructModel>, items: Seq<Item>) -> Seq<StructModel>
    decreases items.len(),
{
    if items.len() == 0 {
        ss
    } else {
        let prev = pass2_fold(ss, items.drop_last());
        match items.last() {
            Item::Impl(node) => apply_impl_spec(prev, node),
            _ => prev,
        }
    }
}

/// Both extraction passes over one source unit, from a given starting
/// collection.
pub open spec fn file_passes_spec(ss: Seq<StructModel>, f: File) -> Seq<StructModel> {
    pass2_fold(pass1_fold(ss, f.items@), f.items@)
}

/// The full extraction of one source unit, from an empty collection.
pub open spec fn extract_file_spec(f: File) -> Seq<StructModel> {
    file_passes_spec(Seq::empty(), f)
}

/// Walks a parsed source unit in two passes: the first collects every
/// struct declaration, the second attaches trait names and analyzed methods
/// from the implementation blocks.
pub struct StructVisitor {
    pub structs: Vec<StructInfo>,
}

impl StructVisitor {
    /// A visitor with no structs collected yet.
    pub fn new() -> (v: StructVisitor)
        ensures
            v.structs@.len() == 0,
            models_of(v.structs@) == Seq::<StructModel>::empty(),
    {
        let v = StructVisitor { structs: Vec::new() };
        proof {
            assert(models_of(v.structs@) =~= Seq::<StructModel>::empty());
        }
        v
    }

    /// Records one struct declaration: its name and its named fields, with
    /// empty method and trait collections.
    pub fn visit_item_struct(&mut self, node: &ItemStruct)
        ensures
            models_of(final(self).structs@) == models_of(old(self).structs@).push(
                struct_record_spec(*node),
            ),
    {
        let mut fields: Vec<FieldInfo> = Vec::new();
        let nf = node.fields.len();
        let mut i: usize = 0;
        while i < nf
            invariant
                nf == node.fields@.len(),
                i <= nf,
                fields@.map_values(|f: FieldInfo| f@) == field_records_spec(
                    node.fields@.take(i as int),
                ),
            decreases nf - i,
        {
            proof {
                assert(node.fields@.take(i + 1).drop_last() =~= node.fields@.take(i as int));
                assert(node.fields@.take(i + 1).last() == node.fields@[i as int]);
            }
            match &node.fields[i].name {
                Some(nm) => {
                    fields.push(
                        FieldInfo { name: nm.clone(), ty: node.fields[i].ty.clone() },
                    );
                    proof {
                        assert(fields@.map_values(|f: FieldInfo| f@) =~= field_records_spec(
                            node.fields@.take(i + 1),
                        ));
                    }
                },
                None => {},
            }
            i += 1;
        }
        proof {
            assert(node.fields@.take(node.fields@.len() as int) =~= node.fields@);
        }
        let info = StructInfo {
            name: node.name.clone(),
            fields,
            methods: Vec::new(),
            traits: Vec::new(),
        };
        proof {
            assert(info@.methods =~= Seq::<MethodModel>::empty());
            assert(info@.traits =~= Seq::<Seq<char>>::empty());
            assert(info@ == struct_record_spec(*node));
        }
        self.structs.push(info);
        proof {
            assert(models_of(self.structs@) =~= models_of(old(self).structs@).push(
                struct_record_spec(*node),
            ));
        }
    }

    /// Attaches one implementation block to the struct its self type names,
    /// when that struct is known: the trait name when it is a trait
    /// implementation, its analyzed functions otherwise.
    pub fn visit_item_impl(&mut self, node: &ItemImpl)
        ensures
            models_of(final(self).structs@) == apply_impl_spec(
                models_of(old(self).structs@),
                *node,
            ),
    {
        let ghost ss0 = models_of(self.structs@);
        let name = match &node.self_ty_name {
            Some(n) => n,
            None => {
                return ;
            },
        };
        let n = self.structs.len();
        let mut i: usize = 0;
        while i < n
            invariant
                ss0 == models_of(self.structs@),
                self.structs@ == old(self).structs@,
                n == ss0.len(),
                i <= n,
                name == node.self_ty_name->0,
                node.self_ty_name is Some,
                forall|j: int| 0 <= j < i ==> ss0[j].name != name@,
            decreases n - i,
        {
            if string_eq(&self.structs[i].name, name) {
                proof {
                    assert(ss0[i as int].name == name@);
                    lemma_find_struct_idx_is(ss0, name@, i as int);
                }
                let mut rec = self.structs.remove(i);
                let ghost rec0 = ss0[i as int];
                match &node.trait_name {
                    Some(t) => {
                        proof {
                            assert(rec.traits.deep_view() =~= rec0.traits);
                        }
                        insert_unique(&mut rec.traits, t);
                        proof {
                            assert(rec@.traits =~= rec.traits.deep_view());
                            assert(rec@.traits == push_unique(rec0.traits, t@));
                            assert(rec@ == StructModel {
                                traits: push_unique(rec0.traits, t@),
                                ..rec0
                            });
                        }
                    },
                    None => {
                        let nf = node.fns.len();
                        let mut k: usize = 0;
                        while k < nf
                            invariant
                                nf == node.fns@.len(),
                                k <= nf,
                                rec@.name == rec0.name,
                                rec@.fields == rec0.fields,
                                rec@.traits == rec0.traits,
                                rec@.methods =~= rec0.methods + Seq::new(
                                    k as nat,
                                    |j: int| method_record_spec(node.fns@[j], rec0),
                                ),
                            decreases nf - k,
                        {
                            let ghost f = |j: int| method_record_spec(node.fns@[j], rec0);
                            let m = analyze_method(&node.fns[k], &rec);
                            proof {
                                assert(field_names_of(rec@) == field_names_of(rec0));
                                assert(method_record_spec(node.fns@[k as int], rec@)
                                    == method_record_spec(node.fns@[k as int], rec0));
                                assert(m@ == f(k as int));
                            }
                            rec.methods.push(m);
                            proof {
                                assert(Seq::new((k + 1) as nat, f) =~= Seq::new(
                                    k as nat,
                                    f,
                                ).push(f(k as int)));
                                assert(rec@.methods =~= (rec0.methods + Seq::new(
                                    k as nat,
                                    f,
                                )).push(f(k as int)));
                                assert((rec0.methods + Seq::new(k as nat, f)).push(f(k as int))
                                    =~= rec0.methods + Seq::new((k + 1) as nat, f));
                            }
                            k += 1;
                        }
                        proof {
                            assert(rec@ == add_impl_fns_spec(rec0, node.fns@));
                        }
                    },
                }
                self.structs.insert(i, rec);
                proof {
                    assert(self.structs@ =~= old(self).structs@.update(i as int, rec));
                    assert(models_of(self.structs@) =~= ss0.update(i as int, rec@));
                }
                return ;
            }
            i += 1;
        }
        proof {
            lemma_find_struct_idx_absent(ss0, name@);
        }
    }

    /// Walks one source unit: the first pass records every struct
    /// declaration, the second attaches the implementation blocks.
    pub fn visit_file(&mut self, file: &File)
        ensures
            models_of(final(self).structs@) == file_passes_spec(
                models_of(old(self).structs@),
                *file,
            ),
    {
        let ghost ss0 = models_of(self.structs@);
        let n = file.items.len();
        let mut i: usize = 0;
        while i < n
            invariant
                ss0 == models_of(old(self).structs@),
                n == file.items@.len(),
                i <= n,
                models_of(self.structs@) == pass1_fold(ss0, file.items@.take(i as int)),
            decreases n - i,
        {
            proof {
                assert(file.items@.take(i + 1).drop_last() =~= file.items@.take(i as int));
                assert(file.items@.take(i + 1).last() == file.items@[i as int]);
            }
            match &file.items[i] {
                Item::Struct(node) => {
                    self.visit_item_struct(node);
                },
                _ => {},
            }
            i += 1;
        }
        proof {
            assert(file.items@.take(file.items@.len() as int) =~= file.items@);
        }
        let ghost ss1 = models_of(self.structs@);
        let mut i2: usize = 0;
        while i2 < n
            invariant
                ss1 == pass1_fold(ss0, file.items@),
                n == file.items@.len(),
                i2 <= n,
                models_of(self.structs@) == pass2_fold(ss1, file.items@.take(i2 as int)),
            decreases n - i2,
        {
            proof {
                assert(file.items@.take(i2 + 1).drop_last() =~= file.items@.take(i2 as int));
                assert(file.items@.take(i2 + 1).last() == file.items@[i2 as int]);
            }
            match &file.items[i2] {
                Item::Impl(node) => {
                    self.visit_item_impl(node);
                },
                _ => {},
            }
            i2 += 1;
        }
        proof {
            assert(file.items@.take(file.items@.len() as int) =~= file.items@);
        }
    }
}

/// The names a use declaration brings in: the terminal name of each path,
/// the new name of each rename, nothing for a glob, and every entry of a
/// group, in order and without duplicates.
pub open spec fn use_names_spec(t: UseTree, acc: Seq<Seq<char>>) -> Seq<Seq<char>>
    decreases t,
{
    match t {
        UseTree::Path { tree } => use_names_spec(*tree, acc),
        UseTree::Name { ident } => push_unique(acc, ident@),
        UseTree::Rename { rename } => push_unique(acc, rename@),
        UseTree::Glob => acc,
        UseTree::Group { items } => use_group_spec(items@, acc),
    }
}

pub open spec fn use_group_spec(ts: Seq<UseTree>, acc: Seq<Seq<char>>) -> Seq<Seq<char>>
    decreases ts,
{
    if ts.len() == 0 {
        acc
    } else {
        use_names_spec(ts.last(), use_group_spec(ts.drop_last(), acc))
    }
}

/// Collects the names a use tree brings into scope.
pub fn extract_types_from_use(tree: &UseTree, types: &mut Vec<String>)
    ensures
        final(types).deep_view() == use_names_spec(*tree, old(types).deep_view()),
    decreases use_tree_size(*tree),
{
    match tree {
        UseTree::Path { tree: inner } => {
            extract_types_from_use(inner, types);
        },
        UseTree::Name { ident } => {
            insert_unique(types, ident);
        },
        UseTree::Rename { rename } => {
            insert_unique(types, rename);
        },
        UseTree::Glob => {},
        UseTree::Group { items } => {
            let ghost acc0 = types.deep_view();
            let n = items.len();
            let mut i: usize = 0;
            while i < n
                invariant
                    acc0 == old(types).deep_view(),
                    n == items@.len(),
                    i <= n,
                    use_tree_size(*tree) == 1 + use_tree_list_size(items@),
                    types.deep_view() == use_group_spec(items@.take(i as int), acc0),
                decreases n - i,
            {
                proof {
                    lemma_use_tree_list_size_element(items@, i as int);
                    assert(items@.take(i + 1).drop_last() =~= items@.take(i as int));
                    assert(items@.take(i + 1).last() == items@[i as int]);
                }
                extract_types_from_use(&items[i], types);
                i += 1;
            }
            proof {
                assert(items@.take(items@.len() as int) =~= items@);
            }
        },
    }
}

/// The names brought in by every use declaration of a source unit.
pub open spec fn file_use_fold(acc: Seq<Seq<char>>, items: Seq<Item>) -> Seq<Seq<char>>
    decreases items.len(),
{
    if items.len() == 0 {
        acc
    } else {
        let prev = file_use_fold(acc, items.drop_last());
        match items.last() {
            Item::Use(u) => use_names_spec(u.tree, prev),
            _ => prev,
        }
    }
}

pub open spec fn file_use_names_spec(f: File) -> Seq<Seq<char>> {
    file_use_fold(Seq::empty(), f.items@)
}

/// Collects, from a parsed source unit, the names its use declarations
/// bring into scope, in first-encounter order without duplicates.
pub fn extract_external_types(file: &File) -> (r: Vec<String>)
    ensures
        r.deep_view() == file_use_names_spec(*file),
{
    let mut types: Vec<String> = Vec::new();
    proof {
        assert(types.deep_view() =~= Seq::<Seq<char>>::empty());
    }
    let n = file.items.len();
    let mut i: usize = 0;
    while i < n
        invariant
            n == file.items@.len(),
            i <= n,
            types.deep_view() == file_use_fold(Seq::empty(), file.items@.take(i as int)),
        decreases n - i,
    {
        proof {
            assert(file.items@.take(i + 1).drop_last() =~= file.items@.take(i as int));
            assert(file.items@.take(i + 1).last() == file.items@[i as int]);
        }
        match &file.items[i] {
            Item::Use(u) => {
                extract_types_from_use(&u.tree, &mut types);
            },
            _ => {},
        }
        i += 1;
    }
    proof {
        assert(file.items@.take(file.items@.len() as int) =~= file.items@);
    }
    types
}

} // verus!
