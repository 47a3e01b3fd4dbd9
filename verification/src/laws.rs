use vstd::prelude::*;
use crate::ast::{Block, File};
use crate::metrics::cbo::{
    add_field_names, add_fields, add_method_refs, add_methods, add_traits, cbo_spec,
    extract_tys_spec, known_name,
};
use crate::text::push_unique;
use crate::metrics::lcom::{lcom_den_spec, lcom_num_spec, ma_count, method_reads, sum_ma};
use crate::metrics::{cap_usize, results_spec};
use crate::models::{FieldModel, MethodModel, ResultModel, StructModel};
use crate::parser::{cx_block, cx_stmt_list, extract_file_spec};

verus! {

/// For every struct record the cohesion score is a well-formed ratio in
/// [0, 1], and it is exactly zero whenever the struct has at most one
/// method or no field at all.
pub proof fn lemma_lcom_in_range(s: StructModel)
    ensures
        1 <= lcom_den_spec(s),
        0 <= lcom_num_spec(s) <= lcom_den_spec(s),
        s.methods.len() <= 1 || s.fields.len() == 0 ==> lcom_num_spec(s) == 0,
{
    if s.methods.len() > 1 && s.fields.len() > 0 {
        assert(s.fields.len() * (s.methods.len() - 1) >= 1) by (nonlinear_arith)
            requires
                s.fields.len() >= 1,
                s.methods.len() >= 2,
        ;
    }
}

/// A struct whose two methods each read its single field is fully cohesive:
/// the cohesion score is exactly zero, in particular below one tenth.
pub proof fn lemma_lcom_shared_field_cohesive(s: StructModel)
    requires
        s.fields.len() == 1,
        s.methods.len() == 2,
        method_reads(s.methods[0], s.fields[0].name),
        method_reads(s.methods[1], s.fields[0].name),
    ensures
        lcom_num_spec(s) == 0,
        10 * lcom_num_spec(s) < lcom_den_spec(s),
{
    let ms = s.methods;
    let fs = s.fields;
    let f0 = fs[0].name;
    assert(ms.drop_last().drop_last() =~= Seq::<MethodModel>::empty());
    assert(ms.drop_last().last() == ms[0]);
    assert(ms.last() == ms[1]);
    assert(ma_count(Seq::<MethodModel>::empty(), f0) == 0);
    assert(ma_count(ms.drop_last(), f0) == 1);
    assert(ma_count(ms, f0) == 2);
    assert(fs.drop_last() =~= Seq::<FieldModel>::empty());
    assert(fs.last() == fs[0]);
    assert(sum_ma(Seq::<FieldModel>::empty(), ms) == 0);
    assert(sum_ma(fs, ms) == 2);
}

/// A struct of two fields and two methods, each method reading exactly its
/// own field and not the other's, has no shared access at all: the cohesion
/// score is exactly one, in particular above one half.
pub proof fn lemma_lcom_disjoint_fields_incohesive(s: StructModel)
    requires
        s.fields.len() == 2,
        s.methods.len() == 2,
        s.fields[0].name != s.fields[1].name,
        method_reads(s.methods[0], s.fields[0].name),
        !method_reads(s.methods[0], s.fields[1].name),
        method_reads(s.methods[1], s.fields[1].name),
        !method_reads(s.methods[1], s.fields[0].name),
    ensures
        lcom_num_spec(s) == lcom_den_spec(s),
        2 * lcom_num_spec(s) > lcom_den_spec(s),
{
    let ms = s.methods;
    let fs = s.fields;
    assert(ms.drop_last().drop_last() =~= Seq::<MethodModel>::empty());
    assert(ms.drop_last().last() == ms[0]);
    assert(ms.last() == ms[1]);
    assert(ma_count(Seq::<MethodModel>::empty(), fs[0].name) == 0);
    assert(ma_count(ms.drop_last(), fs[0].name) == 1);
    assert(ma_count(ms, fs[0].name) == 1);
    assert(ma_count(Seq::<MethodModel>::empty(), fs[1].name) == 0);
    assert(ma_count(ms.drop_last(), fs[1].name) == 0);
    assert(ma_count(ms, fs[1].name) == 1);
    assert(fs.drop_last().drop_last() =~= Seq::<FieldModel>::empty());
    assert(fs.drop_last().last() == fs[0]);
    assert(fs.last() == fs[1]);
    assert(sum_ma(Seq::<FieldModel>::empty(), ms) == 0);
    assert(sum_ma(fs.drop_last(), ms) == 1);
    assert(sum_ma(fs, ms) == 2);
}

proof fn lemma_add_method_refs_noop(
    acc: Seq<Seq<char>>,
    refs: Seq<Seq<char>>,
    all: Seq<StructModel>,
)
    requires
        forall|j: int| 0 <= j < refs.len() ==> !known_name(all, #[trigger] refs[j]),
    ensures
        add_method_refs(acc, refs, all) == acc,
    decreases refs.len(),
{
    if refs.len() > 0 {
        assert(forall|j: int| 0 <= j < refs.len() - 1 ==> refs.drop_last()[j] == refs[j]);
        lemma_add_method_refs_noop(acc, refs.drop_last(), all);
        assert(refs.last() == refs[refs.len() - 1]);
    }
}

proof fn lemma_add_methods_noop(acc: Seq<Seq<char>>, ms: Seq<MethodModel>, all: Seq<StructModel>)
    requires
        forall|i: int, j: int|
            0 <= i < ms.len() && 0 <= j < ms[i].external_type_refs.len() ==> !known_name(
                all,
                #[trigger] ms[i].external_type_refs[j],
            ),
    ensures
        add_methods(acc, ms, all) == acc,
    decreases ms.len(),
{
    if ms.len() > 0 {
        assert(forall|i: int| 0 <= i < ms.len() - 1 ==> ms.drop_last()[i] == ms[i]);
        lemma_add_methods_noop(acc, ms.drop_last(), all);
        assert(ms.last() == ms[ms.len() - 1]);
        lemma_add_method_refs_noop(acc, ms.last().external_type_refs, all);
    }
}

proof fn lemma_add_field_names_noop(
    acc: Seq<Seq<char>>,
    names: Seq<Seq<char>>,
    all: Seq<StructModel>,
    own: Seq<char>,
)
    requires
        forall|j: int|
            0 <= j < names.len() ==> !known_name(all, #[trigger] names[j]) || names[j] == own,
    ensures
        add_field_names(acc, names, all, own) == acc,
    decreases names.len(),
{
    if names.len() > 0 {
        assert(forall|j: int| 0 <= j < names.len() - 1 ==> names.drop_last()[j] == names[j]);
        lemma_add_field_names_noop(acc, names.drop_last(), all, own);
        assert(names.last() == names[names.len() - 1]);
    }
}

proof fn lemma_add_fields_noop(
    acc: Seq<Seq<char>>,
    fs: Seq<FieldModel>,
    all: Seq<StructModel>,
    own: Seq<char>,
)
    requires
        forall|i: int, n: Seq<char>|
            0 <= i < fs.len() && #[trigger] extract_tys_spec(fs[i].ty).contains(n) ==> !known_name(
                all,
                n,
            ) || n == own,
    ensures
        add_fields(acc, fs, all, own) == acc,
    decreases fs.len(),
{
    if fs.len() > 0 {
        assert(forall|i: int| 0 <= i < fs.len() - 1 ==> fs.drop_last()[i] == fs[i]);
        lemma_add_fields_noop(acc, fs.drop_last(), all, own);
        assert(fs.last() == fs[fs.len() - 1]);
        let names = extract_tys_spec(fs.last().ty);
        assert forall|j: int| 0 <= j < names.len() implies !known_name(all, #[trigger] names[j])
            || names[j] == own by {
            assert(names.contains(names[j]));
        }
        lemma_add_field_names_noop(acc, names, all, own);
    }
}

/// The coupling count includes an implemented trait name unconditionally
/// and excludes self-reference through the type's own name: a struct that
/// implements exactly one trait, whose methods reference no known type, and
/// whose field types name nothing known but the struct itself, has a
/// coupling count of exactly one.
pub proof fn lemma_cbo_trait_only(s: StructModel, all: Seq<StructModel>)
    requires
        s.traits.len() == 1,
        forall|i: int, j: int|
            0 <= i < s.methods.len() && 0 <= j < s.methods[i].external_type_refs.len()
                ==> !known_name(all, #[trigger] s.methods[i].external_type_refs[j]),
        forall|i: int, n: Seq<char>|
            0 <= i < s.fields.len() && #[trigger] extract_tys_spec(s.fields[i].ty).contains(n)
                ==> !known_name(all, n) || n == s.name,
    ensures
        cbo_spec(s, all) == 1,
{
    let empty = Seq::<Seq<char>>::empty();
    lemma_add_methods_noop(empty, s.methods, all);
    lemma_add_fields_noop(empty, s.fields, all, s.name);
    assert(s.traits.drop_last() =~= Seq::<Seq<char>>::empty());
    assert(s.traits.last() == s.traits[0]);
    assert(!empty.contains(s.traits[0]));
    assert(add_traits(empty, Seq::<Seq<char>>::empty()) == empty);
    assert(add_traits(empty, s.traits) == empty.push(s.traits[0]));
}

/// Field coupling has set semantics: with no methods and no traits, two
/// fields whose types each name one known other type couple the struct to
/// two types when the names differ, and to one when both fields name the
/// same type.
pub proof fn lemma_cbo_field_set_semantics(
    s: StructModel,
    all: Seq<StructModel>,
    a: Seq<char>,
    b: Seq<char>,
)
    requires
        s.methods.len() == 0,
        s.traits.len() == 0,
        s.fields.len() == 2,
        extract_tys_spec(s.fields[0].ty) == seq![a],
        extract_tys_spec(s.fields[1].ty) == seq![b],
        known_name(all, a),
        known_name(all, b),
        a != s.name,
        b != s.name,
    ensures
        a != b ==> cbo_spec(s, all) == 2,
        a == b ==> cbo_spec(s, all) == 1,
{
    let empty = Seq::<Seq<char>>::empty();
    let fs = s.fields;
    assert(add_methods(empty, s.methods, all) == empty);
    assert(fs.drop_last().drop_last() =~= Seq::<FieldModel>::empty());
    assert(fs.drop_last().last() == fs[0]);
    assert(fs.last() == fs[1]);
    let na = seq![a];
    let nb = seq![b];
    assert(na.drop_last() =~= Seq::<Seq<char>>::empty());
    assert(na.last() == a);
    assert(nb.drop_last() =~= Seq::<Seq<char>>::empty());
    assert(nb.last() == b);
    assert(!empty.contains(a));
    assert(add_field_names(empty, Seq::<Seq<char>>::empty(), all, s.name) == empty);
    assert(add_field_names(empty, na, all, s.name) == push_unique(empty, a));
    let one = empty.push(a);
    assert(add_field_names(empty, na, all, s.name) == one);
    assert(add_fields(empty, Seq::<FieldModel>::empty(), all, s.name) == empty);
    assert(add_fields(empty, fs.drop_last(), all, s.name) == one);
    assert(add_fields(empty, fs, all, s.name) == add_field_names(one, nb, all, s.name));
    assert(add_field_names(one, Seq::<Seq<char>>::empty(), all, s.name) == one);
    assert(add_field_names(one, nb, all, s.name) == push_unique(one, b));
    if a == b {
        assert(one[0] == a);
        assert(one.contains(b));
        assert(push_unique(one, b) == one);
        assert(add_traits(push_unique(one, b), s.traits) == one);
    } else {
        assert(forall|i: int| 0 <= i < one.len() ==> one[i] == a);
        assert(!one.contains(b));
        assert(push_unique(one, b) == one.push(b));
        assert(add_traits(push_unique(one, b), s.traits) == one.push(b));
    }
}

/// An empty function body has cyclomatic complexity exactly one: the base
/// path, with no branching construct to add to it.
pub proof fn lemma_complexity_empty_body(b: Block)
    requires
        b.stmts@.len() == 0,
    ensures
        cap_usize(1 + cx_block(b) as int) == 1,
{
    assert(cx_stmt_list(b.stmts@) == 0);
}

/// The analysis is deterministic: two runs over the same parsed source
/// yield the same result sequence, because extraction and every metric are
/// functions of the tree, with no unordered iteration anywhere.
pub proof fn lemma_analysis_deterministic(f: File, r1: Seq<ResultModel>, r2: Seq<ResultModel>)
    requires
        r1 == results_spec(extract_file_spec(f)),
        r2 == results_spec(extract_file_spec(f)),
    ensures
        r1 == r2,
{
}

} // verus!
