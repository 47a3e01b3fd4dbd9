use vstd::prelude::*;
use crate::models::{FieldModel, MethodInfo, MethodModel, Ratio, StructInfo, StructModel};

verus! {

/// Whether the method reads the field of the given name.
pub open spec fn method_reads(m: MethodModel, fname: Seq<char>) -> bool {
    m.fields_accessed.contains(fname)
}

/// How many of the methods read the field of the given name.
pub open spec fn ma_count(ms: Seq<MethodModel>, fname: Seq<char>) -> nat
    decreases ms.len(),
{
    if ms.len() == 0 {
        0
    } else {
        ma_count(ms.drop_last(), fname) + (if method_reads(ms.last(), fname) {
            1nat
        } else {
            0nat
        })
    }
}

/// The total number of (field, method) pairs where the method reads the
/// field.
pub open spec fn sum_ma(fs: Seq<FieldModel>, ms: Seq<MethodModel>) -> nat
    decreases fs.len(),
{
    if fs.len() == 0 {
        0
    } else {
        sum_ma(fs.drop_last(), ms) + ma_count(ms, fs.last().name)
    }
}

/// The denominator of the Henderson-Sellers cohesion score: `a * (m - 1)` in
/// the general case, 1 in the edge cases so the score is exactly zero.
pub open spec fn lcom_den_spec(s: StructModel) -> int {
    if s.methods.len() <= 1 || s.fields.len() == 0 {
        1
    } else {
        s.fields.len() * (s.methods.len() - 1)
    }
}

/// The numerator of the Henderson-Sellers cohesion score
/// `(m - sumMA / a) / (m - 1)`, brought over the common denominator
/// `a * (m - 1)` and clamped into [0, 1].
pub open spec fn lcom_num_spec(s: StructModel) -> int {
    if s.methods.len() <= 1 || s.fields.len() == 0 {
        0
    } else {
        let raw = s.methods.len() * s.fields.len() - sum_ma(s.fields, s.methods);
        let den = lcom_den_spec(s);
        if raw < 0 {
            0
        } else if raw > den {
            den
        } else {
            raw
        }
    }
}

pub proof fn lemma_ma_count_le(ms: Seq<MethodModel>, fname: Seq<char>)
    ensures
        ma_count(ms, fname) <= ms.len(),
    decreases ms.len(),
{
    if ms.len() > 0 {
        lemma_ma_count_le(ms.drop_last(), fname);
    }
}

pub proof fn lemma_sum_ma_le(fs: Seq<FieldModel>, ms: Seq<MethodModel>)
    ensures
        sum_ma(fs, ms) <= fs.len() * ms.len(),
    decreases fs.len(),
{
    if fs.len() > 0 {
        lemma_sum_ma_le(fs.drop_last(), ms);
        lemma_ma_count_le(ms, fs.last().name);
        assert((fs.len() - 1) * ms.len() + ms.len() == fs.len() * ms.len()) by (nonlinear_arith);
    }
}

/// Whether the method's recorded field accesses include the given name.
fn method_accesses(m: &MethodInfo, fname: &String) -> (b: bool)
    ensures
        b == method_reads(m@, fname@),
{
    let mut k: usize = 0;
    let n = m.fields_accessed.len();
    while k < n
        invariant
            n == m.fields_accessed@.len(),
            k <= n,
            forall|j: int| 0 <= j < k ==> m@.fields_accessed[j] != fname@,
        decreases n - k,
    {
        if crate::text::string_eq(&m.fields_accessed[k], fname) {
            proof {
                assert(m@.fields_accessed[k as int] == fname@);
            }
            return true;
        }
        k += 1;
    }
    false
}

/// Calculate Lack of Cohesion in Methods (LCOM), Henderson-Sellers variant,
/// as an exact rational in [0, 1].
///
/// With `m` methods, `a` fields, and `sumMA` the total count of (field,
/// method) read pairs, the score is `(m - sumMA / a) / (m - 1)` clamped into
/// [0, 1]; it is exactly zero when `m <= 1` or `a == 0`.
pub fn calculate(struct_info: &StructInfo) -> (r: Ratio)
    ensures
        r.num == lcom_num_spec(struct_info@),
        r.den == lcom_den_spec(struct_info@),
        r.wf(),
        struct_info@.methods.len() <= 1 || struct_info@.fields.len() == 0 ==> r.num == 0,
{
    let m = struct_info.methods.len();
    let a = struct_info.fields.len();
    let ghost ms = struct_info@.methods;
    let ghost fs = struct_info@.fields;
    if m <= 1 || a == 0 {
        return Ratio::zero();
    }
    let mut sum: u128 = 0;
    let mut j: usize = 0;
    while j < a
        invariant
            ms == struct_info@.methods,
            fs == struct_info@.fields,
            m == ms.len(),
            a == fs.len(),
            j <= a,
            sum == sum_ma(fs.take(j as int), ms),
        decreases a - j,
    {
        let fname = &struct_info.fields[j].name;
        let mut cnt: usize = 0;
        let mut i: usize = 0;
        while i < m
            invariant
                ms == struct_info@.methods,
                m == ms.len(),
                i <= m,
                m == struct_info.methods@.len(),
                cnt <= i,
                cnt == ma_count(ms.take(i as int), fs[j as int].name),
                j < fs.len(),
                fs == struct_info@.fields,
                fname@ == fs[j as int].name,
            decreases m - i,
        {
            proof {
                assert(ms.take(i + 1).drop_last() =~= ms.take(i as int));
                assert(ms.take(i + 1).last() == ms[i as int]);
            }
            if method_accesses(&struct_info.methods[i], fname) {
                cnt += 1;
            }
            i += 1;
        }
        proof {
            assert(ms.take(ms.len() as int) =~= ms);
            assert(fs.take(j + 1).drop_last() =~= fs.take(j as int));
            assert(fs.take(j + 1).last() == fs[j as int]);
            lemma_sum_ma_le(fs.take(j as int), ms);
            lemma_ma_count_le(ms, fs[j as int].name);
            assert(fs.take(j as int).len() == j);
            assert(j * ms.len() + ms.len() <= fs.len() * ms.len()) by (nonlinear_arith)
                requires
                    0 <= j < fs.len(),
                    ms.len() >= 0,
            ;
            assert(fs.len() * ms.len() < u128::MAX) by (nonlinear_arith)
                requires
                    0 <= fs.len() <= u64::MAX,
                    0 <= ms.len() <= u64::MAX,
            ;
        }
        sum = sum + (cnt as u128);
        j += 1;
    }
    proof {
        assert(fs.take(fs.len() as int) =~= fs);
        lemma_sum_ma_le(fs, ms);
    }
    let m128 = m as u128;
    let a128 = a as u128;
    proof {
        assert(m128 * a128 <= u128::MAX) by (nonlinear_arith)
            requires
                0 <= m128 <= u64::MAX,
                0 <= a128 <= u64::MAX,
        ;
        assert(a128 * (m128 - 1) >= 1 && a128 * (m128 - 1) <= a128 * m128) by (nonlinear_arith)
            requires
                a128 >= 1,
                m128 >= 2,
        ;
        assert(sum <= a128 * m128 && a128 * m128 == m128 * a128) by (nonlinear_arith)
            requires
                sum <= fs.len() * ms.len(),
                fs.len() == a128,
                ms.len() == m128,
        ;
    }
    let prod = m128 * a128;
    let den = a128 * (m128 - 1);
    let raw = prod - sum;
    let num = if raw > den {
        den
    } else {
        raw
    };
    Ratio { num, den }
}

} // verus!
