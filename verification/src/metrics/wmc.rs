use vstd::prelude::*;
use crate::models::{MethodModel, StructInfo, StructModel};

verus! {

/// The weight of one method: its cyclomatic complexity, floored at 1 as a
/// defensive invariant check.
pub open spec fn method_weight(m: MethodModel) -> nat {
    if m.cyclomatic_complexity >= 1 {
        m.cyclomatic_complexity
    } else {
        1nat
    }
}

/// The sum of the weights of a sequence of methods.
pub open spec fn wmc_sum(ms: Seq<MethodModel>) -> nat
    decreases ms.len(),
{
    if ms.len() == 0 {
        0
    } else {
        wmc_sum(ms.drop_last()) + method_weight(ms.last())
    }
}

/// Weighted Methods per Class: the sum over all methods of the method's
/// cyclomatic complexity.
pub open spec fn wmc_spec(s: StructModel) -> nat {
    wmc_sum(s.methods)
}

/// Calculate Weighted Methods per Class (WMC): the exact sum of per-method
/// complexities, each floored at 1, saturating at `usize::MAX`.
pub fn calculate(struct_info: &StructInfo) -> (r: usize)
    ensures
        wmc_spec(struct_info@) <= usize::MAX ==> r == wmc_spec(struct_info@),
        wmc_spec(struct_info@) > usize::MAX ==> r == usize::MAX,
{
    let ghost ms = struct_info@.methods;
    let mut total: usize = 0;
    let mut i: usize = 0;
    let n = struct_info.methods.len();
    while i < n
        invariant
            ms == struct_info@.methods,
            n == ms.len(),
            i <= n,
            wmc_sum(ms.take(i as int)) <= usize::MAX ==> total == wmc_sum(ms.take(i as int)),
            wmc_sum(ms.take(i as int)) > usize::MAX ==> total == usize::MAX,
        decreases n - i,
    {
        let cc = struct_info.methods[i].cyclomatic_complexity;
        let w = if cc >= 1 {
            cc
        } else {
            1
        };
        proof {
            assert(ms.take(i + 1).drop_last() =~= ms.take(i as int));
            assert(ms.take(i + 1).last() == ms[i as int]);
            assert(w == method_weight(ms[i as int]));
        }
        total = if total <= usize::MAX - w {
            total + w
        } else {
            usize::MAX
        };
        i += 1;
    }
    proof {
        assert(ms.take(ms.len() as int) =~= ms);
    }
    total
}

} // verus!
