pub mod cbo;
pub mod lcom;
pub mod wmc;

use vstd::prelude::*;
use crate::models::{models_of, AnalysisResult, ResultModel, StructInfo, StructModel};

verus! {

/// An integer capped at `usize::MAX`, the value a saturating machine count
/// settles at.
pub open spec fn cap_usize(n: int) -> int {
    if n > usize::MAX {
        usize::MAX as int
    } else {
        n
    }
}

/// The analysis result of one struct against the whole corpus: the cohesion
/// ratio, the coupling count, and the weighted method count.
pub open spec fn analyze_struct_spec(s: StructModel, all: Seq<StructModel>) -> ResultModel {
    ResultModel {
        struct_name: s.name,
        lcom_num: lcom::lcom_num_spec(s),
        lcom_den: lcom::lcom_den_spec(s),
        cbo: cbo::cbo_spec(s, all),
        wmc: cap_usize(wmc::wmc_spec(s) as int),
    }
}

/// The results for every struct of the corpus, in extraction order.
pub open spec fn results_spec(all: Seq<StructModel>) -> Seq<ResultModel> {
    Seq::new(all.len(), |i: int| analyze_struct_spec(all[i], all))
}

/// Computes the three metrics for one struct, reading (but never changing)
/// the whole extracted corpus for the coupling count.
pub fn analyze_struct(struct_info: &StructInfo, all_structs: &[StructInfo]) -> (r: AnalysisResult)
    ensures
        r@ == analyze_struct_spec(struct_info@, models_of(all_structs@)),
{
    AnalysisResult {
        struct_name: struct_info.name.clone(),
        lcom: lcom::calculate(struct_info),
        cbo: cbo::calculate(struct_info, all_structs),
        wmc: wmc::calculate(struct_info),
    }
}

/// Computes the metrics of every struct of the corpus, in order.
pub fn analyze_all(all_structs: &[StructInfo]) -> (r: Vec<AnalysisResult>)
    ensures
        r@.map_values(|x: AnalysisResult| x@) == results_spec(models_of(all_structs@)),
{
    let ghost all = models_of(all_structs@);
    let mut results: Vec<AnalysisResult> = Vec::new();
    let n = all_structs.len();
    let mut i: usize = 0;
    while i < n
        invariant
            all == models_of(all_structs@),
            n == all.len(),
            i <= n,
            results@.len() == i,
            forall|k: int| 0 <= k < i ==> results@.map_values(|x: AnalysisResult| x@)[k]
                == analyze_struct_spec(all[k], all),
        decreases n - i,
    {
        let r = analyze_struct(&all_structs[i], all_structs);
        results.push(r);
        i += 1;
    }
    proof {
        assert(results@.map_values(|x: AnalysisResult| x@) =~= results_spec(all));
    }
    results
}

} // verus!
