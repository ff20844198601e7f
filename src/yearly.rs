use vstd::prelude::*;

use crate::monthly::MonthlyStats;

verus! {

/// The months of `results` whose aggregation succeeded, in order.
pub open spec fn succeeded(results: Seq<Result<MonthlyStats, String>>) -> Seq<MonthlyStats>
    decreases results.len(),
{
    if results.len() == 0 {
        Seq::empty()
    } else {
        (match results[0] {
            Ok(m) => seq![m],
            Err(_) => Seq::empty(),
        }) + succeeded(results.skip(1))
    }
}

/// The yearly overview from the outcome of each month's aggregation, in
/// month order: a month that failed is left out and the others are kept.
pub fn get_yearly_overview(results: Vec<Result<MonthlyStats, String>>) -> (r: Vec<MonthlyStats>)
    ensures
        r@ == succeeded(results@),
{
    let mut rest = results;
    let mut months: Vec<MonthlyStats> = Vec::new();
    proof {
        assert(months@ + succeeded(rest@) =~= succeeded(results@));
    }
    while rest.len() > 0
        invariant
            months@ + succeeded(rest@) == succeeded(results@),
        decreases rest@.len(),
    {
        let ghost before = rest@;
        let first = rest.remove(0);
        proof {
            assert(rest@ =~= before.skip(1));
        }
        match first {
            Ok(m) => {
                months.push(m);
                proof {
                    assert(months@.drop_last() + (seq![m] + succeeded(rest@)) =~= months@ + succeeded(
                        rest@,
                    ));
                }
            },
            Err(_) => {
                proof {
                    assert(Seq::<MonthlyStats>::empty() + succeeded(rest@) =~= succeeded(rest@));
                }
            },
        }
    }
    proof {
        assert(succeeded(rest@) =~= Seq::<MonthlyStats>::empty());
        assert(months@ + Seq::<MonthlyStats>::empty() =~= months@);
    }
    months
}

} // verus!
