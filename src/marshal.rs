//! Decisions of the boundary operations that do not touch the engine.

use vstd::prelude::*;
use crate::import::{CategoryPlan, planned_items};

verus! {

/// The engine's address of the wallet file at `path`.
pub open spec fn store_uri_text(path: Seq<char>) -> Seq<char> {
    "sqlite://"@ + path
}

/// The engine's address of the wallet file at `path`.
pub fn store_uri(path: &str) -> (r: String)
    ensures
        r@ == store_uri_text(path@),
{
    let mut out = String::new();
    out.append("sqlite://");
    out.append(path);
    out
}

/// The number of items a plan holds, where it fits in a `u64`.
pub fn planned_count(plan: &Vec<CategoryPlan>) -> (r: Option<u64>)
    ensures
        match r {
            Some(n) => n == planned_items(plan@, plan@.len()),
            None => planned_items(plan@, plan@.len()) > u64::MAX,
        },
{
    let mut n: u64 = 0;
    let mut i: usize = 0;
    while i < plan.len()
        invariant
            i <= plan@.len(),
            n == planned_items(plan@, i as nat),
        decreases plan@.len() - i,
    {
        match &plan[i].items {
            Some(ps) => {
                if ps.len() as u64 > u64::MAX - n {
                    proof {
                        lemma_planned_grows(plan@, (i + 1) as nat, plan@.len());
                    }
                    return None;
                }
                n = n + ps.len() as u64;
            },
            None => {},
        }
        i = i + 1;
    }
    Some(n)
}

proof fn lemma_planned_grows(plan: Seq<CategoryPlan>, n: nat, m: nat)
    requires
        n <= m <= plan.len(),
    ensures
        planned_items(plan, n) <= planned_items(plan, m),
    decreases m,
{
    if n < m {
        lemma_planned_grows(plan, n, (m - 1) as nat);
    }
}

} // verus!
