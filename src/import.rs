//! The bulk-import reducer. A payload is first turned into a plan, one
//! record or rejection per item; the engine's answer to each planned insert
//! is then folded into an import report.

use vstd::prelude::*;
use crate::json::{JsonValue, JsonMember};
use crate::codec::{EntryRecord, item_record, encode_item};

verus! {

/// What the reducer does with one candidate item.
pub enum ItemPlan {
    /// Not an object with a string `name`: counted as failed, never inserted.
    Malformed,
    /// Inserted through the engine.
    Insert(EntryRecord),
}

/// The plan for one member of the payload. `items` is `None` where the
/// member's value is neither an array nor an object: it is skipped.
pub struct CategoryPlan {
    pub category: String,
    pub items: Option<Vec<ItemPlan>>,
}

/// Why a payload cannot be imported at all.
pub enum PayloadError {
    RootNotObject,
}

impl PayloadError {
    /// The message that a failure envelope carries for this error.
    pub fn message(&self) -> (r: String)
        ensures
            r@ == "JSON root must be an object"@,
    {
        "JSON root must be an object".to_owned()
    }
}

/// Counts for one category that was iterated.
pub struct CategoryReport {
    pub category: String,
    pub imported: u64,
    pub failed: u64,
}

/// The outcome of a bulk import.
pub struct ImportReport {
    pub imported: u64,
    pub failed: u64,
    pub categories: Vec<CategoryReport>,
}

/// The candidate items under one category: the elements of an array, a bare
/// object as a batch of one, nothing for any other value.
pub open spec fn category_batch(v: JsonValue) -> Option<Seq<JsonValue>> {
    match v {
        JsonValue::Array(items) => Some(items@),
        JsonValue::Object(_) => Some(seq![v]),
        _ => None,
    }
}

pub open spec fn item_plan_matches(p: ItemPlan, item: JsonValue, category: Seq<char>) -> bool {
    match p {
        ItemPlan::Malformed => item_record(item, category) is None,
        ItemPlan::Insert(rec) => item_record(item, category) == Some(rec@),
    }
}

pub open spec fn batch_plan_matches(
    ps: Seq<ItemPlan>,
    batch: Seq<JsonValue>,
    category: Seq<char>,
) -> bool {
    &&& ps.len() == batch.len()
    &&& forall|j: int| 0 <= j < ps.len() ==> item_plan_matches(#[trigger] ps[j], batch[j], category)
}

pub open spec fn category_plan_matches(cp: CategoryPlan, m: JsonMember) -> bool {
    &&& cp.category@ == m.key@
    &&& match (cp.items, category_batch(m.value)) {
        (None, None) => true,
        (Some(ps), Some(b)) => batch_plan_matches(ps@, b, m.key@),
        _ => false,
    }
}

/// `plan` is the plan of `payload`: one entry per member, in order.
pub open spec fn plan_matches(plan: Seq<CategoryPlan>, payload: JsonValue) -> bool {
    match payload {
        JsonValue::Object(ms) => {
            &&& plan.len() == ms@.len()
            &&& forall|i: int| 0 <= i < plan.len() ==> category_plan_matches(#[trigger] plan[i], ms@[i])
        },
        _ => false,
    }
}

/// Number of candidate items in the first `n` members.
pub open spec fn eligible_in(ms: Seq<JsonMember>, n: nat) -> nat
    decreases n,
{
    if n == 0 || n > ms.len() {
        0
    } else {
        eligible_in(ms, (n - 1) as nat) + match category_batch(ms[n - 1].value) {
            Some(b) => b.len(),
            None => 0,
        }
    }
}

/// Number of candidate items of a payload: array elements plus bare
/// objects, over every member whose value is an array or an object.
pub open spec fn eligible_items(payload: JsonValue) -> nat {
    match payload {
        JsonValue::Object(ms) => eligible_in(ms@, ms@.len()),
        _ => 0,
    }
}

/// Number of items among the first `n` that give a record.
pub open spec fn well_formed_in_batch(b: Seq<JsonValue>, category: Seq<char>, n: nat) -> nat
    decreases n,
{
    if n == 0 || n > b.len() {
        0
    } else {
        well_formed_in_batch(b, category, (n - 1) as nat) + if item_record(b[n - 1], category) is Some {
            1nat
        } else {
            0nat
        }
    }
}

pub open spec fn well_formed_in(ms: Seq<JsonMember>, n: nat) -> nat
    decreases n,
{
    if n == 0 || n > ms.len() {
        0
    } else {
        well_formed_in(ms, (n - 1) as nat) + match category_batch(ms[n - 1].value) {
            Some(b) => well_formed_in_batch(b, ms[n - 1].key@, b.len()),
            None => 0,
        }
    }
}

/// Number of candidate items of a payload that are objects with a string
/// `name`.
pub open spec fn well_formed_items(payload: JsonValue) -> nat {
    match payload {
        JsonValue::Object(ms) => well_formed_in(ms@, ms@.len()),
        _ => 0,
    }
}

/// Items among the first `n` that were inserted and that the engine took.
pub open spec fn batch_imported(ps: Seq<ItemPlan>, outs: Seq<bool>, n: nat) -> nat
    decreases n,
{
    if n == 0 || n > ps.len() {
        0
    } else {
        batch_imported(ps, outs, (n - 1) as nat) + if ps[n - 1] is Insert && outs[n - 1] {
            1nat
        } else {
            0nat
        }
    }
}

/// Items among the first `n` that were malformed or that the engine refused.
pub open spec fn batch_failed(ps: Seq<ItemPlan>, outs: Seq<bool>, n: nat) -> nat
    decreases n,
{
    if n == 0 || n > ps.len() {
        0
    } else {
        batch_failed(ps, outs, (n - 1) as nat) + if ps[n - 1] is Insert && outs[n - 1] {
            0nat
        } else {
            1nat
        }
    }
}

/// `outs[i][j]` is the engine's answer to item `j` of category `i`; it is
/// read only for planned inserts.
pub open spec fn outcomes_fit(plan: Seq<CategoryPlan>, outs: Seq<Vec<bool>>) -> bool {
    &&& outs.len() == plan.len()
    &&& forall|i: int|
        0 <= i < plan.len() && (#[trigger] plan[i]).items is Some ==> outs[i]@.len()
            == plan[i].items->Some_0@.len()
}

pub open spec fn cat_imported(cp: CategoryPlan, outs: Vec<bool>) -> nat {
    match cp.items {
        Some(ps) => batch_imported(ps@, outs@, ps@.len()),
        None => 0,
    }
}

pub open spec fn cat_failed(cp: CategoryPlan, outs: Vec<bool>) -> nat {
    match cp.items {
        Some(ps) => batch_failed(ps@, outs@, ps@.len()),
        None => 0,
    }
}

pub open spec fn total_imported(plan: Seq<CategoryPlan>, outs: Seq<Vec<bool>>, n: nat) -> nat
    decreases n,
{
    if n == 0 || n > plan.len() {
        0
    } else {
        total_imported(plan, outs, (n - 1) as nat) + cat_imported(plan[n - 1], outs[n - 1])
    }
}

pub open spec fn total_failed(plan: Seq<CategoryPlan>, outs: Seq<Vec<bool>>, n: nat) -> nat
    decreases n,
{
    if n == 0 || n > plan.len() {
        0
    } else {
        total_failed(plan, outs, (n - 1) as nat) + cat_failed(plan[n - 1], outs[n - 1])
    }
}

/// Number of planned items in the first `n` categories.
pub open spec fn planned_items(plan: Seq<CategoryPlan>, n: nat) -> nat
    decreases n,
{
    if n == 0 || n > plan.len() {
        0
    } else {
        planned_items(plan, (n - 1) as nat) + match plan[n - 1].items {
            Some(ps) => ps@.len(),
            None => 0,
        }
    }
}

/// The report rows of the first `n` categories: one per iterated category,
/// none for a skipped one.
pub open spec fn report_rows(plan: Seq<CategoryPlan>, outs: Seq<Vec<bool>>, n: nat) -> Seq<
    (Seq<char>, nat, nat),
>
    decreases n,
{
    if n == 0 || n > plan.len() {
        Seq::empty()
    } else {
        report_rows(plan, outs, (n - 1) as nat) + if plan[n - 1].items is Some {
            seq![
                (
                    plan[n - 1].category@,
                    cat_imported(plan[n - 1], outs[n - 1]),
                    cat_failed(plan[n - 1], outs[n - 1]),
                ),
            ]
        } else {
            Seq::empty()
        }
    }
}

pub open spec fn rows_model(rows: Seq<CategoryReport>) -> Seq<(Seq<char>, nat, nat)> {
    rows.map_values(|r: CategoryReport| (r.category@, r.imported as nat, r.failed as nat))
}

/// The plan for one candidate item.
pub fn plan_item(item: &JsonValue, category: &str) -> (r: ItemPlan)
    ensures
        item_plan_matches(r, *item, category@),
{
    match encode_item(item, category) {
        Some(rec) => ItemPlan::Insert(rec),
        None => ItemPlan::Malformed,
    }
}

/// The plans for the elements of an array, in order.
pub fn plan_batch(items: &Vec<JsonValue>, category: &str) -> (r: Vec<ItemPlan>)
    ensures
        batch_plan_matches(r@, items@, category@),
{
    let mut out: Vec<ItemPlan> = Vec::new();
    let mut j: usize = 0;
    while j < items.len()
        invariant
            j <= items@.len(),
            out@.len() == j,
            forall|k: int| 0 <= k < j ==> item_plan_matches(#[trigger] out@[k], items@[k], category@),
        decreases items@.len() - j,
    {
        let p = plan_item(&items[j], category);
        out.push(p);
        j = j + 1;
    }
    out
}

/// The plan for one member of the payload.
pub fn plan_category(m: &JsonMember) -> (r: CategoryPlan)
    ensures
        category_plan_matches(r, *m),
{
    let category = m.key.clone();
    let items = match &m.value {
        JsonValue::Array(elems) => Some(plan_batch(elems, m.key.as_str())),
        JsonValue::Object(_) => {
            let mut one: Vec<ItemPlan> = Vec::new();
            one.push(plan_item(&m.value, m.key.as_str()));
            Some(one)
        },
        _ => None,
    };
    CategoryPlan { category, items }
}

/// Plans the import of a payload: an error where its root is not an object,
/// else one category plan per member, in order.
pub fn plan_import(payload: &JsonValue) -> (r: Result<Vec<CategoryPlan>, PayloadError>)
    ensures
        match r {
            Ok(plan) => plan_matches(plan@, *payload),
            Err(_) => !(payload is Object),
        },
{
    match payload {
        JsonValue::Object(ms) => {
            let mut plan: Vec<CategoryPlan> = Vec::new();
            let mut i: usize = 0;
            while i < ms.len()
                invariant
                    i <= ms@.len(),
                    plan@.len() == i,
                    forall|k: int| 0 <= k < i ==> category_plan_matches(#[trigger] plan@[k], ms@[k]),
                decreases ms@.len() - i,
            {
                let cp = plan_category(&ms[i]);
                plan.push(cp);
                i = i + 1;
            }
            Ok(plan)
        },
        _ => Err(PayloadError::RootNotObject),
    }
}

proof fn lemma_batch_counts(ps: Seq<ItemPlan>, outs: Seq<bool>, n: nat)
    requires
        n <= ps.len(),
    ensures
        batch_imported(ps, outs, n) + batch_failed(ps, outs, n) == n,
    decreases n,
{
    if n > 0 {
        lemma_batch_counts(ps, outs, (n - 1) as nat);
    }
}

proof fn lemma_total_counts(plan: Seq<CategoryPlan>, outs: Seq<Vec<bool>>, n: nat)
    requires
        n <= plan.len(),
        outcomes_fit(plan, outs),
    ensures
        total_imported(plan, outs, n) + total_failed(plan, outs, n) == planned_items(plan, n),
    decreases n,
{
    if n > 0 {
        lemma_total_counts(plan, outs, (n - 1) as nat);
        let cp = plan[n - 1];
        if let Some(ps) = cp.items {
            lemma_batch_counts(ps@, outs[n - 1]@, ps@.len());
        }
    }
}

proof fn lemma_totals_grow(plan: Seq<CategoryPlan>, outs: Seq<Vec<bool>>, n: nat, m: nat)
    requires
        n <= m <= plan.len(),
        outcomes_fit(plan, outs),
    ensures
        total_imported(plan, outs, n) <= total_imported(plan, outs, m),
        total_failed(plan, outs, n) <= total_failed(plan, outs, m),
    decreases m,
{
    if n < m {
        lemma_totals_grow(plan, outs, n, (m - 1) as nat);
    }
}

/// Folds the engine's answers into the report of an import. A planned
/// insert counts as imported where the engine took it; every other item,
/// malformed or refused, counts as failed.
pub fn finish_import(plan: &Vec<CategoryPlan>, outcomes: &Vec<Vec<bool>>) -> (r: ImportReport)
    requires
        outcomes_fit(plan@, outcomes@),
        planned_items(plan@, plan@.len()) <= u64::MAX,
    ensures
        r.imported == total_imported(plan@, outcomes@, plan@.len()),
        r.failed == total_failed(plan@, outcomes@, plan@.len()),
        rows_model(r.categories@) == report_rows(plan@, outcomes@, plan@.len()),
{
    let mut imported: u64 = 0;
    let mut failed: u64 = 0;
    let mut rows: Vec<CategoryReport> = Vec::new();
    let mut i: usize = 0;
    proof {
        lemma_total_counts(plan@, outcomes@, plan@.len());
    }
    while i < plan.len()
        invariant
            i <= plan@.len(),
            outcomes_fit(plan@, outcomes@),
            total_imported(plan@, outcomes@, plan@.len()) + total_failed(plan@, outcomes@, plan@.len())
                <= u64::MAX,
            imported == total_imported(plan@, outcomes@, i as nat),
            failed == total_failed(plan@, outcomes@, i as nat),
            rows_model(rows@) =~= report_rows(plan@, outcomes@, i as nat),
        decreases plan@.len() - i,
    {
        proof {
            lemma_totals_grow(plan@, outcomes@, (i + 1) as nat, plan@.len());
        }
        match &plan[i].items {
            Some(ps) => {
                let outs = &outcomes[i];
                let mut ci: u64 = 0;
                let mut cf: u64 = 0;
                let mut j: usize = 0;
                while j < ps.len()
                    invariant
                        j <= ps@.len(),
                        outs@.len() == ps@.len(),
                        ci == batch_imported(ps@, outs@, j as nat),
                        cf == batch_failed(ps@, outs@, j as nat),
                        ci + cf == j,
                        imported + batch_imported(ps@, outs@, ps@.len()) <= u64::MAX,
                        failed + batch_failed(ps@, outs@, ps@.len()) <= u64::MAX,
                    decreases ps@.len() - j,
                {
                    proof {
                        lemma_batch_grow(ps@, outs@, (j + 1) as nat, ps@.len());
                    }
                    let took = match &ps[j] {
                        ItemPlan::Insert(_) => outs[j],
                        ItemPlan::Malformed => false,
                    };
                    if took {
                        ci = ci + 1;
                    } else {
                        cf = cf + 1;
                    }
                    j = j + 1;
                }
                imported = imported + ci;
                failed = failed + cf;
                let ghost before = rows@;
                rows.push(CategoryReport { category: plan[i].category.clone(), imported: ci, failed: cf });
                assert(rows_model(rows@) =~= rows_model(before).push(
                    (plan@[i as int].category@, ci as nat, cf as nat),
                ));
            },
            None => {},
        }
        i = i + 1;
    }
    ImportReport { imported, failed, categories: rows }
}

proof fn lemma_batch_grow(ps: Seq<ItemPlan>, outs: Seq<bool>, n: nat, m: nat)
    requires
        n <= m <= ps.len(),
    ensures
        batch_imported(ps, outs, n) <= batch_imported(ps, outs, m),
        batch_failed(ps, outs, n) <= batch_failed(ps, outs, m),
    decreases m,
{
    if n < m {
        lemma_batch_grow(ps, outs, n, (m - 1) as nat);
    }
}

proof fn lemma_planned_is_eligible(plan: Seq<CategoryPlan>, ms: Seq<JsonMember>, n: nat)
    requires
        n <= plan.len() == ms.len(),
        forall|i: int| 0 <= i < plan.len() ==> category_plan_matches(#[trigger] plan[i], ms[i]),
    ensures
        planned_items(plan, n) == eligible_in(ms, n),
    decreases n,
{
    if n > 0 {
        lemma_planned_is_eligible(plan, ms, (n - 1) as nat);
        assert(category_plan_matches(plan[n - 1], ms[n - 1]));
    }
}

/// Every candidate item of a payload is counted exactly once: the imported
/// and failed totals of its report add up to the number of array elements
/// and bare objects under its members, skipped members not counted.
pub proof fn lemma_report_counts_every_candidate(
    payload: JsonValue,
    plan: Seq<CategoryPlan>,
    outs: Seq<Vec<bool>>,
)
    requires
        plan_matches(plan, payload),
        outcomes_fit(plan, outs),
    ensures
        total_imported(plan, outs, plan.len()) + total_failed(plan, outs, plan.len())
            == eligible_items(payload),
{
    lemma_total_counts(plan, outs, plan.len());
    if let JsonValue::Object(ms) = payload {
        lemma_planned_is_eligible(plan, ms@, plan.len());
    }
}

proof fn lemma_batch_all(
    ps: Seq<ItemPlan>,
    b: Seq<JsonValue>,
    category: Seq<char>,
    outs: Seq<bool>,
    taken: bool,
    n: nat,
)
    requires
        n <= ps.len(),
        batch_plan_matches(ps, b, category),
        outs.len() == ps.len(),
        forall|j: int| 0 <= j < outs.len() ==> #[trigger] outs[j] == taken,
    ensures
        taken ==> batch_imported(ps, outs, n) == well_formed_in_batch(b, category, n),
        !taken ==> batch_imported(ps, outs, n) == 0,
    decreases n,
{
    if n > 0 {
        lemma_batch_all(ps, b, category, outs, taken, (n - 1) as nat);
        assert(item_plan_matches(ps[n - 1], b[n - 1], category));
        assert(outs[n - 1] == taken);
    }
}

proof fn lemma_totals_all(
    plan: Seq<CategoryPlan>,
    ms: Seq<JsonMember>,
    outs: Seq<Vec<bool>>,
    taken: bool,
    n: nat,
)
    requires
        n <= plan.len() == ms.len(),
        forall|i: int| 0 <= i < plan.len() ==> category_plan_matches(#[trigger] plan[i], ms[i]),
        outcomes_fit(plan, outs),
        forall|i: int, j: int|
            0 <= i < outs.len() && 0 <= j < outs[i]@.len() ==> #[trigger] outs[i]@[j] == taken,
    ensures
        taken ==> total_imported(plan, outs, n) == well_formed_in(ms, n),
        !taken ==> total_imported(plan, outs, n) == 0,
    decreases n,
{
    if n > 0 {
        lemma_totals_all(plan, ms, outs, taken, (n - 1) as nat);
        let k = n - 1;
        assert(category_plan_matches(plan[k], ms[k]));
        if let Some(ps) = plan[k].items {
            let b = category_batch(ms[k].value)->Some_0;
            assert(forall|j: int| 0 <= j < outs[k]@.len() ==> #[trigger] outs[k]@[j] == taken);
            lemma_batch_all(ps@, b, ms[k].key@, outs[k]@, taken, ps@.len());
        }
    }
}

/// The counts of an import follow the engine's answers alone; the reducer
/// removes no duplicates. Where the engine takes every insert, the report
/// counts every well-formed item as imported and every other candidate as
/// failed; where it refuses every insert, as on a second import of the same
/// items into a store that rejects duplicate names, nothing is imported and
/// every candidate is counted as failed.
pub proof fn lemma_counts_follow_engine(
    payload: JsonValue,
    plan: Seq<CategoryPlan>,
    outs: Seq<Vec<bool>>,
    taken: bool,
)
    requires
        plan_matches(plan, payload),
        outcomes_fit(plan, outs),
        forall|i: int, j: int|
            0 <= i < outs.len() && 0 <= j < outs[i]@.len() ==> #[trigger] outs[i]@[j] == taken,
    ensures
        taken ==> total_imported(plan, outs, plan.len()) == well_formed_items(payload),
        taken ==> total_failed(plan, outs, plan.len()) == eligible_items(payload)
            - well_formed_items(payload),
        !taken ==> total_imported(plan, outs, plan.len()) == 0,
        !taken ==> total_failed(plan, outs, plan.len()) == eligible_items(payload),
{
    lemma_report_counts_every_candidate(payload, plan, outs);
    if let JsonValue::Object(ms) = payload {
        lemma_totals_all(plan, ms@, outs, taken, plan.len());
    }
}

} // verus!
