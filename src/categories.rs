//! The category aggregator: how many stored entries each category holds.

use vstd::prelude::*;

verus! {

/// The number of entries stored under one category.
pub struct CategoryCount {
    pub category: String,
    pub count: u64,
}

/// Entry counts per category, each category once, in the order of first
/// appearance, and their sum.
pub struct CategorySummary {
    pub counts: Vec<CategoryCount>,
    pub total: u64,
}

pub open spec fn names(cats: Seq<String>) -> Seq<Seq<char>> {
    cats.map_values(|s: String| s@)
}

/// How many times `c` occurs in `cats`.
pub open spec fn occurrences(cats: Seq<Seq<char>>, c: Seq<char>) -> nat
    decreases cats.len(),
{
    if cats.len() == 0 {
        0
    } else {
        occurrences(cats.drop_last(), c) + if cats.last() == c {
            1nat
        } else {
            0nat
        }
    }
}

/// Sum of the counts of `rows`.
pub open spec fn sum_counts(rows: Seq<CategoryCount>) -> nat
    decreases rows.len(),
{
    if rows.len() == 0 {
        0
    } else {
        sum_counts(rows.drop_last()) + rows.last().count as nat
    }
}

/// No category appears twice.
pub open spec fn distinct_categories(rows: Seq<CategoryCount>) -> bool {
    forall|a: int, b: int|
        0 <= a < b < rows.len() ==> (#[trigger] rows[a]).category@ != (#[trigger] rows[b]).category@
}

/// `rows` counts the categories of `cats`: each category of `cats` has a row,
/// each row's count is the number of entries of its category, and no
/// category has two rows.
pub open spec fn counts_match(rows: Seq<CategoryCount>, cats: Seq<Seq<char>>) -> bool {
    &&& distinct_categories(rows)
    &&& forall|j: int|
        0 <= j < rows.len() ==> (#[trigger] rows[j]).count == occurrences(cats, rows[j].category@)
    &&& forall|c: Seq<char>|
        #[trigger] occurrences(cats, c) > 0 ==> exists|j: int|
            0 <= j < rows.len() && (#[trigger] rows[j]).category@ == c
}

proof fn lemma_sum_update(rows: Seq<CategoryCount>, j: int, r: CategoryCount)
    requires
        0 <= j < rows.len(),
    ensures
        sum_counts(rows.update(j, r)) + rows[j].count == sum_counts(rows) + r.count,
    decreases rows.len(),
{
    let u = rows.update(j, r);
    if j == rows.len() - 1 {
        assert(u.drop_last() =~= rows.drop_last());
    } else {
        assert(u.drop_last() =~= rows.drop_last().update(j, r));
        lemma_sum_update(rows.drop_last(), j, r);
    }
}

/// Index of the row of category `c`.
fn find_category(rows: &Vec<CategoryCount>, c: &String) -> (r: Option<usize>)
    ensures
        match r {
            Some(j) => j < rows@.len() && rows@[j as int].category@ == c@,
            None => forall|j: int| 0 <= j < rows@.len() ==> (#[trigger] rows@[j]).category@ != c@,
        },
{
    let mut j: usize = 0;
    while j < rows.len()
        invariant
            j <= rows@.len(),
            forall|k: int| 0 <= k < j ==> (#[trigger] rows@[k]).category@ != c@,
        decreases rows@.len() - j,
    {
        if rows[j].category == *c {
            return Some(j);
        }
        j = j + 1;
    }
    None
}

/// Folds the categories of every stored entry into per-category counts.
/// The total is the number of entries.
pub fn summarize_categories(categories: &Vec<String>) -> (r: CategorySummary)
    ensures
        counts_match(r.counts@, names(categories@)),
        r.total == categories@.len(),
        r.total == sum_counts(r.counts@),
{
    let mut rows: Vec<CategoryCount> = Vec::new();
    let mut total: u64 = 0;
    let mut i: usize = 0;
    while i < categories.len()
        invariant
            i <= categories@.len(),
            total == i,
            sum_counts(rows@) == i,
            counts_match(rows@, names(categories@).take(i as int)),
            forall|j: int| 0 <= j < rows@.len() ==> (#[trigger] rows@[j]).count <= i,
        decreases categories@.len() - i,
    {
        let ghost prev = names(categories@).take(i as int);
        let ghost next = names(categories@).take(i + 1);
        let ghost c = categories@[i as int]@;
        assert(next.drop_last() =~= prev);
        assert(next.last() == c);
        let cat = &categories[i];
        let ghost before = rows@;
        match find_category(&rows, cat) {
            Some(j) => {
                let row = CategoryCount { category: rows[j].category.clone(), count: rows[j].count + 1 };
                rows.set(j, row);
                proof {
                    lemma_sum_update(before, j as int, row);
                    assert forall|c2: Seq<char>| #[trigger] occurrences(next, c2) > 0 implies exists|k: int|
                        0 <= k < rows@.len() && (#[trigger] rows@[k]).category@ == c2 by {
                        if c2 != c {
                            assert(occurrences(next, c2) == occurrences(prev, c2));
                            let k = choose|k: int| 0 <= k < before.len() && (#[trigger] before[k]).category@ == c2;
                            assert(rows@[k] == before[k]);
                        } else {
                            assert(rows@[j as int].category@ == c2);
                        }
                    }
                }
            },
            None => {
                let row = CategoryCount { category: cat.clone(), count: 1 };
                rows.push(row);
                proof {
                    assert(rows@.drop_last() =~= before);
                    assert forall|c2: Seq<char>| #[trigger] occurrences(next, c2) > 0 implies exists|k: int|
                        0 <= k < rows@.len() && (#[trigger] rows@[k]).category@ == c2 by {
                        if c2 != c {
                            assert(occurrences(next, c2) == occurrences(prev, c2));
                            let k = choose|k: int| 0 <= k < before.len() && (#[trigger] before[k]).category@ == c2;
                            assert(rows@[k] == before[k]);
                        } else {
                            assert(rows@[before.len() as int].category@ == c2);
                        }
                    }
                    assert(occurrences(prev, c) == 0);
                }
            },
        }
        total = total + 1;
        i = i + 1;
    }
    assert(names(categories@).take(categories@.len() as int) =~= names(categories@));
    CategorySummary { counts: rows, total }
}

} // verus!
