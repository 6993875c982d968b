//! The sorting engine: six multi-key orderings over tasks, implemented as a
//! stable insertion sort against a per-mode comparator, with the engine's
//! laws proved — the output is a permutation of the input, it is ordered by
//! the mode's keys, sorting is idempotent, and the name modes follow plain
//! lexicographic name order.

use vstd::prelude::*;

use crate::order::lemma_lex_antisymmetric;
use crate::order::lemma_lex_total;
use crate::order::lemma_lex_transitive;
use crate::order::lex_cmp;
use crate::order::lex_le;
use crate::order::lex_lt;
use crate::tasks::SortMode;
use crate::tasks::Task;
use crate::tasks::urgency_rank;

verus! {

/// Ascending due order: a dated task comes before an undated one, and among
/// dated tasks the earlier instant comes first.
pub open spec fn due_lt(a: Task, b: Task) -> bool {
    match (a.due, b.due) {
        (Some(x), Some(y)) => x < y,
        (Some(_), None) => true,
        (None, Some(_)) => false,
        (None, None) => false,
    }
}

/// Reversed due order with undated tasks in front: an undated task comes
/// before a dated one, and among dated tasks the later instant comes first.
pub open spec fn due_lt_rev(a: Task, b: Task) -> bool {
    match (a.due, b.due) {
        (Some(x), Some(y)) => x > y,
        (Some(_), None) => false,
        (None, Some(_)) => true,
        (None, None) => false,
    }
}

/// Strictly less urgent.
pub open spec fn urg_lt(a: Task, b: Task) -> bool {
    urgency_rank(a.urgency) < urgency_rank(b.urgency)
}

/// `a` comes no later than `b` under the given mode: each mode compares its
/// primary key first and breaks ties with the remaining keys, so that tasks
/// tied on every key are mutually ordered.
pub open spec fn task_le(mode: SortMode, a: Task, b: Task) -> bool {
    match mode {
        SortMode::UrgencyAscending => urg_lt(a, b) || (a.urgency == b.urgency && (due_lt(a, b) || (
        a.due == b.due && lex_le(a.name@, b.name@)))),
        SortMode::UrgencyDescending => urg_lt(b, a) || (a.urgency == b.urgency && (due_lt(a, b) || (
        a.due == b.due && lex_le(a.name@, b.name@)))),
        SortMode::DaysLeftAscending => due_lt(a, b) || (a.due == b.due && (urg_lt(b, a) || (
        a.urgency == b.urgency && lex_le(a.name@, b.name@)))),
        SortMode::DaysLeftDescending => due_lt_rev(a, b) || (a.due == b.due && (urg_lt(b, a) || (
        a.urgency == b.urgency && lex_le(a.name@, b.name@)))),
        SortMode::NameAscending => lex_lt(a.name@, b.name@) || (a.name@ == b.name@ && (urg_lt(b, a)
            || (a.urgency == b.urgency && (due_lt(a, b) || a.due == b.due)))),
        SortMode::NameDescending => lex_lt(b.name@, a.name@) || (a.name@ == b.name@ && (urg_lt(b, a)
            || (a.urgency == b.urgency && (due_lt(a, b) || a.due == b.due)))),
    }
}

/// Under every mode any two tasks are comparable.
pub proof fn lemma_task_le_total(mode: SortMode, a: Task, b: Task)
    ensures
        task_le(mode, a, b) || task_le(mode, b, a),
{
    lemma_lex_total(a.name@, b.name@);
    lemma_lex_antisymmetric(a.name@, b.name@);
}

/// Under every mode the order is transitive.
pub proof fn lemma_task_le_transitive(mode: SortMode, a: Task, b: Task, c: Task)
    requires
        task_le(mode, a, b),
        task_le(mode, b, c),
    ensures
        task_le(mode, a, c),
{
    lemma_lex_total(a.name@, b.name@);
    lemma_lex_total(b.name@, c.name@);
    lemma_lex_total(a.name@, c.name@);
    lemma_lex_antisymmetric(a.name@, b.name@);
    lemma_lex_antisymmetric(b.name@, c.name@);
    lemma_lex_antisymmetric(a.name@, c.name@);
    if lex_le(a.name@, b.name@) && lex_le(b.name@, c.name@) {
        lemma_lex_transitive(a.name@, b.name@, c.name@);
    }
    if lex_le(c.name@, b.name@) && lex_le(b.name@, a.name@) {
        lemma_lex_transitive(c.name@, b.name@, a.name@);
    }
}

/// Every pair of positions in the sequence is ordered by the mode.
pub open spec fn sorted_by_mode(mode: SortMode, s: Seq<Task>) -> bool {
    forall|i: int, j: int| 0 <= i <= j < s.len() ==> #[trigger] task_le(mode, s[i], s[j])
}

/// Where `x` belongs in the sorted sequence `s`: after every element that
/// comes no later than `x`, so that an element tied with `x` keeps its place.
pub open spec fn insert_sorted(mode: SortMode, x: Task, s: Seq<Task>) -> Seq<Task>
    decreases s.len(),
{
    if s.len() == 0 {
        seq![x]
    } else if task_le(mode, s[0], x) {
        seq![s[0]] + insert_sorted(mode, x, s.drop_first())
    } else {
        seq![x] + s
    }
}

/// The sorting engine's meaning: insert each element, in input order, into
/// the sorted sequence built from the elements before it. Later elements are
/// placed after the elements they tie with, so the sort is stable.
pub open spec fn sort_spec(mode: SortMode, s: Seq<Task>) -> Seq<Task>
    decreases s.len(),
{
    if s.len() == 0 {
        Seq::empty()
    } else {
        insert_sorted(mode, s.last(), sort_spec(mode, s.drop_last()))
    }
}

/// Inserting adds exactly one occurrence of the inserted task.
pub proof fn lemma_insert_sorted_multiset(mode: SortMode, x: Task, s: Seq<Task>)
    ensures
        insert_sorted(mode, x, s).to_multiset() == s.to_multiset().insert(x),
    decreases s.len(),
{
    broadcast use vstd::seq_lib::group_to_multiset_ensures;

    if s.len() == 0 {
        assert(insert_sorted(mode, x, s) =~= Seq::empty().push(x));
        assert(Seq::<Task>::empty().push(x).to_multiset() =~= s.to_multiset().insert(x));
    } else if task_le(mode, s[0], x) {
        lemma_insert_sorted_multiset(mode, x, s.drop_first());
        assert(seq![s[0]] + insert_sorted(mode, x, s.drop_first()) =~= insert_sorted(
            mode,
            x,
            s.drop_first(),
        ).insert(0, s[0]));
        assert(insert_sorted(mode, x, s.drop_first()).insert(0, s[0]).to_multiset()
            =~= insert_sorted(mode, x, s.drop_first()).to_multiset().insert(s[0]));
        assert(s =~= s.drop_first().insert(0, s[0]));
        assert(s.to_multiset() =~= s.drop_first().to_multiset().insert(s[0]));
        assert(insert_sorted(mode, x, s).to_multiset() =~= s.to_multiset().insert(x));
    } else {
        assert(seq![x] + s =~= s.insert(0, x));
        assert(s.insert(0, x).to_multiset() =~= s.to_multiset().insert(x));
    }
}

/// Inserting into a sorted sequence keeps it sorted.
pub proof fn lemma_insert_sorted_sorted(mode: SortMode, x: Task, s: Seq<Task>)
    requires
        sorted_by_mode(mode, s),
    ensures
        sorted_by_mode(mode, insert_sorted(mode, x, s)),
    decreases s.len(),
{
    let r = insert_sorted(mode, x, s);
    if s.len() == 0 {
        assert forall|i: int, j: int| 0 <= i <= j < r.len() implies #[trigger] task_le(
            mode,
            r[i],
            r[j],
        ) by {
            lemma_task_le_total(mode, x, x);
        }
    } else if task_le(mode, s[0], x) {
        assert(sorted_by_mode(mode, s.drop_first())) by {
            assert forall|i: int, j: int|
                0 <= i <= j < s.drop_first().len() implies #[trigger] task_le(
                mode,
                s.drop_first()[i],
                s.drop_first()[j],
            ) by {
                assert(task_le(mode, s[i + 1], s[j + 1]));
            }
        }
        lemma_insert_sorted_sorted(mode, x, s.drop_first());
        let rr = insert_sorted(mode, x, s.drop_first());
        lemma_insert_sorted_contains(mode, x, s.drop_first());
        assert forall|i: int, j: int| 0 <= i <= j < r.len() implies #[trigger] task_le(
            mode,
            r[i],
            r[j],
        ) by {
            if i == 0 && j > 0 {
                assert(r[j] == rr[j - 1]);
                assert(rr.contains(rr[j - 1]));
                let w = rr[j - 1];
                if w == x {
                    assert(task_le(mode, s[0], x));
                } else {
                    assert(s.drop_first().contains(w));
                    let k = choose|k: int|
                        0 <= k < s.drop_first().len() && s.drop_first()[k] == w;
                    assert(task_le(mode, s[0], s[k + 1]));
                }
            } else if i > 0 {
                assert(task_le(mode, rr[i - 1], rr[j - 1]));
            } else {
                lemma_task_le_total(mode, r[0], r[0]);
            }
        }
    } else {
        lemma_task_le_total(mode, x, s[0]);
        assert forall|i: int, j: int| 0 <= i <= j < r.len() implies #[trigger] task_le(
            mode,
            r[i],
            r[j],
        ) by {
            if i == 0 && j > 0 {
                assert(r[j] == s[j - 1]);
                assert(task_le(mode, s[0], s[j - 1]));
                lemma_task_le_transitive(mode, x, s[0], s[j - 1]);
            } else if i > 0 {
                assert(task_le(mode, s[i - 1], s[j - 1]));
            } else {
                lemma_task_le_total(mode, r[0], r[0]);
            }
        }
    }
}

/// Everything in the result of an insertion is the inserted task or one of
/// the sequence's own.
pub proof fn lemma_insert_sorted_contains(mode: SortMode, x: Task, s: Seq<Task>)
    ensures
        forall|w: Task|
            #[trigger] insert_sorted(mode, x, s).contains(w) <==> (w == x || s.contains(w)),
    decreases s.len(),
{
    broadcast use vstd::seq_lib::group_to_multiset_ensures;

    lemma_insert_sorted_multiset(mode, x, s);
    assert forall|w: Task| #[trigger] insert_sorted(mode, x, s).contains(w) <==> (w == x
        || s.contains(w)) by {
        assert(insert_sorted(mode, x, s).contains(w) <==> insert_sorted(
            mode,
            x,
            s,
        ).to_multiset().count(w) > 0);
        assert(s.contains(w) <==> s.to_multiset().count(w) > 0);
    }
}

/// When `x` comes after everything in `s`, insertion appends it.
pub proof fn lemma_insert_sorted_at_end(mode: SortMode, x: Task, s: Seq<Task>)
    requires
        forall|i: int| 0 <= i < s.len() ==> task_le(mode, #[trigger] s[i], x),
    ensures
        insert_sorted(mode, x, s) == s.push(x),
    decreases s.len(),
{
    if s.len() == 0 {
        assert(insert_sorted(mode, x, s) =~= s.push(x));
    } else {
        assert(task_le(mode, s[0], x));
        assert forall|i: int| 0 <= i < s.drop_first().len() implies task_le(
            mode,
            #[trigger] s.drop_first()[i],
            x,
        ) by {
            assert(task_le(mode, s[i + 1], x));
        }
        lemma_insert_sorted_at_end(mode, x, s.drop_first());
        assert(seq![s[0]] + s.drop_first().push(x) =~= s.push(x));
    }
}

/// Where the first strictly later element stands at `i`, insertion places
/// `x` exactly there.
pub proof fn lemma_insert_sorted_at(mode: SortMode, x: Task, s: Seq<Task>, i: int)
    requires
        0 <= i <= s.len(),
        forall|j: int| 0 <= j < i ==> task_le(mode, #[trigger] s[j], x),
        i < s.len() ==> !task_le(mode, s[i], x),
    ensures
        insert_sorted(mode, x, s) == s.insert(i, x),
    decreases i,
{
    if i == 0 {
        if s.len() == 0 {
            assert(insert_sorted(mode, x, s) =~= s.insert(0, x));
        } else {
            assert(!task_le(mode, s[0], x));
            assert(seq![x] + s =~= s.insert(0, x));
        }
    } else {
        assert(task_le(mode, s[0], x));
        assert forall|j: int| 0 <= j < i - 1 implies task_le(
            mode,
            #[trigger] s.drop_first()[j],
            x,
        ) by {
            assert(task_le(mode, s[j + 1], x));
        }
        assert(i - 1 < s.drop_first().len() ==> !task_le(mode, s.drop_first()[i - 1], x));
        lemma_insert_sorted_at(mode, x, s.drop_first(), i - 1);
        assert(seq![s[0]] + s.drop_first().insert(i - 1, x) =~= s.insert(i, x));
    }
}

/// The engine returns a permutation of its input: the same tasks, each the
/// same number of times.
pub proof fn lemma_sort_permutation(mode: SortMode, s: Seq<Task>)
    ensures
        sort_spec(mode, s).to_multiset() == s.to_multiset(),
        sort_spec(mode, s).len() == s.len(),
    decreases s.len(),
{
    broadcast use vstd::seq_lib::group_to_multiset_ensures;

    assert(sort_spec(mode, s).len() == sort_spec(mode, s).to_multiset().len());
    assert(s.len() == s.to_multiset().len());
    if s.len() == 0 {
        assert(sort_spec(mode, s).to_multiset() =~= s.to_multiset());
    } else {
        lemma_sort_permutation(mode, s.drop_last());
        lemma_insert_sorted_multiset(mode, s.last(), sort_spec(mode, s.drop_last()));
        assert(s =~= s.drop_last().push(s.last()));
        assert(s.drop_last().push(s.last()).to_multiset() =~= s.drop_last().to_multiset().insert(
            s.last(),
        ));
    }
}

/// The engine's output is ordered by the mode's keys.
pub proof fn lemma_sort_sorted(mode: SortMode, s: Seq<Task>)
    ensures
        sorted_by_mode(mode, sort_spec(mode, s)),
    decreases s.len(),
{
    if s.len() > 0 {
        lemma_sort_sorted(mode, s.drop_last());
        lemma_insert_sorted_sorted(mode, s.last(), sort_spec(mode, s.drop_last()));
    }
}

/// A sequence that is already ordered comes back unchanged: sorting is
/// idempotent.
pub proof fn lemma_sorted_fixed(mode: SortMode, s: Seq<Task>)
    requires
        sorted_by_mode(mode, s),
    ensures
        sort_spec(mode, s) == s,
    decreases s.len(),
{
    if s.len() > 0 {
        assert(sorted_by_mode(mode, s.drop_last())) by {
            assert forall|i: int, j: int|
                0 <= i <= j < s.drop_last().len() implies #[trigger] task_le(
                mode,
                s.drop_last()[i],
                s.drop_last()[j],
            ) by {
                assert(task_le(mode, s[i], s[j]));
            }
        }
        lemma_sorted_fixed(mode, s.drop_last());
        assert forall|i: int| 0 <= i < s.drop_last().len() implies task_le(
            mode,
            #[trigger] s.drop_last()[i],
            s.last(),
        ) by {
            assert(task_le(mode, s[i], s[s.len() - 1]));
        }
        lemma_insert_sorted_at_end(mode, s.last(), s.drop_last());
        assert(s.drop_last().push(s.last()) =~= s);
    }
}

/// Sorting twice under one mode gives the same sequence as sorting once.
pub proof fn lemma_sort_idempotent(mode: SortMode, s: Seq<Task>)
    ensures
        sort_spec(mode, sort_spec(mode, s)) == sort_spec(mode, s),
{
    lemma_sort_sorted(mode, s);
    lemma_sorted_fixed(mode, sort_spec(mode, s));
}

/// An empty input yields an empty output under every mode.
pub proof fn lemma_sort_empty(mode: SortMode)
    ensures
        sort_spec(mode, Seq::<Task>::empty()) == Seq::<Task>::empty(),
{
}

/// Under the name-ascending mode, tasks with distinct names appear in plain
/// lexicographic name order, whatever their urgency or due date.
pub proof fn lemma_name_ascending_order(s: Seq<Task>, i: int, j: int)
    requires
        0 <= i < j < sort_spec(SortMode::NameAscending, s).len(),
        sort_spec(SortMode::NameAscending, s)[i].name@ != sort_spec(
            SortMode::NameAscending,
            s,
        )[j].name@,
    ensures
        lex_lt(
            sort_spec(SortMode::NameAscending, s)[i].name@,
            sort_spec(SortMode::NameAscending, s)[j].name@,
        ),
{
    lemma_sort_sorted(SortMode::NameAscending, s);
    assert(task_le(
        SortMode::NameAscending,
        sort_spec(SortMode::NameAscending, s)[i],
        sort_spec(SortMode::NameAscending, s)[j],
    ));
}

/// Under the name-descending mode, tasks with distinct names appear in the
/// exact reverse of lexicographic name order.
pub proof fn lemma_name_descending_order(s: Seq<Task>, i: int, j: int)
    requires
        0 <= i < j < sort_spec(SortMode::NameDescending, s).len(),
        sort_spec(SortMode::NameDescending, s)[i].name@ != sort_spec(
            SortMode::NameDescending,
            s,
        )[j].name@,
    ensures
        lex_lt(
            sort_spec(SortMode::NameDescending, s)[j].name@,
            sort_spec(SortMode::NameDescending, s)[i].name@,
        ),
{
    lemma_sort_sorted(SortMode::NameDescending, s);
    assert(task_le(
        SortMode::NameDescending,
        sort_spec(SortMode::NameDescending, s)[i],
        sort_spec(SortMode::NameDescending, s)[j],
    ));
}

/// Three-way ascending due comparison: 0 when `a`'s due key comes first,
/// 1 when the due fields are equal, 2 when `b`'s comes first.
fn due_cmp(a: &Task, b: &Task) -> (r: u8)
    ensures
        r == 0 ==> due_lt(*a, *b),
        r == 1 ==> a.due == b.due,
        r == 2 ==> due_lt(*b, *a),
        r == 0 || r == 1 || r == 2,
{
    match (a.due, b.due) {
        (Some(x), Some(y)) => {
            if x < y {
                0
            } else if y < x {
                2
            } else {
                1
            }
        },
        (Some(_), None) => 0,
        (None, Some(_)) => 2,
        (None, None) => 1,
    }
}

/// Whether `a` comes no later than `b` under the given mode, as executable
/// code; agrees exactly with `task_le`.
pub fn task_le_exec(mode: SortMode, a: &Task, b: &Task) -> (r: bool)
    ensures
        r == task_le(mode, *a, *b),
{
    proof {
        lemma_lex_total(a.name@, b.name@);
        lemma_lex_antisymmetric(a.name@, b.name@);
    }
    let ra = a.urgency.rank();
    let rb = b.urgency.rank();
    match mode {
        SortMode::UrgencyAscending => {
            if ra < rb {
                true
            } else if rb < ra {
                false
            } else {
                let d = due_cmp(a, b);
                if d == 0 {
                    true
                } else if d == 2 {
                    false
                } else {
                    lex_cmp(a.name.as_str(), b.name.as_str()) <= 1
                }
            }
        },
        SortMode::UrgencyDescending => {
            if rb < ra {
                true
            } else if ra < rb {
                false
            } else {
                let d = due_cmp(a, b);
                if d == 0 {
                    true
                } else if d == 2 {
                    false
                } else {
                    lex_cmp(a.name.as_str(), b.name.as_str()) <= 1
                }
            }
        },
        SortMode::DaysLeftAscending => {
            let d = due_cmp(a, b);
            if d == 0 {
                true
            } else if d == 2 {
                false
            } else if rb < ra {
                true
            } else if ra < rb {
                false
            } else {
                lex_cmp(a.name.as_str(), b.name.as_str()) <= 1
            }
        },
        SortMode::DaysLeftDescending => {
            let d = due_cmp(b, a);
            let undated_first = match (a.due, b.due) {
                (None, Some(_)) => true,
                (Some(_), None) => false,
                _ => d == 0,
            };
            let dated_first = match (a.due, b.due) {
                (None, Some(_)) => false,
                (Some(_), None) => true,
                _ => d == 2,
            };
            if undated_first {
                true
            } else if dated_first {
                false
            } else if rb < ra {
                true
            } else if ra < rb {
                false
            } else {
                lex_cmp(a.name.as_str(), b.name.as_str()) <= 1
            }
        },
        SortMode::NameAscending => {
            let n = lex_cmp(a.name.as_str(), b.name.as_str());
            if n == 0 {
                true
            } else if n == 2 {
                false
            } else if rb < ra {
                true
            } else if ra < rb {
                false
            } else {
                due_cmp(a, b) <= 1
            }
        },
        SortMode::NameDescending => {
            let n = lex_cmp(b.name.as_str(), a.name.as_str());
            if n == 0 {
                true
            } else if n == 2 {
                false
            } else if rb < ra {
                true
            } else if ra < rb {
                false
            } else {
                due_cmp(a, b) <= 1
            }
        },
    }
}

/// Place one task into an already ordered vector, after every task that
/// comes no later than it.
fn insert_in_order(v: Vec<Task>, x: Task, mode: SortMode) -> (r: Vec<Task>)
    ensures
        r@ == insert_sorted(mode, x, v@),
{
    let mut v = v;
    let ghost orig = v@;
    let mut i: usize = 0;
    loop
        invariant_except_break
            i <= v.len(),
            v@ == orig,
            forall|j: int| 0 <= j < i ==> task_le(mode, #[trigger] orig[j], x),
        ensures
            i <= v.len(),
            v@ == orig,
            forall|j: int| 0 <= j < i ==> task_le(mode, #[trigger] orig[j], x),
            i < v@.len() ==> !task_le(mode, v@[i as int], x),
        decreases v.len() - i,
    {
        if i == v.len() {
            break ;
        }
        if !task_le_exec(mode, &v[i], &x) {
            break ;
        }
        i = i + 1;
    }
    proof {
        lemma_insert_sorted_at(mode, x, v@, i as int);
    }
    v.insert(i, x);
    v
}

/// Order the given tasks by the requested mode. The result is exactly the
/// stable multi-key ordering `sort_spec` describes: a permutation of the
/// input, ordered by the mode's keys.
pub fn sort_tasks(tasks: Vec<Task>, mode: SortMode) -> (r: Vec<Task>)
    ensures
        r@ == sort_spec(mode, tasks@),
        r@.to_multiset() == tasks@.to_multiset(),
        sorted_by_mode(mode, r@),
        r@.len() == tasks@.len(),
{
    let ghost orig = tasks@;
    let mut rest = tasks;
    let mut out: Vec<Task> = Vec::new();
    proof {
        assert(orig.take(0) =~= Seq::<Task>::empty());
        assert(orig.skip(0) =~= orig);
    }
    while rest.len() > 0
        invariant
            rest@.len() <= orig.len(),
            rest@ == orig.skip(orig.len() - rest@.len()),
            out@ == sort_spec(mode, orig.take(orig.len() - rest@.len())),
        decreases rest@.len(),
    {
        let ghost k = orig.len() - rest@.len();
        let t = rest.remove(0);
        proof {
            assert(t == orig[k]) by {
                assert(orig.skip(k)[0] == orig[k]);
            }
            assert(rest@ =~= orig.skip(k + 1)) by {
                assert forall|j: int| 0 <= j < rest@.len() implies rest@[j] == orig.skip(k + 1)[j]
                    by {
                    assert(orig.skip(k)[j + 1] == orig[k + j + 1]);
                }
            }
        }
        out = insert_in_order(out, t, mode);
        proof {
            let taken = orig.take(k + 1);
            assert(taken.drop_last() =~= orig.take(k));
            assert(taken.last() == orig[k]);
            assert(out@ == sort_spec(mode, orig.take(k + 1)));
        }
    }
    proof {
        assert(orig.take(orig.len() as int) =~= orig);
        lemma_sort_permutation(mode, orig);
        lemma_sort_sorted(mode, orig);
    }
    out
}

} // verus!
