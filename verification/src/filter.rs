//! The filter stage that runs before sorting: completed tasks are dropped
//! unless asked for, tasks whose due instant lies strictly in the past are
//! dropped unless asked for, and undated tasks are never dropped for being
//! overdue.

use vstd::prelude::*;

use crate::tasks::Task;

verus! {

/// Whether listing keeps the task: a completed task only with the completed
/// flag set, a task due strictly before `now` only with the overdue flag
/// set; a task with no due date never falls to the overdue rule.
pub open spec fn retained(t: Task, now: i64, show_completed: bool, show_overdue: bool) -> bool {
    (!t.completed || show_completed) && (match t.due {
        Some(d) => d >= now || show_overdue,
        None => true,
    })
}

/// Keep exactly the tasks that `retained` keeps, in input order.
pub fn filter_tasks(tasks: Vec<Task>, now: i64, show_completed: bool, show_overdue: bool) -> (r:
    Vec<Task>)
    ensures
        r@ == tasks@.filter(|t: Task| retained(t, now, show_completed, show_overdue)),
{
    let ghost orig = tasks@;
    let ghost pred = |t: Task| retained(t, now, show_completed, show_overdue);
    let mut rest = tasks;
    let mut out: Vec<Task> = Vec::new();
    proof {
        reveal(Seq::filter);
        assert(orig.take(0) =~= Seq::<Task>::empty());
        assert(orig.skip(0) =~= orig);
        assert(out@ =~= orig.take(0).filter(pred));
    }
    while rest.len() > 0
        invariant
            rest@.len() <= orig.len(),
            rest@ == orig.skip(orig.len() - rest@.len()),
            out@ == orig.take(orig.len() - rest@.len()).filter(pred),
            pred == (|t: Task| retained(t, now, show_completed, show_overdue)),
        decreases rest@.len(),
    {
        let ghost k = orig.len() - rest@.len();
        let t = rest.remove(0);
        proof {
            assert(t == orig[k]) by {
                assert(orig.skip(k)[0] == orig[k]);
            }
            assert(rest@ =~= orig.skip(k + 1)) by {
                assert forall|j: int| 0 <= j < rest@.len() implies rest@[j] == orig.skip(k + 1)[j]
                    by {
                    assert(orig.skip(k)[j + 1] == orig[k + j + 1]);
                }
            }
        }
        let keep_completed = !t.completed || show_completed;
        let keep_due = match t.due {
            Some(d) => d >= now || show_overdue,
            None => true,
        };
        if keep_completed && keep_due {
            out.push(t);
        }
        proof {
            reveal(Seq::filter);
            let taken = orig.take(k + 1);
            assert(taken.drop_last() =~= orig.take(k));
            assert(taken.last() == orig[k]);
            assert(out@ == orig.take(k + 1).filter(pred));
        }
    }
    proof {
        assert(orig.take(orig.len() as int) =~= orig);
    }
    out
}

} // verus!
