//! Walks that edit the rows they pass over.
//!
//! The walk hands each row to a closure, and the closure answers with an
//! `Action`: go on, stop, remove the row, or add rows behind it. Rows that a
//! walk adds are not handed to the closure in the same walk.

use vstd::prelude::*;

verus! {

/// Return value for advanced iterators: what to do with the row that was
/// just passed in.
pub enum Action<I> {
    /// Nothing more needs to be iterated over.
    Break,
    /// Calls the closure with the next row, unless there is no more data.
    Continue,
    /// Remove the row that was just passed in.
    Remove,
    /// Add an arbitrary number of rows, after the provided row.
    /// The rows inserted in this manner will not be walked by the closure.
    Add(Vec<I>),
}

/// An `Action` with the rows it adds as a sequence.
pub enum ActionView<I> {
    Break,
    Continue,
    Remove,
    Add(Seq<I>),
}

impl<I> View for Action<I> {
    type V = ActionView<I>;

    open spec fn view(&self) -> ActionView<I> {
        match *self {
            Action::Break => ActionView::Break,
            Action::Continue => ActionView::Continue,
            Action::Remove => ActionView::Remove,
            Action::Add(rows) => ActionView::Add(rows@),
        }
    }
}

/// What an answer leaves of the row it was given for: the row unless it is
/// removed, and the added rows behind it. A `Break` leaves nothing here:
/// its row is the first of the rows that are not walked.
pub open spec fn left_of<I>(row: I, answer: ActionView<I>) -> Seq<I> {
    match answer {
        ActionView::Break => Seq::empty(),
        ActionView::Continue => seq![row],
        ActionView::Remove => Seq::empty(),
        ActionView::Add(added) => seq![row] + added,
    }
}

/// What the answers leave of the rows they were given for, in order: the
/// row at place `k` is answered with `answers[k]`.
pub open spec fn left_of_walked<I>(rows: Seq<I>, answers: Seq<ActionView<I>>) -> Seq<I>
    decreases answers.len(),
{
    if answers.len() == 0 {
        Seq::empty()
    } else {
        left_of_walked(rows, answers.drop_last()) + left_of(
            rows[answers.len() - 1],
            answers.last(),
        )
    }
}

/// How many of the rows a walk with these answers has passed: a row that
/// is answered with `Break` is not passed.
pub open spec fn passed<I>(answers: Seq<ActionView<I>>) -> int {
    if answers.len() > 0 && answers.last() is Break {
        answers.len() - 1
    } else {
        answers.len() as int
    }
}

/// What a walk leaves of `rows` when the row at each place `k` is answered
/// with `answers[k]`: what the answers leave of the rows that were passed,
/// and then the rows that were not passed, as they were.
pub open spec fn walked<I>(rows: Seq<I>, answers: Seq<ActionView<I>>) -> Seq<I> {
    left_of_walked(rows, answers) + rows.skip(passed(answers))
}

/// Whether `answers` are the answers of a whole walk over `n` rows: one for
/// each row, or fewer with a `Break` as the last; and no `Break` before the
/// last.
pub open spec fn whole_walk<I>(n: nat, answers: Seq<ActionView<I>>) -> bool {
    &&& answers.len() <= n
    &&& forall|k: int| 0 <= k < answers.len() - 1 ==> !(#[trigger] answers[k] is Break)
    &&& answers.len() < n ==> answers.len() > 0 && answers.last() is Break
}

/// Whether `answer` is what `closure` may have answered for `row`.
pub open spec fn answer_of<I, F: Fn(&I) -> Action<I>>(
    closure: F,
    row: I,
    answer: ActionView<I>,
) -> bool {
    exists|a: Action<I>| #[trigger] closure.ensures((&row,), a) && a@ == answer
}

/// Whether `closure` may have given `answers` for the first rows of `rows`,
/// one after the other.
pub open spec fn answered<I, F: Fn(&I) -> Action<I>>(
    closure: F,
    rows: Seq<I>,
    answers: Seq<ActionView<I>>,
) -> bool {
    forall|k: int| 0 <= k < answers.len() ==> #[trigger] answer_of(closure, rows[k], answers[k])
}

/// Walk over `rows`, and do to each row what `closure` answers for it. The
/// rows are handed to the closure in order, up to the first `Break`.
pub fn visit<I: Copy, F: Fn(&I) -> Action<I>>(rows: &mut Vec<I>, closure: F)
    requires
        forall|k: int| 0 <= k < old(rows)@.len() ==> closure.requires((&old(rows)@[k],)),
    ensures
        exists|answers: Seq<ActionView<I>>|
            {
                &&& whole_walk(old(rows)@.len(), answers)
                &&& answered(closure, old(rows)@, answers)
                &&& final(rows)@ == walked(old(rows)@, answers)
            },
{
    let ghost before = rows@;
    let ghost mut answers: Seq<ActionView<I>> = Seq::empty();
    let mut out: Vec<I> = Vec::new();
    let mut i: usize = 0;
    let mut stop = false;
    while i < rows.len() && !stop
        invariant
            rows@ == before,
            i <= before.len(),
            forall|k: int| 0 <= k < before.len() ==> closure.requires((&before[k],)),
            answers.len() == i,
            forall|k: int| 0 <= k < answers.len() - 1 ==> !(#[trigger] answers[k] is Break),
            stop <==> answers.len() > 0 && answers.last() is Break,
            answered(closure, before, answers),
            out@ == left_of_walked(before, answers),
        decreases before.len() - i,
    {
        let row = rows[i];
        let answer = closure(&row);
        let ghost had = out@;
        let ghost heard = answers;
        proof {
            answers = answers.push(answer@);
            assert(answers.drop_last() =~= heard);
            assert(closure.ensures((&before[i as int],), answer));
            assert(answer_of(closure, before[i as int], answer@));
            assert forall|k: int| 0 <= k < answers.len() implies #[trigger] answer_of(
                closure,
                before[k],
                answers[k],
            ) by {
                if k < heard.len() {
                    assert(answer_of(closure, before[k], heard[k]));
                }
            }
            assert(answered(closure, before, answers));
        }
        match answer {
            Action::Break => {
                stop = true;
            },
            Action::Continue => {
                out.push(row);
            },
            Action::Remove => {},
            Action::Add(added) => {
                out.push(row);
                let mut j: usize = 0;
                while j < added.len()
                    invariant
                        j <= added@.len(),
                        out@ == had.push(row) + added@.take(j as int),
                    decreases added@.len() - j,
                {
                    out.push(added[j]);
                    assert(added@.take(j + 1) =~= added@.take(j as int).push(added@[j as int]));
                    j += 1;
                }
                assert(added@.take(j as int) =~= added@);
            },
        }
        assert(out@ =~= left_of_walked(before, answers));
        i += 1;
    }
    let from: usize = if stop {
        i - 1
    } else {
        i
    };
    let mut k: usize = from;
    while k < rows.len()
        invariant
            rows@ == before,
            from <= k <= before.len(),
            out@ == left_of_walked(before, answers) + before.subrange(from as int, k as int),
        decreases before.len() - k,
    {
        out.push(rows[k]);
        k += 1;
    }
    assert(before.subrange(from as int, k as int) =~= before.skip(passed(answers)));
    *rows = out;
    assert(whole_walk(before.len(), answers) && answered(closure, before, answers) && rows@
        == walked(before, answers));
}

} // verus!
