//! Procedures that alternate between decisions and work that is done elsewhere.

use vstd::prelude::*;

verus! {

/// What a procedure does next.
#[derive(Debug)]
pub enum Step<S, C, R> {
    /// Do the work `C`; then the procedure goes on from `S` with what came of it.
    Call(S, C),
    /// The procedure is over.
    Done(R),
}

/// The step after answers came in, one for each call, until there is a result. `next` says what
/// comes after an answer.
pub open spec fn run<S, C, R, A>(
    next: spec_fn(S, A) -> Step<S, C, R>,
    step: Step<S, C, R>,
    answers: Seq<A>,
) -> Step<S, C, R>
    decreases answers.len(),
{
    match step {
        Step::Done(_) => step,
        Step::Call(state, _) => if answers.len() == 0 {
            step
        } else {
            run(next, next(state, answers[0]), answers.skip(1))
        },
    }
}

/// Every answer that is used fits the state that it comes to.
pub open spec fn accepted<S, C, R, A>(
    next: spec_fn(S, A) -> Step<S, C, R>,
    fits: spec_fn(S, A) -> bool,
    step: Step<S, C, R>,
    answers: Seq<A>,
) -> bool
    decreases answers.len(),
{
    match step {
        Step::Done(_) => true,
        Step::Call(state, _) => answers.len() == 0 || {
            &&& fits(state, answers[0])
            &&& accepted(next, fits, next(state, answers[0]), answers.skip(1))
        },
    }
}

/// What holds of the first step and is kept by every answer holds in the end.
pub proof fn lemma_run_keeps<S, C, R, A>(
    next: spec_fn(S, A) -> Step<S, C, R>,
    fits: spec_fn(S, A) -> bool,
    inv: spec_fn(Step<S, C, R>) -> bool,
    step: Step<S, C, R>,
    answers: Seq<A>,
)
    requires
        inv(step),
        forall|state: S, call: C, answer: A|
            #![trigger inv(Step::Call(state, call)), fits(state, answer)]
            inv(Step::Call(state, call)) && fits(state, answer) ==> inv(next(state, answer)),
        accepted(next, fits, step, answers),
    ensures
        inv(run(next, step, answers)),
    decreases answers.len(),
{
    if let Step::Call(state, call) = step {
        if answers.len() > 0 {
            assert(inv(Step::Call(state, call)) && fits(state, answers[0]));
            lemma_run_keeps(next, fits, inv, next(state, answers[0]), answers.skip(1));
        }
    }
}

/// If every answer brings the end closer, there is an end.
pub proof fn lemma_run_ends<S, C, R, A>(
    next: spec_fn(S, A) -> Step<S, C, R>,
    fits: spec_fn(S, A) -> bool,
    left: spec_fn(Step<S, C, R>) -> nat,
    step: Step<S, C, R>,
    answers: Seq<A>,
)
    requires
        forall|state: S, call: C, answer: A|
            #![trigger left(Step::Call(state, call)), fits(state, answer)]
            fits(state, answer) ==> left(next(state, answer)) < left(Step::Call(state, call)),
        forall|state: S, call: C| #[trigger] left(Step::Call(state, call)) > 0,
        accepted(next, fits, step, answers),
        answers.len() >= left(step),
    ensures
        run(next, step, answers) is Done,
    decreases answers.len(),
{
    if let Step::Call(state, call) = step {
        assert(left(Step::Call(state, call)) > 0);
        assert(fits(state, answers[0]));
        lemma_run_ends(next, fits, left, next(state, answers[0]), answers.skip(1));
    }
}

} // verus!
