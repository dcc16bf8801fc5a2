//! The outcome of a pool of worker threads: every thread is joined, and the
//! failures of all of them are collected rather than the first one aborting
//! the rest.
use vstd::prelude::*;

verus! {

/// A pool thread that ended in failure.
pub struct ThreadFailure {
    /// The thread's ordinal, as in its identity (`1..=pool_size`).
    pub ordinal: usize,
    /// What went wrong.
    pub message: String,
}

impl View for ThreadFailure {
    type V = (nat, Seq<char>);

    open spec fn view(&self) -> (nat, Seq<char>) {
        (self.ordinal as nat, self.message@)
    }
}

/// How each thread ended, in ordinal order: `None` when it returned cleanly,
/// the failure's message otherwise.
pub open spec fn outcomes_view(outcomes: Seq<Option<String>>) -> Seq<Option<Seq<char>>> {
    outcomes.map_values(
        |o: Option<String>|
            match o {
                Some(m) => Some(m@),
                None => None,
            },
    )
}

/// The failures among the first `n` outcomes, with their ordinals, in order.
pub open spec fn failures_of(outcomes: Seq<Option<Seq<char>>>, n: nat) -> Seq<(nat, Seq<char>)>
    decreases n,
{
    if n == 0 {
        Seq::empty()
    } else {
        let before = failures_of(outcomes, (n - 1) as nat);
        match outcomes[n - 1] {
            Some(m) => before.push((n, m)),
            None => before,
        }
    }
}

/// The failures of a pool whose threads ended as `outcomes` says.
pub open spec fn pool_failures(outcomes: Seq<Option<Seq<char>>>) -> Seq<(nat, Seq<char>)> {
    failures_of(outcomes, outcomes.len())
}

proof fn lemma_no_failures(outcomes: Seq<Option<Seq<char>>>, n: nat)
    requires
        n <= outcomes.len(),
    ensures
        failures_of(outcomes, n).len() == 0 <==> forall|i: int| 0 <= i < n ==> outcomes[i] is None,
    decreases n,
{
    if n > 0 {
        lemma_no_failures(outcomes, (n - 1) as nat);
    }
}

/// Gathers how the threads of a pool ended: `Ok` when every one returned
/// cleanly, else every failure with the ordinal of its thread, in order.
pub fn join_outcome(outcomes: &Vec<Option<String>>) -> (r: Result<(), Vec<ThreadFailure>>)
    ensures
        r is Ok <==> forall|i: int| 0 <= i < outcomes@.len() ==> outcomes@[i] is None,
        r matches Err(fs) ==> fs@.map_values(|f: ThreadFailure| f@) == pool_failures(
            outcomes_view(outcomes@),
        ),
{
    let ghost outs = outcomes_view(outcomes@);
    let mut failures: Vec<ThreadFailure> = Vec::new();
    let mut i: usize = 0;
    while i < outcomes.len()
        invariant
            i <= outcomes@.len(),
            outs == outcomes_view(outcomes@),
            failures@.map_values(|f: ThreadFailure| f@) == failures_of(outs, i as nat),
        decreases outcomes@.len() - i,
    {
        let ghost before = failures@;
        match &outcomes[i] {
            Some(m) => {
                failures.push(ThreadFailure { ordinal: i + 1, message: m.clone() });
                assert(failures@.map_values(|f: ThreadFailure| f@) =~= before.map_values(
                    |f: ThreadFailure| f@,
                ).push(((i + 1) as nat, m@)));
            },
            None => {},
        }
        i = i + 1;
    }
    proof {
        assert(outs.len() == outcomes@.len());
        lemma_no_failures(outs, outs.len());
        assert(failures@.map_values(|f: ThreadFailure| f@).len() == failures@.len());
        assert forall|j: int| 0 <= j < outcomes@.len() implies (outcomes@[j] is None <==> outs[j] is None) by {
            assert(outs[j] == match outcomes@[j] { Some(m) => Some(m@), None => None::<Seq<char>> });
        }
    }
    if failures.len() == 0 {
        assert forall|j: int| 0 <= j < outcomes@.len() implies outcomes@[j] is None by {
            assert(outs[j] is None);
        }
        Ok(())
    } else {
        assert(exists|j: int| 0 <= j < outs.len() && !(outs[j] is None));
        Err(failures)
    }
}

} // verus!
