//! The evaluation pool's decisions: reducing scored outcomes to a winner,
//! in batch over a list and step by step over a live stream raced against a
//! deadline. Running candidates and waiting on time stay with the caller.
use crate::primitives::{u256_value, word_gt, U256};
use vstd::prelude::*;

verus! {

/// The winning candidate (by its position, or its arrival ticket) and its score.
#[derive(Clone, Copy, Debug)]
pub struct Best {
    pub index: usize,
    pub score: U256,
}

/// Why a batch has no winner.
#[derive(Clone, Copy, Debug, PartialEq, Eq, Structural)]
pub enum BatchError {
    /// The candidate list was empty.
    Empty,
    /// Every candidate was nonviable.
    AllNonviable,
}

/// Whether position `i` of the outcomes holds a viable score.
pub open spec fn viable(outcomes: Seq<Option<U256>>, i: int) -> bool {
    0 <= i < outcomes.len() && outcomes[i] is Some
}

/// `b` is the last viable outcome of greatest score.
pub open spec fn is_last_max(outcomes: Seq<Option<U256>>, b: Best) -> bool {
    &&& viable(outcomes, b.index as int)
    &&& outcomes[b.index as int] == Some(b.score)
    &&& forall|i: int| #[trigger] viable(outcomes, i) ==> u256_value(outcomes[i]->Some_0) <= u256_value(b.score)
    &&& forall|i: int| #[trigger] viable(outcomes, i) && i > b.index ==> u256_value(outcomes[i]->Some_0) < u256_value(b.score)
}

/// Reduces the outcomes of a batch of candidates (`None` where a candidate
/// was nonviable) to the last one of greatest score. An empty batch, or one
/// where nothing was viable, is an error.
pub fn find_best(outcomes: &Vec<Option<U256>>) -> (r: Result<Best, BatchError>)
    ensures
        (r == Err::<Best, BatchError>(BatchError::Empty)) <==> outcomes@.len() == 0,
        (r == Err::<Best, BatchError>(BatchError::AllNonviable)) <==> (outcomes@.len() > 0
            && forall|i: int| !#[trigger] viable(outcomes@, i)),
        r is Ok ==> is_last_max(outcomes@, r->Ok_0),
{
    if outcomes.len() == 0 {
        return Err(BatchError::Empty);
    }
    let mut best: Option<Best> = None;
    let mut i: usize = 0;
    while i < outcomes.len()
        invariant
            i <= outcomes.len(),
            best is None ==> forall|j: int| 0 <= j < i ==> !#[trigger] viable(outcomes@, j),
            best is Some ==> {
                let b = best->Some_0;
                &&& b.index < i
                &&& outcomes@[b.index as int] == Some(b.score)
                &&& forall|j: int| #[trigger] viable(outcomes@, j) && j < i ==> u256_value(outcomes@[j]->Some_0)
                    <= u256_value(b.score)
                &&& forall|j: int| #[trigger] viable(outcomes@, j) && b.index < j < i ==> u256_value(
                    outcomes@[j]->Some_0,
                ) < u256_value(b.score)
            },
        decreases outcomes.len() - i,
    {
        if let Some(s) = outcomes[i] {
            let replace = match best {
                None => true,
                Some(b) => !word_gt(&b.score, &s),
            };
            if replace {
                best = Some(Best { index: i, score: s });
            }
        }
        i = i + 1;
    }
    match best {
        Some(b) => {
            assert(viable(outcomes@, b.index as int));
            Ok(b)
        },
        None => Err(BatchError::AllNonviable),
    }
}

/// Where a streaming evaluation stands.
#[derive(Clone, Copy, Debug, PartialEq, Eq, Structural)]
pub enum Phase {
    /// Taking new candidates and collecting results.
    Open,
    /// The source is exhausted: no new jobs, waiting for those in flight.
    Draining,
    /// Finished: the winner, if any, has been handed out.
    Done,
}

/// What happened since the last step.
#[derive(Clone, Copy, Debug)]
pub enum Event {
    /// The deadline passed. It wins over anything ready at the same instant.
    Deadline,
    /// A new candidate arrived from the source.
    Arrived,
    /// The source is exhausted.
    SourceClosed,
    /// The job with this ticket resolved: its score, or `None` where the
    /// candidate was nonviable or the job was abandoned.
    Completed(usize, Option<U256>),
}

/// What the caller must do next.
#[derive(Clone, Copy, Debug)]
pub enum Action {
    /// Spawn a job for the candidate that just arrived, under this ticket.
    Spawn(usize),
    /// Wait for the next event.
    Wait,
    /// Stop: this is the result of the run.
    Finish(Option<Best>),
}

/// The running best after a job resolves: a score replaces the best only if
/// it is strictly greater, so among equal scores the first to complete wins.
pub open spec fn improved(best: Option<Best>, ticket: usize, outcome: Option<U256>) -> Option<Best> {
    match outcome {
        None => best,
        Some(s) => match best {
            None => Some(Best { index: ticket, score: s }),
            Some(b) => if u256_value(s) > u256_value(b.score) {
                Some(Best { index: ticket, score: s })
            } else {
                best
            },
        },
    }
}

/// The coordinator of a streaming evaluation, driven one event at a time.
#[derive(Clone, Copy, Debug)]
pub struct StreamState {
    pub phase: Phase,
    /// Jobs spawned and not yet resolved.
    pub in_flight: usize,
    /// The ticket the next spawned job gets.
    pub next_ticket: usize,
    /// The best result so far.
    pub best: Option<Best>,
}

impl StreamState {
    /// A run that has taken nothing yet.
    pub fn new() -> (r: StreamState)
        ensures
            r.phase == Phase::Open,
            r.in_flight == 0,
            r.next_ticket == 0,
            r.best is None,
    {
        StreamState { phase: Phase::Open, in_flight: 0, next_ticket: 0, best: None }
    }

    /// Folds in one event and says what to do next.
    pub fn step(&mut self, event: Event) -> (r: Action)
        requires
            old(self).in_flight < usize::MAX,
            old(self).next_ticket < usize::MAX,
        ensures
            old(self).phase == Phase::Done ==> *final(self) == *old(self) && r is Wait,
            old(self).phase != Phase::Done ==> match event {
                Event::Deadline => *final(self) == (StreamState { phase: Phase::Done, ..*old(self) })
                    && r == Action::Finish(old(self).best),
                Event::Arrived => if old(self).phase == Phase::Open {
                    &&& r == Action::Spawn(old(self).next_ticket)
                    &&& *final(self) == (StreamState {
                        in_flight: (old(self).in_flight + 1) as usize,
                        next_ticket: (old(self).next_ticket + 1) as usize,
                        ..*old(self)
                    })
                } else {
                    r is Wait && *final(self) == *old(self)
                },
                Event::SourceClosed => final(self).best == old(self).best
                    && final(self).in_flight == old(self).in_flight
                    && final(self).next_ticket == old(self).next_ticket
                    && if old(self).in_flight == 0 {
                        final(self).phase == Phase::Done && r == Action::Finish(old(self).best)
                    } else {
                        final(self).phase == Phase::Draining && r is Wait
                    },
                Event::Completed(ticket, outcome) => {
                    let in_flight = if old(self).in_flight > 0 { old(self).in_flight - 1 } else { 0 };
                    let best = improved(old(self).best, ticket, outcome);
                    &&& final(self).best == best
                    &&& final(self).in_flight == in_flight
                    &&& final(self).next_ticket == old(self).next_ticket
                    &&& if old(self).phase == Phase::Draining && in_flight == 0 {
                        final(self).phase == Phase::Done && r == Action::Finish(best)
                    } else {
                        final(self).phase == old(self).phase && r is Wait
                    }
                },
            },
    {
        if self.phase == Phase::Done {
            return Action::Wait;
        }
        match event {
            Event::Deadline => {
                self.phase = Phase::Done;
                Action::Finish(self.best)
            },
            Event::Arrived => {
                if self.phase == Phase::Open {
                    let ticket = self.next_ticket;
                    self.in_flight = self.in_flight + 1;
                    self.next_ticket = self.next_ticket + 1;
                    Action::Spawn(ticket)
                } else {
                    Action::Wait
                }
            },
            Event::SourceClosed => {
                if self.in_flight == 0 {
                    self.phase = Phase::Done;
                    Action::Finish(self.best)
                } else {
                    self.phase = Phase::Draining;
                    Action::Wait
                }
            },
            Event::Completed(ticket, outcome) => {
                if self.in_flight > 0 {
                    self.in_flight = self.in_flight - 1;
                }
                if let Some(s) = outcome {
                    let replace = match self.best {
                        None => true,
                        Some(b) => word_gt(&s, &b.score),
                    };
                    if replace {
                        self.best = Some(Best { index: ticket, score: s });
                    }
                }
                if self.phase == Phase::Draining && self.in_flight == 0 {
                    self.phase = Phase::Done;
                    Action::Finish(self.best)
                } else {
                    Action::Wait
                }
            },
        }
    }
}

/// Relies on rayon::current_num_threads: the number of worker threads of
/// the pool the caller runs in, which is never zero.
#[verifier::external_body]
fn current_num_threads() -> (r: usize)
    ensures
        r >= 1,
{
    rayon::current_num_threads()
}

/// How many of `n` candidates to evaluate with `threads` workers: one per
/// worker, and no more than there are.
pub fn prefix_len(n: usize, threads: usize) -> (r: usize)
    ensures
        r == (if threads < n { threads } else { n }),
{
    if threads < n {
        threads
    } else {
        n
    }
}

/// How many candidates of a batch of `n` to evaluate: one per worker thread
/// of the current pool, and no more than there are; at least one where there
/// is one.
pub fn batch_size(n: usize) -> (r: usize)
    ensures
        r <= n,
        n > 0 ==> r >= 1,
{
    let t = current_num_threads();
    prefix_len(n, t)
}

/// Of two jobs that complete with equal scores above the running best, the
/// one that completes first is the winner, whatever their tickets.
pub proof fn lemma_first_completed_wins(best: Option<Best>, first: usize, second: usize, s1: U256, s2: U256)
    requires
        u256_value(s1) == u256_value(s2),
        best is None || u256_value(best->Some_0.score) < u256_value(s1),
    ensures
        improved(improved(best, first, Some(s1)), second, Some(s2)) == Some(Best { index: first, score: s1 }),
{
}

/// A nonviable or abandoned job leaves the running best as it was.
pub proof fn lemma_nonviable_dropped(best: Option<Best>, ticket: usize)
    ensures
        improved(best, ticket, None) == best,
{
}

/// With distinct scores the order in which two jobs complete does not
/// change the running best.
pub proof fn lemma_distinct_scores_commute(best: Option<Best>, t1: usize, s1: U256, t2: usize, s2: U256)
    requires
        u256_value(s1) != u256_value(s2),
        best is Some ==> u256_value(best->Some_0.score) != u256_value(s1) && u256_value(best->Some_0.score)
            != u256_value(s2),
    ensures
        improved(improved(best, t1, Some(s1)), t2, Some(s2)) == improved(improved(best, t2, Some(s2)), t1, Some(s1)),
{
}

/// The running best after a sequence of job completions, in completion
/// order, each a ticket and its outcome.
pub open spec fn fold_best(best: Option<Best>, done: Seq<(usize, Option<U256>)>) -> Option<Best>
    decreases done.len(),
{
    if done.len() == 0 {
        best
    } else {
        improved(fold_best(best, done.drop_last()), done.last().0, done.last().1)
    }
}

/// A nonviable or abandoned completion, wherever it falls in the sequence,
/// does not change the winner: the run goes on as if it had not happened.
pub proof fn lemma_nonviable_anywhere(best: Option<Best>, done: Seq<(usize, Option<U256>)>, i: int)
    requires
        0 <= i < done.len(),
        done[i].1 is None,
    ensures
        fold_best(best, done) == fold_best(best, done.remove(i)),
    decreases done.len(),
{
    if i == done.len() - 1 {
        assert(done.remove(i) =~= done.drop_last());
    } else {
        lemma_nonviable_anywhere(best, done.drop_last(), i);
        assert(done.remove(i).drop_last() =~= done.drop_last().remove(i));
        assert(done.remove(i).last() == done.last());
    }
}

/// Starting with no best, the winner after a sequence of completions is one
/// of the viable completions, of a score no viable completion exceeds; there
/// is a winner exactly when some completion was viable.
pub proof fn lemma_fold_best_is_max(done: Seq<(usize, Option<U256>)>)
    ensures
        fold_best(None, done) is Some <==> exists|j: int| 0 <= j < done.len() && (#[trigger] done[j]).1 is Some,
        fold_best(None, done) is Some ==> exists|j: int| {
            &&& 0 <= j < done.len()
            &&& (#[trigger] done[j]).1 == Some(fold_best(None, done)->Some_0.score)
            &&& done[j].0 == fold_best(None, done)->Some_0.index
        },
        forall|j: int| 0 <= j < done.len() && (#[trigger] done[j]).1 is Some ==> u256_value(done[j].1->Some_0) <= u256_value(
            fold_best(None, done)->Some_0.score,
        ),
    decreases done.len(),
{
    if done.len() > 0 {
        let prev = done.drop_last();
        lemma_fold_best_is_max(prev);
        assert forall|j: int| 0 <= j < prev.len() implies #[trigger] prev[j] == done[j] by {}
        let n = done.len() - 1;
        if fold_best(None, prev) is Some && done.last().1 is None {
            let j = choose|j: int| {
                &&& 0 <= j < prev.len()
                &&& (#[trigger] prev[j]).1 == Some(fold_best(None, prev)->Some_0.score)
                &&& prev[j].0 == fold_best(None, prev)->Some_0.index
            };
            assert(done[j] == prev[j]);
        } else if fold_best(None, prev) is Some && done.last().1 is Some {
            let b = fold_best(None, prev)->Some_0;
            if !(u256_value(done.last().1->Some_0) > u256_value(b.score)) {
                let j = choose|j: int| {
                    &&& 0 <= j < prev.len()
                    &&& (#[trigger] prev[j]).1 == Some(fold_best(None, prev)->Some_0.score)
                    &&& prev[j].0 == fold_best(None, prev)->Some_0.index
                };
                assert(done[j] == prev[j]);
            } else {
                assert(done[n] == done.last());
            }
        } else if done.last().1 is Some {
            assert(done[n] == done.last());
        }
        if exists|j: int| 0 <= j < done.len() && (#[trigger] done[j]).1 is Some {
            let j = choose|j: int| 0 <= j < done.len() && (#[trigger] done[j]).1 is Some;
            if j < n {
                assert(prev[j] == done[j]);
            }
        }
        let nb = fold_best(None, done);
        assert forall|j: int| 0 <= j < done.len() && (#[trigger] done[j]).1 is Some implies u256_value(done[j].1->Some_0)
            <= u256_value(nb->Some_0.score) by {
            if j < n {
                assert(prev[j] == done[j]);
            } else {
                assert(done[j] == done.last());
            }
        }
    }
}

} // verus!
