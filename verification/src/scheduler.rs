//! Finding work: a worker takes from the tail of its own deque first and
//! steals from the head of the others' otherwise.

use crate::content::{Content, ContentView};
use crossbeam_deque::{Steal, Stealer, Worker};
use vstd::prelude::*;

verus! {

/// `crossbeam_deque::Worker`, carried as an opaque value.
#[verifier::external_type_specification]
#[verifier::external_body]
#[verifier::reject_recursive_types(T)]
pub struct ExWorker<T>(crossbeam_deque::Worker<T>);

/// `crossbeam_deque::Stealer`, carried as an opaque value.
#[verifier::external_type_specification]
#[verifier::external_body]
#[verifier::reject_recursive_types(T)]
pub struct ExStealer<T>(crossbeam_deque::Stealer<T>);

/// What one attempt to steal gave.
#[derive(Debug)]
pub enum StealOutcome {
    Success(Content),
    Empty,
    Retry,
}

/// `Worker::pop`: takes a content from the worker's own deque, if it holds
/// one. Other threads steal from the same deque, so nothing is promised of
/// what comes out.
#[verifier::external_body]
pub(crate) fn worker_pop(worker: &Worker<Content>) -> Option<Content> {
    worker.pop()
}

/// `Worker::push`: puts a content into the worker's own deque.
#[verifier::external_body]
pub(crate) fn worker_push(worker: &Worker<Content>, content: Content) {
    worker.push(content)
}

/// `Stealer::steal`: tries to take a content from the head of another
/// worker's deque. Nothing is promised of what comes out.
#[verifier::external_body]
pub(crate) fn stealer_steal(stealer: &Stealer<Content>) -> StealOutcome {
    match stealer.steal() {
        Steal::Success(content) => StealOutcome::Success(content),
        Steal::Empty => StealOutcome::Empty,
        Steal::Retry => StealOutcome::Retry,
    }
}

/// What an attempt to find work ended with.
#[derive(Debug)]
pub enum WorkAttempt {
    /// A content to process.
    Found(Content),
    /// Nothing was found, but some deque asked to be tried again.
    Retry,
    /// Nothing was found and nothing is left to try: the worker may exit.
    Quiesce,
}

/// How a round over the stealers ends when nothing was stolen.
pub fn after_round(retry_seen: bool) -> (attempt: WorkAttempt)
    ensures
        retry_seen ==> attempt is Retry,
        !retry_seen ==> attempt is Quiesce,
{
    if retry_seen {
        WorkAttempt::Retry
    } else {
        WorkAttempt::Quiesce
    }
}

/// One round over the stealers.
#[derive(Debug)]
pub struct Round {
    /// How the round ended.
    pub attempt: WorkAttempt,
    /// How many stealers were consulted.
    pub consulted: usize,
    /// How many of them asked for a retry.
    pub retries: usize,
}

/// What one attempt to steal gave, in plain values.
pub enum StealView {
    Success(ContentView),
    Empty,
    Retry,
}

/// What an attempt to find work ended with, in plain values.
pub enum AttemptView {
    Found(ContentView),
    Retry,
    Quiesce,
}

/// One round over the stealers, in plain values.
pub struct RoundView {
    pub attempt: AttemptView,
    pub consulted: usize,
    pub retries: usize,
}

/// Looks for work once: the worker's own deque first, then one round over
/// the stealers. Whatever the deques give, the outcome is that of
/// `work_after`: a content popped from the own deque is the one found, and
/// no stealer is consulted then; otherwise the stealers are consulted in
/// turn up to the first success, and the outcome is that of the round.
pub fn get_work(worker: &Worker<Content>, stealers: &Vec<Stealer<Content>>) -> (round: Round)
    ensures
        exists|popped: Option<ContentView>| #[trigger]
            work_after(popped, stealers@.len(), round@),
        round.consulted <= stealers@.len(),
        round.retries <= round.consulted,
        !(round.attempt is Found) ==> round.consulted == stealers@.len(),
        round.attempt is Retry <==> !(round.attempt is Found) && round.retries > 0,
        round.attempt is Quiesce <==> !(round.attempt is Found) && round.retries == 0,
{
    let popped = worker_pop(worker);
    let ghost seen = popped_view(popped);
    match after_pop(popped) {
        Some(round) => {
            proof {
                assert(work_after(seen, stealers@.len(), round@));
            }
            round
        },
        None => {
            let round = steal_round(stealers);
            proof {
                assert(work_after(seen, stealers@.len(), round@));
            }
            round
        },
    }
}

impl View for StealOutcome {
    type V = StealView;

    open spec fn view(&self) -> StealView {
        match *self {
            StealOutcome::Success(content) => StealView::Success(content@),
            StealOutcome::Empty => StealView::Empty,
            StealOutcome::Retry => StealView::Retry,
        }
    }
}

impl View for WorkAttempt {
    type V = AttemptView;

    open spec fn view(&self) -> AttemptView {
        match *self {
            WorkAttempt::Found(content) => AttemptView::Found(content@),
            WorkAttempt::Retry => AttemptView::Retry,
            WorkAttempt::Quiesce => AttemptView::Quiesce,
        }
    }
}

impl View for Round {
    type V = RoundView;

    open spec fn view(&self) -> RoundView {
        RoundView { attempt: self.attempt@, consulted: self.consulted, retries: self.retries }
    }
}

/// What the own deque gave, in plain values.
pub open spec fn popped_view(popped: Option<Content>) -> Option<ContentView> {
    match popped {
        Some(content) => Some(content@),
        None => None,
    }
}

/// How many of the outcomes ask for a retry.
pub open spec fn retries_among(outcomes: Seq<StealView>) -> nat
    decreases outcomes.len(),
{
    if outcomes.len() == 0 {
        0
    } else {
        retries_among(outcomes.drop_last()) + if outcomes.last() is Retry {
            1nat
        } else {
            0nat
        }
    }
}

/// The outcomes are those of one round over `stealers` stealers: they are
/// consulted in turn, a success ends the round, and without a success
/// every stealer is consulted.
pub open spec fn is_round_trace(outcomes: Seq<StealView>, stealers: nat) -> bool {
    &&& outcomes.len() <= stealers
    &&& forall|j: int| 0 <= j < outcomes.len() - 1 ==> !(#[trigger] outcomes[j] is Success)
    &&& outcomes.len() == stealers || (outcomes.len() > 0 && outcomes.last() is Success)
}

/// How a round ends in which the stealers gave these outcomes: the content
/// of the success is found where there is one; otherwise the round asks
/// for a retry where some stealer did, and reports that nothing is left
/// where none did.
pub open spec fn round_after(outcomes: Seq<StealView>) -> RoundView {
    RoundView {
        attempt: if outcomes.len() > 0 && outcomes.last() is Success {
            AttemptView::Found(outcomes.last()->Success_0)
        } else if retries_among(outcomes) > 0 {
            AttemptView::Retry
        } else {
            AttemptView::Quiesce
        },
        consulted: outcomes.len() as usize,
        retries: retries_among(outcomes) as usize,
    }
}

/// The round is how some round over `stealers` stealers ends.
pub open spec fn round_over(stealers: nat, round: RoundView) -> bool {
    exists|outcomes: Seq<StealView>|
        is_round_trace(outcomes, stealers) && round == #[trigger] round_after(outcomes)
}

/// How a look for work ends, given what the own deque gave: a popped
/// content is found without consulting any stealer; with nothing popped
/// the outcome is that of a round over the stealers.
pub open spec fn work_after(popped: Option<ContentView>, stealers: nat, round: RoundView) -> bool {
    match popped {
        Some(content) => round == (RoundView {
            attempt: AttemptView::Found(content),
            consulted: 0,
            retries: 0,
        }),
        None => round_over(stealers, round),
    }
}

/// What follows from the pop on the own deque: a popped content is the
/// work found, and no stealer was consulted; with nothing popped the
/// stealers are to be consulted.
pub fn after_pop(popped: Option<Content>) -> (r: Option<Round>)
    ensures
        match popped {
            Some(content) => r matches Some(round) && round@ == (RoundView {
                attempt: AttemptView::Found(content@),
                consulted: 0,
                retries: 0,
            }),
            None => r is None,
        },
{
    match popped {
        Some(content) => Some(
            Round { attempt: WorkAttempt::Found(content), consulted: 0, retries: 0 },
        ),
        None => None,
    }
}

/// What follows from one steal in a round that has seen `retries` requests
/// for a retry so far: the stolen content ends the round; an empty deque
/// changes nothing; a request for a retry is counted.
pub fn after_steal(outcome: StealOutcome, retries: usize) -> (r: (Option<Content>, usize))
    requires
        retries < usize::MAX,
    ensures
        match outcome {
            StealOutcome::Success(content) => r.0 == Some(content) && r.1 == retries,
            StealOutcome::Empty => r.0 is None && r.1 == retries,
            StealOutcome::Retry => r.0 is None && r.1 == retries + 1,
        },
{
    match outcome {
        StealOutcome::Success(content) => (Some(content), retries),
        StealOutcome::Empty => (None, retries),
        StealOutcome::Retry => (None, retries + 1),
    }
}

/// Consults the stealers in turn and takes the first success. Every
/// stealer is consulted unless one succeeds; where none does, the round
/// asks for a retry exactly when some stealer did.
pub fn steal_round(stealers: &Vec<Stealer<Content>>) -> (round: Round)
    ensures
        round_over(stealers@.len(), round@),
        round.consulted <= stealers@.len(),
        round.retries <= round.consulted,
        round.attempt is Found ==> round.consulted >= 1,
        !(round.attempt is Found) ==> round.consulted == stealers@.len(),
        round.attempt is Retry <==> !(round.attempt is Found) && round.retries > 0,
        round.attempt is Quiesce <==> !(round.attempt is Found) && round.retries == 0,
{
    let count: usize = stealers.len();
    let ghost mut seen: Seq<StealView> = Seq::empty();
    let mut retries: usize = 0;
    let mut i: usize = 0;
    while i < count
        invariant
            count == stealers@.len(),
            i <= count,
            retries <= i,
            seen.len() == i,
            retries == retries_among(seen),
            forall|j: int| 0 <= j < i ==> !(#[trigger] seen[j] is Success),
        decreases count - i,
    {
        let outcome = stealer_steal(&stealers[i]);
        let ghost before = seen;
        proof {
            seen = seen.push(outcome@);
            assert(seen.drop_last() =~= before);
        }
        let (found, counted) = after_steal(outcome, retries);
        retries = counted;
        i += 1;
        match found {
            Some(content) => {
                let round = Round { attempt: WorkAttempt::Found(content), consulted: i, retries };
                proof {
                    assert(is_round_trace(seen, count as nat));
                    assert(round@ == round_after(seen));
                }
                return round;
            },
            None => {},
        }
    }
    let round = Round { attempt: after_round(retries > 0), consulted: i, retries };
    proof {
        assert(is_round_trace(seen, count as nat));
        assert(round@ == round_after(seen));
    }
    round
}

/// Puts contents into a worker's own deque, in order.
pub fn enqueue(worker: &Worker<Content>, contents: Vec<Content>) {
    for content in contents {
        worker_push(worker, content);
    }
}

} // verus!
