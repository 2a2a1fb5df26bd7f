use crossbeam_deque::Worker;
use wadup_core::content::Content;
use wadup_core::scheduler::{
    after_pop, after_round, after_steal, enqueue, get_work, steal_round, StealOutcome, WorkAttempt,
};
use wadup_core::shared_buffer::SharedBuffer;

fn content(uuid: u128) -> Content {
    Content::root_with_uuid(uuid, SharedBuffer::from_vec(vec![]), uuid.to_string())
}

fn found(attempt: WorkAttempt) -> Option<u128> {
    match attempt {
        WorkAttempt::Found(content) => Some(content.uuid),
        _ => None,
    }
}

#[test]
fn own_deque_is_popped_from_the_tail() {
    let worker: Worker<Content> = Worker::new_lifo();
    enqueue(&worker, vec![content(1), content(2), content(3)]);
    assert_eq!(found(get_work(&worker, &vec![]).attempt), Some(3));
    enqueue(&worker, vec![content(4)]);
    assert_eq!(found(get_work(&worker, &vec![]).attempt), Some(4));
    assert_eq!(found(get_work(&worker, &vec![]).attempt), Some(2));
    assert_eq!(found(get_work(&worker, &vec![]).attempt), Some(1));
    assert!(matches!(get_work(&worker, &vec![]).attempt, WorkAttempt::Quiesce));
}

#[test]
fn stealing_takes_from_the_head() {
    let victim: Worker<Content> = Worker::new_lifo();
    enqueue(&victim, vec![content(1), content(2), content(3)]);
    let stealers = vec![victim.stealer()];
    assert_eq!(found(steal_round(&stealers).attempt), Some(1));
    assert_eq!(found(steal_round(&stealers).attempt), Some(2));
    assert_eq!(found(get_work(&victim, &vec![]).attempt), Some(3));
    assert!(matches!(steal_round(&stealers).attempt, WorkAttempt::Quiesce));
}

#[test]
fn round_takes_the_first_success() {
    let empty: Worker<Content> = Worker::new_lifo();
    let busy: Worker<Content> = Worker::new_lifo();
    let other: Worker<Content> = Worker::new_lifo();
    enqueue(&busy, vec![content(10), content(11)]);
    enqueue(&other, vec![content(20)]);
    let stealers = vec![empty.stealer(), busy.stealer(), other.stealer()];
    let round = steal_round(&stealers);
    assert_eq!(round.consulted, 2);
    assert_eq!(round.retries, 0);
    assert_eq!(found(round.attempt), Some(10));
    assert_eq!(found(steal_round(&stealers).attempt), Some(11));
    let round = steal_round(&stealers);
    assert_eq!(round.consulted, 3);
    assert_eq!(found(round.attempt), Some(20));
    let round = steal_round(&stealers);
    assert_eq!(round.consulted, 3);
    assert!(matches!(round.attempt, WorkAttempt::Quiesce));
    let none = steal_round(&vec![]);
    assert_eq!(none.consulted, 0);
    assert!(matches!(none.attempt, WorkAttempt::Quiesce));
}

#[test]
fn work_is_looked_for_locally_first() {
    let mine: Worker<Content> = Worker::new_lifo();
    let theirs: Worker<Content> = Worker::new_lifo();
    enqueue(&mine, vec![content(1)]);
    enqueue(&theirs, vec![content(2)]);
    let stealers = vec![theirs.stealer()];
    let local = get_work(&mine, &stealers);
    assert_eq!(local.consulted, 0);
    assert_eq!(found(local.attempt), Some(1));
    let stolen = get_work(&mine, &stealers);
    assert_eq!(stolen.consulted, 1);
    assert_eq!(found(stolen.attempt), Some(2));
    let nothing = get_work(&mine, &stealers);
    assert_eq!((nothing.consulted, nothing.retries), (1, 0));
    assert!(matches!(nothing.attempt, WorkAttempt::Quiesce));
}

#[test]
fn a_round_without_success_ends_by_what_was_asked() {
    assert!(matches!(after_round(true), WorkAttempt::Retry));
    assert!(matches!(after_round(false), WorkAttempt::Quiesce));
}

#[test]
fn a_popped_content_is_the_work_found() {
    let round = after_pop(Some(content(7))).unwrap();
    assert_eq!((round.consulted, round.retries), (0, 0));
    assert_eq!(found(round.attempt), Some(7));
    assert!(after_pop(None).is_none());
}

#[test]
fn a_steal_ends_the_round_or_counts_a_retry() {
    let (stolen, retries) = after_steal(StealOutcome::Success(content(9)), 2);
    assert_eq!(stolen.map(|c| c.uuid), Some(9));
    assert_eq!(retries, 2);
    let (stolen, retries) = after_steal(StealOutcome::Empty, 2);
    assert!(stolen.is_none());
    assert_eq!(retries, 2);
    let (stolen, retries) = after_steal(StealOutcome::Retry, 2);
    assert!(stolen.is_none());
    assert_eq!(retries, 3);
}

#[test]
fn stealers_after_the_first_success_are_left_alone() {
    let first: Worker<Content> = Worker::new_lifo();
    let second: Worker<Content> = Worker::new_lifo();
    enqueue(&first, vec![content(1)]);
    enqueue(&second, vec![content(2)]);
    let mine: Worker<Content> = Worker::new_lifo();
    let stealers = vec![first.stealer(), second.stealer()];
    let round = get_work(&mine, &stealers);
    assert_eq!((round.consulted, round.retries), (1, 0));
    assert_eq!(found(round.attempt), Some(1));
    assert_eq!(found(get_work(&second, &vec![]).attempt), Some(2));
}
