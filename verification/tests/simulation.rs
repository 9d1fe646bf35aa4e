use asynchronix::simulation::{
    query_reply, CancellationError, QueryError, ScheduledTimeError, Simulation, Slice,
};
use asynchronix::time::{Duration, MonotonicTime};

const A: usize = 1;
const B: usize = 2;

fn at(secs: i64) -> MonotonicTime {
    MonotonicTime::new(secs, 0).unwrap()
}

/// Channel and actions of every task of a slice.
fn deliveries(slice: &Slice<u64>) -> Vec<(usize, Vec<u64>)> {
    slice.tasks.iter().map(|t| (t.channel, t.actions.clone())).collect()
}

/// Runs an advance by `span` to its end and returns time and deliveries of
/// every slice that delivers something.
fn run_by(sim: &mut Simulation<u64>, span: Duration) -> Vec<(MonotonicTime, Vec<(usize, Vec<u64>)>)> {
    let mut seen = Vec::new();
    let (target, mut next) = sim.step_by(span);
    while let Some(slice) = next {
        assert_eq!(sim.time(), slice.time);
        if !slice.tasks.is_empty() {
            seen.push((slice.time, deliveries(&slice)));
        }
        next = sim.step_until_unchecked(target);
    }
    assert_eq!(sim.time(), target);
    seen
}

#[test]
fn empty_step() {
    let mut sim: Simulation<u64> = Simulation::new(MonotonicTime::epoch());
    assert!(sim.step().is_none());
    assert_eq!(sim.time(), MonotonicTime::epoch());
    assert_eq!(sim.pending(), 0);
    assert_eq!(sim.next_time(), None);
}

#[test]
fn single_schedule() {
    let t0 = at(100);
    let mut sim: Simulation<u64> = Simulation::new(t0);
    sim.schedule_in(Duration::from_secs(1), 42, A).unwrap();
    let slice = sim.step().unwrap();
    assert_eq!(sim.time(), at(101));
    assert_eq!(slice.time, at(101));
    assert_eq!(deliveries(&slice), vec![(A, vec![42])]);
    assert!(sim.step().is_none());
    assert_eq!(sim.time(), at(101));
}

#[test]
fn co_temporal_same_channel_ordering() {
    let mut sim: Simulation<u64> = Simulation::new(at(0));
    sim.schedule_in(Duration::from_secs(1), 1, A).unwrap();
    sim.schedule_in(Duration::from_secs(1), 2, A).unwrap();
    let slice = sim.step().unwrap();
    assert_eq!(deliveries(&slice), vec![(A, vec![1, 2])]);
    assert_eq!(sim.pending(), 0);
}

#[test]
fn cancellation() {
    let t0 = at(10);
    let mut sim: Simulation<u64> = Simulation::new(t0);
    let k = sim.schedule_in(Duration::from_secs(2), 7, A).unwrap();
    assert_eq!(sim.cancel(k), Ok(()));
    let seen = run_by(&mut sim, Duration::from_secs(3));
    assert!(seen.is_empty());
    assert_eq!(sim.time(), at(13));
    assert_eq!(sim.pending(), 0);
}

#[test]
fn periodic() {
    let t0 = at(0);
    let mut sim: Simulation<u64> = Simulation::new(t0);
    let key = sim
        .schedule_event(at(1), A, Some(Duration::from_secs(1)), 5, true)
        .unwrap()
        .unwrap();
    let seen = run_by(&mut sim, Duration::from_secs(3));
    assert_eq!(
        seen,
        vec![
            (at(1), vec![(A, vec![5])]),
            (at(2), vec![(A, vec![5])]),
            (at(3), vec![(A, vec![5])]),
        ]
    );
    assert_eq!(sim.pending(), 1);
    assert_eq!(sim.next_time(), Some(at(4)));
    assert_eq!(sim.cancel(key), Ok(()));
    assert!(run_by(&mut sim, Duration::from_secs(5)).is_empty());
    assert_eq!(sim.time(), at(8));
    assert_eq!(sim.pending(), 0);
}

#[test]
fn query_round_trip() {
    let t0 = at(3);
    let sim: Simulation<u64> = Simulation::new(t0);
    let task = sim.send_query(21, A);
    assert_eq!(task.channel, A);
    assert_eq!(task.actions, vec![21]);
    // The model replies with the double of what it was asked.
    let reply = task.actions.first().map(|x| 2 * x);
    assert_eq!(query_reply(reply), Ok(42));
    assert_eq!(sim.time(), t0);
}

#[test]
fn query_without_reply_is_an_error() {
    assert_eq!(query_reply::<u64>(None), Err(QueryError {}));
    assert_eq!(QueryError {}.message(), "the query did not receive a response");
}

#[test]
fn past_deadline() {
    let t0 = at(50);
    let mut sim: Simulation<u64> = Simulation::new(t0);
    assert_eq!(sim.schedule_at(t0, 9, A), Err(ScheduledTimeError(9)));
    assert_eq!(sim.schedule_at(at(49), 9, A), Err(ScheduledTimeError(9)));
    assert!(matches!(sim.step_until(t0), Err(ScheduledTimeError(()))));
    assert!(matches!(sim.step_until(at(49)), Err(ScheduledTimeError(()))));
    assert_eq!(sim.time(), t0);
    assert_eq!(sim.pending(), 0);
}

#[test]
fn null_duration_is_refused() {
    let mut sim: Simulation<u64> = Simulation::new(at(0));
    assert_eq!(sim.schedule_in(Duration::zero(), 3, A), Err(ScheduledTimeError(3)));
    assert_eq!(sim.pending(), 0);
}

#[test]
fn send_event_builds_one_task_and_keeps_time() {
    let sim: Simulation<u64> = Simulation::new(at(4));
    let task = sim.send_event(11, B);
    assert_eq!(task.channel, B);
    assert_eq!(task.actions, vec![11]);
    assert_eq!(sim.time(), at(4));
}

#[test]
fn a_slice_has_one_task_for_each_channel() {
    let mut sim: Simulation<u64> = Simulation::new(at(0));
    for (payload, channel) in [(1, A), (2, A), (3, B), (4, A), (5, B), (6, B)] {
        sim.schedule_at(at(1), payload, channel).unwrap();
    }
    sim.schedule_at(at(2), 7, A).unwrap();
    let slice = sim.step().unwrap();
    assert_eq!(
        deliveries(&slice),
        vec![(A, vec![1, 2, 4]), (B, vec![3, 5, 6])]
    );
    assert_eq!(sim.time(), at(1));
    assert_eq!(sim.pending(), 1);
    let slice = sim.step().unwrap();
    assert_eq!(deliveries(&slice), vec![(A, vec![7])]);
    assert_eq!(sim.time(), at(2));
}

#[test]
fn actions_fire_in_order_of_time_whatever_the_order_of_scheduling() {
    let mut sim: Simulation<u64> = Simulation::new(at(0));
    sim.schedule_at(at(3), 30, A).unwrap();
    sim.schedule_at(at(1), 10, A).unwrap();
    sim.schedule_at(at(2), 20, A).unwrap();
    let seen = run_by(&mut sim, Duration::from_secs(10));
    assert_eq!(
        seen,
        vec![
            (at(1), vec![(A, vec![10])]),
            (at(2), vec![(A, vec![20])]),
            (at(3), vec![(A, vec![30])]),
        ]
    );
    assert_eq!(sim.time(), at(10));
}

#[test]
fn time_never_decreases() {
    let mut sim: Simulation<u64> = Simulation::new(at(0));
    sim.schedule_at(at(5), 1, A).unwrap();
    sim.schedule_at(at(9), 2, B).unwrap();
    let mut last = sim.time();
    for _ in 0..4 {
        let _ = sim.step();
        assert!(sim.time() >= last);
        last = sim.time();
    }
    assert_eq!(last, at(9));
}

#[test]
fn bounded_step_leaves_later_actions_alone() {
    let mut sim: Simulation<u64> = Simulation::new(at(0));
    sim.schedule_at(at(5), 1, A).unwrap();
    assert!(sim.step_to_next_bounded(at(4)).is_none());
    assert_eq!(sim.time(), at(0));
    assert_eq!(sim.pending(), 1);
    let slice = sim.step_to_next_bounded(at(5)).unwrap();
    assert_eq!(slice.time, at(5));
    assert_eq!(sim.time(), at(5));
}

#[test]
fn step_until_stops_at_the_target() {
    let mut sim: Simulation<u64> = Simulation::new(at(0));
    sim.schedule_at(at(2), 1, A).unwrap();
    sim.schedule_at(at(7), 2, A).unwrap();
    let first = sim.step_until(at(5)).unwrap().unwrap();
    assert_eq!(first.time, at(2));
    assert_eq!(sim.time(), at(2));
    assert!(sim.step_until_unchecked(at(5)).is_none());
    assert_eq!(sim.time(), at(5));
    assert_eq!(sim.pending(), 1);
    assert_eq!(sim.next_time(), Some(at(7)));
}

#[test]
fn cancelling_twice_fails_the_second_time() {
    let mut sim: Simulation<u64> = Simulation::new(at(0));
    let k = sim.schedule_at(at(2), 7, A).unwrap();
    assert_eq!(sim.cancel(k), Ok(()));
    assert_eq!(sim.cancel(k), Err(CancellationError {}));
    assert_eq!(sim.pending(), 1);
    let slice = sim.step().unwrap();
    assert!(slice.tasks.is_empty());
    assert_eq!(sim.pending(), 0);
}

#[test]
fn cancelling_after_the_action_fired_fails() {
    let mut sim: Simulation<u64> = Simulation::new(at(0));
    let k = sim.schedule_at(at(2), 7, A).unwrap();
    assert!(sim.step().is_some());
    assert_eq!(sim.cancel(k), Err(CancellationError {}));
}

#[test]
fn schedule_then_cancel_then_step_never_hands_the_action_out() {
    let mut sim: Simulation<u64> = Simulation::new(at(0));
    sim.schedule_at(at(3), 1, A).unwrap();
    let k = sim.schedule_at(at(3), 2, A).unwrap();
    sim.schedule_at(at(3), 3, A).unwrap();
    assert_eq!(sim.cancel(k), Ok(()));
    let seen = run_by(&mut sim, Duration::from_secs(10));
    assert_eq!(seen, vec![(at(3), vec![(A, vec![1, 3])])]);
}

#[test]
fn a_key_of_a_reused_slot_does_not_cancel_the_new_action() {
    let mut sim: Simulation<u64> = Simulation::new(at(0));
    let old = sim.schedule_at(at(1), 1, A).unwrap();
    assert_eq!(sim.cancel(old), Ok(()));
    let new = sim.schedule_at(at(1), 2, A).unwrap();
    assert_eq!(new.index, old.index);
    assert_ne!(new.generation, old.generation);
    assert_eq!(sim.cancel(old), Err(CancellationError {}));
    let slice = sim.step().unwrap();
    assert_eq!(deliveries(&slice), vec![(A, vec![2])]);
    assert_eq!(sim.cancel(new), Err(CancellationError {}));
}

#[test]
fn unkeyed_events_get_no_key() {
    let mut sim: Simulation<u64> = Simulation::new(at(0));
    assert_eq!(sim.schedule_event(at(1), A, None, 1, false), Ok(None));
    assert_eq!(sim.pending(), 1);
}

#[test]
fn a_periodic_action_mixes_with_others_in_order_of_scheduling() {
    let mut sim: Simulation<u64> = Simulation::new(at(0));
    sim.schedule_event(at(1), A, Some(Duration::from_secs(1)), 100, false).unwrap();
    sim.schedule_at(at(2), 1, A).unwrap();
    let seen = run_by(&mut sim, Duration::from_secs(2));
    assert_eq!(
        seen,
        vec![(at(1), vec![(A, vec![100])]), (at(2), vec![(A, vec![100, 1])])]
    );
}

#[test]
fn a_cancelled_action_still_stops_the_clock() {
    let mut sim: Simulation<u64> = Simulation::new(at(0));
    let k = sim.schedule_at(at(2), 7, A).unwrap();
    sim.schedule_at(at(2), 8, B).unwrap();
    let lone = sim.schedule_at(at(5), 9, A).unwrap();
    assert_eq!(sim.cancel(k), Ok(()));
    assert_eq!(sim.cancel(lone), Ok(()));
    assert_eq!(sim.pending(), 3);
    let slice = sim.step().unwrap();
    assert_eq!(slice.time, at(2));
    assert_eq!(deliveries(&slice), vec![(B, vec![8])]);
    let slice = sim.step().unwrap();
    assert_eq!(slice.time, at(5));
    assert!(slice.tasks.is_empty());
    assert_eq!(sim.time(), at(5));
    assert!(sim.step().is_none());
}

#[test]
fn a_periodic_action_keeps_its_period_among_other_actions() {
    let mut sim: Simulation<u64> = Simulation::new(at(0));
    sim.schedule_at(at(1), 1, B).unwrap();
    sim.schedule_event(at(1), A, Some(Duration::new(1, 500_000_000)), 50, false).unwrap();
    sim.schedule_at(at(2), 2, A).unwrap();
    sim.schedule_at(at(4), 4, A).unwrap();
    let seen = run_by(&mut sim, Duration::from_secs(4));
    let half = |secs| MonotonicTime::new(secs, 500_000_000).unwrap();
    assert_eq!(
        seen,
        vec![
            (at(1), vec![(B, vec![1]), (A, vec![50])]),
            (at(2), vec![(A, vec![2])]),
            (half(2), vec![(A, vec![50])]),
            (at(4), vec![(A, vec![50, 4])]),
        ]
    );
    assert_eq!(sim.next_time(), Some(half(5)));
}

#[test]
fn unchecked_scheduling_places_the_action() {
    let mut sim: Simulation<u64> = Simulation::new(at(0));
    let key = sim.schedule_at_unchecked(at(3), B, None, 6, true);
    assert!(key.is_some());
    assert_eq!(sim.schedule_at_unchecked(at(3), B, None, 7, false), None);
    let slice = sim.step().unwrap();
    assert_eq!(deliveries(&slice), vec![(B, vec![6, 7])]);
}
