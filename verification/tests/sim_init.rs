use asynchronix::mailbox::Mailbox;
use asynchronix::sim_init::SimInit;
use asynchronix::simulation::Simulation;
use asynchronix::time::MonotonicTime;

#[test]
fn the_number_of_threads_is_brought_into_range() {
    assert_eq!(SimInit::with_num_threads(0).num_threads(), 1);
    assert_eq!(SimInit::with_num_threads(1).num_threads(), 1);
    assert_eq!(SimInit::with_num_threads(3).num_threads(), 3);
    let max = usize::BITS as usize;
    assert_eq!(SimInit::with_num_threads(max).num_threads(), max);
    assert_eq!(SimInit::with_num_threads(max + 1).num_threads(), max);
    assert_eq!(SimInit::with_num_threads(usize::MAX).num_threads(), max);
    assert!(SimInit::with_num_threads(1).is_single_threaded());
    assert!(!SimInit::with_num_threads(2).is_single_threaded());
}

#[test]
fn the_default_builder_uses_the_cores_of_the_machine() {
    let bench = SimInit::new();
    assert!(bench.num_threads() >= 1);
    assert!(bench.num_threads() <= usize::BITS as usize);
    assert_eq!(bench.num_threads(), num_cpus::get().clamp(1, usize::BITS as usize));
}

#[test]
fn models_keep_their_names_and_nameless_models_are_unknown() {
    let bench = SimInit::with_num_threads(1)
        .add_model(&Mailbox::<u8>::new(4), "pump".to_string())
        .add_model(&Mailbox::<u8>::new(9), String::new())
        .add_model(&Mailbox::<u8>::with_capacity(5, 2), "pump".to_string());
    assert_eq!(bench.model_count(), 3);
    assert_eq!(bench.model_name(0), "pump");
    assert_eq!(bench.model_channel(0), 4);
    assert_eq!(bench.model_name(1), "<unknown>");
    assert_eq!(bench.model_channel(1), 9);
    assert_eq!(bench.model_name(2), "pump");
    assert_eq!(bench.model_channel(2), 5);
}

#[test]
fn the_simulation_starts_at_the_start_time() {
    let start = MonotonicTime::new(12, 34).unwrap();
    let sim: Simulation<u8> = SimInit::with_num_threads(2).init(start);
    assert_eq!(sim.time(), start);
    assert_eq!(sim.pending(), 0);
}

#[test]
fn the_default_builder_is_the_new_builder() {
    let bench = SimInit::default();
    assert_eq!(bench.num_threads(), SimInit::new().num_threads());
    assert_eq!(bench.model_count(), 0);
}
