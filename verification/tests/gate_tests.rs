use speech_pipeline::gate::{decoder_threads, decoder_threads_for, ConcurrencyGate};

#[test]
fn a_slot_is_granted_while_one_is_free() {
    let mut gate = ConcurrencyGate::new(2);
    assert_eq!(gate.slots(), 2);
    assert!(gate.has_free_slot());
    assert!(!gate.has_holder());
    assert!(gate.try_acquire());
    assert!(gate.try_acquire());
    assert!(!gate.has_free_slot());
    assert!(!gate.try_acquire());
    assert_eq!(gate.slots_held(), 2);
    assert!(gate.release());
    assert_eq!(gate.slots_held(), 1);
    assert!(gate.try_acquire());
    assert!(!gate.try_acquire());
}

#[test]
fn giving_back_without_holding_changes_nothing() {
    let mut gate = ConcurrencyGate::new(1);
    assert!(!gate.release());
    assert_eq!(gate.slots_held(), 0);
    assert!(gate.try_acquire());
    assert!(gate.release());
    assert!(!gate.release());
}

#[test]
fn no_slots_grant_nothing() {
    let mut gate = ConcurrencyGate::new(0);
    assert!(!gate.try_acquire());
    assert_eq!(gate.slots_held(), 0);
}

#[test]
fn slots_for_a_machine() {
    assert_eq!(ConcurrencyGate::for_parallelism(0).slots(), 0);
    assert_eq!(ConcurrencyGate::for_parallelism(1).slots(), 1);
    assert_eq!(ConcurrencyGate::for_parallelism(8).slots(), 1);
    assert_eq!(ConcurrencyGate::for_parallelism(usize::MAX).slots(), 1);
    assert_eq!(ConcurrencyGate::for_this_machine().slots(), 1);
    assert_eq!(ConcurrencyGate::for_this_machine().slots_held(), 0);
}

#[test]
fn decoder_threads_are_the_processors() {
    assert_eq!(decoder_threads_for(1), 1);
    assert_eq!(decoder_threads_for(12), 12);
    assert_eq!(decoder_threads_for(i32::MAX as usize), i32::MAX);
    assert_eq!(decoder_threads_for(i32::MAX as usize + 1), i32::MAX);
    assert_eq!(decoder_threads_for(0), 0);
}

#[test]
fn decoder_threads_of_this_machine() {
    let threads = decoder_threads();
    assert!(threads >= 1);
    assert_eq!(threads as usize, num_cpus::get());
}
