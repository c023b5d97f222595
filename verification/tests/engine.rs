use periph_infer::bytes::ByteOrder;
use periph_infer::dummy_peripheral::{Action, DummyPeripheral, OpEvent};
use periph_infer::errors::InferenceError;
use periph_infer::result_cache::ResultCache;

const RANGE_START: u64 = 0x4000_0000;
const RANGE_END: u64 = 0x4000_0FFF;
const REG: u64 = 0x4000_0004;
const LOAD_PC: u64 = 0x1000;

fn configured_engine() -> DummyPeripheral<u64> {
    let mut engine: DummyPeripheral<u64> = DummyPeripheral::new();
    engine.add_address_range((RANGE_START, RANGE_END));
    engine
}

fn load_event() -> OpEvent {
    OpEvent::Load {
        pc: LOAD_PC,
        source_addr: REG,
        dest_size: 4,
    }
}

#[test]
fn range_membership_inclusive_bounds() {
    let mut engine = configured_engine();
    engine.add_address_range((0x100, 0x1FF));
    assert!(engine.is_peripheral(RANGE_START));
    assert!(engine.is_peripheral(RANGE_END));
    assert!(engine.is_peripheral(REG));
    assert!(engine.is_peripheral(0x100));
    assert!(engine.is_peripheral(0x1FF));
    assert!(!engine.is_peripheral(RANGE_START - 1));
    assert!(!engine.is_peripheral(RANGE_END + 1));
    assert!(!engine.is_peripheral(0xFF));
    assert!(!engine.is_peripheral(0x200));
    assert!(!engine.is_peripheral(0));
}

#[test]
fn load_outside_ranges_starts_nothing() {
    let mut engine = configured_engine();
    let cache = ResultCache::new();
    let act = engine
        .hook_operation_step(
            &cache,
            OpEvent::Load {
                pc: LOAD_PC,
                source_addr: 0x2000_0000,
                dest_size: 4,
            },
            11,
        )
        .unwrap();
    assert!(matches!(act, Action::Pass));
    assert!(!engine.is_active());
    assert!(engine.session_trace().is_empty());
}

#[test]
fn peripheral_load_starts_session() {
    let mut engine = configured_engine();
    let cache = ResultCache::new();
    engine.hook_architectural_step(LOAD_PC);
    let act = engine.hook_operation_step(&cache, load_event(), 7).unwrap();
    assert!(matches!(act, Action::Pass));
    assert!(engine.is_active());
    assert_eq!(engine.session_trace().as_slice(), &[7]);
    let read = engine.last_read_event();
    assert_eq!(read.pc, LOAD_PC);
    assert_eq!(read.addr, REG);
    assert_eq!(read.size, 4);
    assert_eq!(read.event, 1);
    assert_eq!(engine.event_count(), 1);
    assert_eq!(engine.operation_count(), 1);
}

#[test]
fn cache_idempotence_serves_cached_value() {
    let mut engine = configured_engine();
    engine.enable_solving_result_cache(true);
    let mut cache = ResultCache::new();
    cache.insert(REG, 0x01020304, 4);

    let act = engine.hook_operation_step(&cache, load_event(), 7).unwrap();
    match act {
        Action::WriteMem { addr, bytes } => {
            assert_eq!(addr, REG);
            assert_eq!(bytes, vec![0x04, 0x03, 0x02, 0x01]);
        }
        _ => panic!("expected a cached write-back"),
    }
    // No session was started.
    assert!(!engine.is_active());
    assert!(engine.session_trace().is_empty());
}

#[test]
fn cached_value_truncated_to_load_width() {
    let mut engine = configured_engine();
    engine.enable_solving_result_cache(true);
    let mut cache = ResultCache::new();
    cache.insert(REG, 0x01020304, 4);

    let act = engine
        .hook_operation_step(
            &cache,
            OpEvent::Load {
                pc: LOAD_PC,
                source_addr: REG,
                dest_size: 1,
            },
            7,
        )
        .unwrap();
    match act {
        Action::WriteMem { bytes, .. } => assert_eq!(bytes, vec![0x04]),
        _ => panic!("expected a cached write-back"),
    }
}

#[test]
fn cache_disable_reverts_to_fresh_session() {
    let mut engine = configured_engine();
    engine.enable_solving_result_cache(false);
    let mut cache = ResultCache::new();
    cache.insert(REG, 0x01020304, 4);

    let act = engine.hook_operation_step(&cache, load_event(), 9).unwrap();
    assert!(matches!(act, Action::Pass));
    assert!(engine.is_active());
    assert_eq!(engine.session_trace().as_slice(), &[9]);
}

#[test]
fn unsupported_cached_width_is_fatal_and_leaves_engine_untouched() {
    let mut engine = configured_engine();
    engine.enable_solving_result_cache(true);
    let mut cache = ResultCache::new();
    cache.insert(REG, 5, 4);

    let err = engine
        .hook_operation_step(
            &cache,
            OpEvent::Load {
                pc: LOAD_PC,
                source_addr: REG,
                dest_size: 2,
            },
            1,
        )
        .unwrap_err();
    assert_eq!(err, InferenceError::UnsupportedWidth { size: 2 });
    assert!(!engine.is_active());
    assert!(engine.session_trace().is_empty());
}

#[test]
fn session_replacement_discards_previous_session() {
    let mut engine = configured_engine();
    engine.add_default_reg("STATUS_READY", 1);
    let cache = ResultCache::new();

    engine.hook_operation_step(&cache, load_event(), 1).unwrap();
    engine
        .hook_operation_step(&cache, OpEvent::Other, 2)
        .unwrap();
    // One forward jump is consumed by the first session.
    engine
        .hook_operation_step(
            &cache,
            OpEvent::CondBranch {
                dest_addr: Some(LOAD_PC + 8),
            },
            3,
        )
        .unwrap();
    assert_eq!(engine.session_trace().len(), 3);

    // A second peripheral load replaces the session wholesale.
    let act = engine
        .hook_operation_step(
            &cache,
            OpEvent::Load {
                pc: LOAD_PC + 0x40,
                source_addr: REG,
                dest_size: 4,
            },
            4,
        )
        .unwrap();
    assert!(matches!(act, Action::Pass));
    assert!(engine.is_active());
    assert_eq!(engine.session_trace().as_slice(), &[4]);
    assert_eq!(engine.last_read_event().pc, LOAD_PC + 0x40);
    let seeds = engine.session_seeds();
    assert_eq!(seeds.len(), 1);
    assert_eq!(seeds[0].0, "STATUS_READY");
    assert_eq!(seeds[0].1, 1);

    // The forgiveness counter started over: the next forward jump is
    // tolerated again instead of aborting.
    engine
        .hook_operation_step(
            &cache,
            OpEvent::CondBranch {
                dest_addr: Some(LOAD_PC + 0x80),
            },
            5,
        )
        .unwrap();
    assert!(engine.is_active());
}

#[test]
fn backward_and_self_branches_detect_loop() {
    for dest in [LOAD_PC, LOAD_PC - 4] {
        let mut engine = configured_engine();
        let cache = ResultCache::new();
        engine.hook_operation_step(&cache, load_event(), 1).unwrap();
        let act = engine
            .hook_operation_step(&cache, OpEvent::CondBranch { dest_addr: Some(dest) }, 2)
            .unwrap();
        assert!(matches!(act, Action::Solve));
        assert!(!engine.is_active());
        // The resolving branch itself is not recorded.
        assert_eq!(engine.session_trace().as_slice(), &[1]);

        // The solver is asked exactly once: a further branch passes.
        let act = engine
            .hook_operation_step(&cache, OpEvent::CondBranch { dest_addr: Some(dest) }, 3)
            .unwrap();
        assert!(matches!(act, Action::Pass));
    }
}

#[test]
fn solver_bindings_written_at_tracked_width() {
    let mut engine = configured_engine();
    engine.enable_solving_result_cache(true);
    let mut cache = ResultCache::new();
    engine.hook_operation_step(&cache, load_event(), 1).unwrap();
    let act = engine
        .hook_operation_step(
            &cache,
            OpEvent::CondBranch {
                dest_addr: Some(LOAD_PC),
            },
            2,
        )
        .unwrap();
    assert!(matches!(act, Action::Solve));

    let writes = engine
        .apply_solver_bindings(&mut cache, &vec![(REG, 1)])
        .unwrap();
    assert_eq!(writes.len(), 1);
    assert_eq!(writes[0].addr, REG);
    assert_eq!(writes[0].bytes, vec![1, 0, 0, 0]);

    // The solve was cached for the tracked address.
    let entry = cache.lookup(REG).unwrap();
    assert_eq!(entry.target_addr, REG);
    assert_eq!(entry.value, 1);
    assert_eq!(entry.size, 4);
}

#[test]
fn solver_bindings_first_insert_wins() {
    let mut engine = configured_engine();
    let mut cache = ResultCache::new();
    cache.insert(REG, 7, 4);
    // The session starts while caching is off, so the existing entry is
    // not served; it must still win over the later solve.
    engine.hook_operation_step(&cache, load_event(), 1).unwrap();
    engine.enable_solving_result_cache(true);

    engine
        .apply_solver_bindings(&mut cache, &vec![(REG, 9)])
        .unwrap();
    assert_eq!(cache.lookup(REG).unwrap().value, 7);
    assert_eq!(cache.len(), 1);
}

#[test]
fn solver_bindings_empty_is_a_no_op() {
    let engine = configured_engine();
    let mut cache = ResultCache::new();
    let writes = engine.apply_solver_bindings(&mut cache, &vec![]).unwrap();
    assert!(writes.is_empty());
    assert_eq!(cache.len(), 0);
}

#[test]
fn solver_bindings_unsupported_width_is_fatal() {
    let mut engine = configured_engine();
    let cache0 = ResultCache::new();
    engine
        .hook_operation_step(
            &cache0,
            OpEvent::Load {
                pc: LOAD_PC,
                source_addr: REG,
                dest_size: 3,
            },
            1,
        )
        .unwrap();
    let mut cache = ResultCache::new();
    let err = engine
        .apply_solver_bindings(&mut cache, &vec![(REG, 1)])
        .unwrap_err();
    assert_eq!(err, InferenceError::UnsupportedWidth { size: 3 });
    assert_eq!(cache.len(), 0);
}

#[test]
fn forgiveness_tolerates_exactly_one_forward_jump() {
    let mut engine = configured_engine();
    let cache = ResultCache::new();
    engine.hook_operation_step(&cache, load_event(), 1).unwrap();

    let act = engine
        .hook_operation_step(
            &cache,
            OpEvent::CondBranch {
                dest_addr: Some(LOAD_PC + 8),
            },
            2,
        )
        .unwrap();
    assert!(matches!(act, Action::Pass));
    assert!(engine.is_active());
    // The forgiven branch is recorded.
    assert_eq!(engine.session_trace().as_slice(), &[1, 2]);

    let act = engine
        .hook_operation_step(
            &cache,
            OpEvent::CondBranch {
                dest_addr: Some(LOAD_PC + 16),
            },
            3,
        )
        .unwrap();
    assert!(matches!(act, Action::Pass));
    assert!(!engine.is_active());
    // The aborting branch is not recorded, and no solve was asked for.
    assert_eq!(engine.session_trace().as_slice(), &[1, 2]);
}

#[test]
fn write_invalidation_aborts_before_any_branch() {
    let mut engine = configured_engine();
    let cache = ResultCache::new();
    engine.hook_operation_step(&cache, load_event(), 1).unwrap();
    assert!(engine.is_active());

    let act = engine
        .hook_operation_step(&cache, OpEvent::Store { dest_addr: REG }, 2)
        .unwrap();
    assert!(matches!(act, Action::Pass));
    assert!(!engine.is_active());

    // The branch that would have detected a loop now passes.
    let act = engine
        .hook_operation_step(
            &cache,
            OpEvent::CondBranch {
                dest_addr: Some(LOAD_PC),
            },
            3,
        )
        .unwrap();
    assert!(matches!(act, Action::Pass));
}

#[test]
fn store_elsewhere_keeps_session() {
    let mut engine = configured_engine();
    let cache = ResultCache::new();
    engine.hook_operation_step(&cache, load_event(), 1).unwrap();
    engine
        .hook_operation_step(&cache, OpEvent::Store { dest_addr: REG + 8 }, 2)
        .unwrap();
    assert!(engine.is_active());
    assert_eq!(engine.session_trace().as_slice(), &[1, 2]);
}

#[test]
fn non_address_branch_destination_is_not_a_loop_start() {
    let mut engine = configured_engine();
    let cache = ResultCache::new();
    engine.hook_operation_step(&cache, load_event(), 1).unwrap();
    let act = engine
        .hook_operation_step(&cache, OpEvent::CondBranch { dest_addr: None }, 2)
        .unwrap();
    assert!(matches!(act, Action::Pass));
    assert!(engine.is_active());
    assert_eq!(engine.session_trace().as_slice(), &[1, 2]);
}

#[test]
fn call_and_return_abort_session() {
    for abort in [OpEvent::IndirectCall, OpEvent::Return] {
        let mut engine = configured_engine();
        let cache = ResultCache::new();
        engine.hook_operation_step(&cache, load_event(), 1).unwrap();
        engine.hook_operation_step(&cache, abort, 2).unwrap();
        assert!(!engine.is_active());
        assert_eq!(engine.session_trace().as_slice(), &[1]);
    }
}

#[test]
fn big_endian_write_back() {
    let mut engine = configured_engine();
    engine.set_byte_order(ByteOrder::Big);
    engine.enable_solving_result_cache(true);
    let mut cache = ResultCache::new();
    cache.insert(REG, 0x01020304, 4);
    let act = engine.hook_operation_step(&cache, load_event(), 1).unwrap();
    match act {
        Action::WriteMem { bytes, .. } => assert_eq!(bytes, vec![0x01, 0x02, 0x03, 0x04]),
        _ => panic!("expected a cached write-back"),
    }
}

#[test]
fn end_to_end_polling_loop_scenario() {
    // Configure range [0x4000_0000, 0x4000_0FFF] and STATUS_READY = 1.
    let mut engine: DummyPeripheral<u64> = DummyPeripheral::new();
    engine.add_address_range((0x4000_0000, 0x4000_0FFF));
    engine.add_default_reg("STATUS_READY", 1);
    engine.enable_solving_result_cache(true);
    let mut cache = ResultCache::new();

    // LOAD r0 <- [0x4000_0004]; CBRANCH r0 == 0 -> back_to_load.
    engine.hook_architectural_step(LOAD_PC);
    let act = engine.hook_operation_step(&cache, load_event(), 100).unwrap();
    assert!(matches!(act, Action::Pass));
    assert!(engine.is_active());
    assert_eq!(engine.session_trace().as_slice(), &[100]);
    let seeds = engine.session_seeds();
    assert_eq!(seeds.len(), 1);
    assert_eq!(seeds[0].0, "STATUS_READY");
    assert_eq!(seeds[0].1, 1);

    // Destination == P: immediate loop detection, solver asked once.
    let act = engine
        .hook_operation_step(
            &cache,
            OpEvent::CondBranch {
                dest_addr: Some(LOAD_PC),
            },
            101,
        )
        .unwrap();
    assert!(matches!(act, Action::Solve));

    // The embedder runs the solver over the trace and the condition and
    // hands back the binding for the read address.
    let writes = engine
        .apply_solver_bindings(&mut cache, &vec![(REG, 1)])
        .unwrap();
    assert_eq!(writes.len(), 1);
    assert_eq!(writes[0].addr, REG);
    assert_eq!(writes[0].bytes, vec![1, 0, 0, 0]);
    assert!(!engine.is_active());

    // A second independent run with the identical configuration is
    // answered from the cache without the solver.
    let mut engine2: DummyPeripheral<u64> = DummyPeripheral::new();
    engine2.add_address_range((0x4000_0000, 0x4000_0FFF));
    engine2.add_default_reg("STATUS_READY", 1);
    engine2.enable_solving_result_cache(true);
    let act = engine2.hook_operation_step(&cache, load_event(), 200).unwrap();
    match act {
        Action::WriteMem { addr, bytes } => {
            assert_eq!(addr, REG);
            assert_eq!(bytes, vec![1, 0, 0, 0]);
        }
        _ => panic!("expected the cached value, not a new session"),
    }
    assert!(!engine2.is_active());
}

#[test]
fn architectural_step_only_advances_clock() {
    let mut engine = configured_engine();
    for _ in 0..3 {
        let act = engine.hook_architectural_step(LOAD_PC);
        assert!(matches!(act, Action::Pass));
    }
    assert_eq!(engine.event_count(), 3);
    assert!(!engine.is_active());
}

#[test]
fn default_reg_overwrites_existing_binding() {
    let mut engine = configured_engine();
    engine.add_default_reg("STATUS_READY", 1);
    engine.add_default_reg("MODE", 2);
    engine.add_default_reg("STATUS_READY", 3);
    let cache = ResultCache::new();
    engine.hook_operation_step(&cache, load_event(), 1).unwrap();
    let seeds = engine.session_seeds();
    assert_eq!(seeds.len(), 2);
    assert_eq!(seeds[0].0, "STATUS_READY");
    assert_eq!(seeds[0].1, 3);
    assert_eq!(seeds[1].0, "MODE");
    assert_eq!(seeds[1].1, 2);
}
