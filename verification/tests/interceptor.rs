use qecu::qecu::interceptor::{
    CodeHook, EventCallback, HandlerKind, HookError, Interceptor,
};
use std::collections::HashSet;

fn code() -> String {
    String::from("CODE")
}

fn name(text: &str) -> String {
    String::from(text)
}

#[test]
fn new_interceptor_has_empty_tables() {
    let interceptor: Interceptor<u32> = Interceptor::new();
    assert!(interceptor.get_code_hooks().is_empty());
    assert!(interceptor.get_event_hooks().is_empty());
    assert!(interceptor.on_code_hook(0, 4).is_empty());
    assert!(interceptor.emit(name("tick"), name("x")).is_empty());
}

#[test]
fn hook_fires_for_contained_instruction_only() {
    let mut interceptor: Interceptor<u32> = Interceptor::new();
    let id = interceptor.add_hook(code(), 0x1000, 0x10, name("on_insn")).unwrap();
    let calls = interceptor.on_code_hook(0x1000, 4);
    assert_eq!(calls.len(), 1);
    assert_eq!(calls[0].id, id);
    assert_eq!(calls[0].handler, "on_insn");
    assert_eq!(calls[0].kind, HandlerKind::Named);
    assert_eq!(calls[0].addr, 0x1000);
    assert_eq!(calls[0].size, 4);
    assert!(calls[0].data.is_none());
    // Starts one byte before the range.
    assert_eq!(interceptor.on_code_hook(0x0fff, 4).len(), 0);
    // Straddles the end of the range.
    assert_eq!(interceptor.on_code_hook(0x100e, 4).len(), 0);
    // Lies past the range.
    assert_eq!(interceptor.on_code_hook(0x1010, 2).len(), 0);
}

#[test]
fn instruction_spanning_the_whole_range_fires() {
    let mut interceptor: Interceptor<u32> = Interceptor::new();
    interceptor.add_hook(code(), 0x2000, 8, name("h")).unwrap();
    assert_eq!(interceptor.on_code_hook(0x2000, 8).len(), 1);
}

#[test]
fn instruction_one_byte_beyond_the_end_does_not_fire() {
    let mut interceptor: Interceptor<u32> = Interceptor::new();
    interceptor.add_hook(code(), 0x2000, 8, name("h")).unwrap();
    assert_eq!(interceptor.on_code_hook(0x2000, 9).len(), 0);
    assert_eq!(interceptor.on_code_hook(0x2005, 4).len(), 0);
    assert_eq!(interceptor.on_code_hook(0x2004, 4).len(), 1);
}

#[test]
fn instruction_at_the_top_of_the_address_space_does_not_overflow() {
    let mut interceptor: Interceptor<u32> = Interceptor::new();
    interceptor
        .insert_code_hook(7, u64::MAX - 8, 8, HandlerKind::Named, name("h"), None)
        .unwrap();
    assert_eq!(interceptor.on_code_hook(u64::MAX - 4, 4).len(), 1);
    assert_eq!(interceptor.on_code_hook(u64::MAX - 3, 4).len(), 0);
    assert_eq!(interceptor.on_code_hook(u64::MAX, u32::MAX).len(), 0);
}

#[test]
fn code_hook_fires_agrees_with_dispatch() {
    let hook = CodeHook {
        id: 1,
        begin: 10,
        end: 20,
        kind: HandlerKind::Named,
        handler: name("h"),
    };
    assert!(hook.fires(10, 10));
    assert!(hook.fires(16, 4));
    assert!(!hook.fires(9, 4));
    assert!(!hook.fires(17, 4));
    assert!(!hook.fires(10, 11));
    assert!(hook.fires(20, 0));
    assert!(!hook.fires(21, 0));
}

#[test]
fn overlapping_hooks_fire_in_registration_order_every_time() {
    let mut interceptor: Interceptor<u32> = Interceptor::new();
    let mut ids = Vec::new();
    for i in 0..16u64 {
        let handler = format!("handler_{}", i);
        // Ranges of different extent, all of which hold [0x100, 0x104).
        let id = interceptor
            .add_hook(code(), 0x100 - (i as i64), 0x10 + 2 * (i as i64), handler)
            .unwrap();
        ids.push(id);
    }
    for _ in 0..5 {
        let calls = interceptor.on_code_hook(0x100, 4);
        let fired: Vec<u64> = calls.iter().map(|c| c.id).collect();
        assert_eq!(fired, ids);
        let handlers: Vec<String> = calls.iter().map(|c| c.handler.clone()).collect();
        let expected: Vec<String> = (0..16).map(|i| format!("handler_{}", i)).collect();
        assert_eq!(handlers, expected);
    }
}

#[test]
fn hooks_that_do_not_match_are_skipped_in_place() {
    let mut interceptor: Interceptor<u32> = Interceptor::new();
    let a = interceptor.add_hook(code(), 0x100, 0x10, name("a")).unwrap();
    let _b = interceptor.add_hook(code(), 0x200, 0x10, name("b")).unwrap();
    let c = interceptor.add_cb_hook(code(), 0x0, 0x1000, name("c")).unwrap();
    let calls = interceptor.on_code_hook(0x104, 2);
    assert_eq!(calls.len(), 2);
    assert_eq!(calls[0].id, a);
    assert_eq!(calls[0].kind, HandlerKind::Named);
    assert_eq!(calls[1].id, c);
    assert_eq!(calls[1].kind, HandlerKind::Closure);
    assert_eq!(calls[1].handler, "c");
}

#[test]
fn a_million_registrations_get_a_million_identifiers() {
    let mut interceptor: Interceptor<u32> = Interceptor::new();
    let mut seen: HashSet<u64> = HashSet::new();
    for i in 0..1_000_000i64 {
        let id = interceptor.add_hook(code(), i, 4, String::new()).unwrap();
        assert!(seen.insert(id), "identifier {} was handed out twice", id);
    }
    assert_eq!(seen.len(), 1_000_000);
    assert_eq!(interceptor.get_code_hooks().len(), 1_000_000);
}

#[test]
fn a_taken_candidate_is_replaced_by_the_next_free_identifier() {
    let mut interceptor: Interceptor<u32> = Interceptor::new();
    let first = interceptor
        .insert_code_hook(41, 0, 4, HandlerKind::Named, name("a"), None)
        .unwrap();
    let second = interceptor
        .insert_code_hook(41, 0, 4, HandlerKind::Named, name("b"), None)
        .unwrap();
    let third = interceptor
        .insert_code_hook(41, 0, 4, HandlerKind::Named, name("c"), None)
        .unwrap();
    let fourth = interceptor
        .insert_code_hook(42, 0, 4, HandlerKind::Named, name("d"), None)
        .unwrap();
    assert_eq!((first, second, third, fourth), (41, 42, 43, 44));
}

#[test]
fn identifiers_wrap_around_after_the_largest() {
    let mut interceptor: Interceptor<u32> = Interceptor::new();
    let first = interceptor
        .insert_code_hook(u64::MAX, 0, 4, HandlerKind::Named, name("a"), None)
        .unwrap();
    let second = interceptor
        .insert_code_hook(u64::MAX, 0, 4, HandlerKind::Named, name("b"), None)
        .unwrap();
    let third = interceptor
        .insert_code_hook(u64::MAX, 0, 4, HandlerKind::Named, name("c"), None)
        .unwrap();
    assert_eq!((first, second, third), (u64::MAX, 0, 1));
}

#[test]
fn emit_reaches_the_callbacks_of_its_type_in_order() {
    let mut interceptor: Interceptor<u32> = Interceptor::new();
    interceptor.on_event(name("tick"), name("c1"));
    interceptor.on_event(name("boot"), name("on_boot"));
    interceptor.on_cb_event(name("tick"), name("c2"));
    let calls = interceptor.emit(name("tick"), name("x"));
    assert_eq!(calls.len(), 2);
    assert_eq!(calls[0].handler, "c1");
    assert_eq!(calls[1].handler, "c2");
    for call in &calls {
        assert_eq!(call.event_type, "tick");
        assert_eq!(call.message, "x");
        assert_eq!(call.kind, HandlerKind::Closure);
        assert_ne!(call.handler, "on_boot");
    }
    let boot = interceptor.emit(name("boot"), name("now"));
    assert_eq!(boot.len(), 1);
    assert_eq!(boot[0].handler, "on_boot");
    assert_eq!(boot[0].message, "now");
    assert!(interceptor.emit(name("halt"), name("x")).is_empty());
    assert!(interceptor.emit(name("Tick"), name("x")).is_empty());
}

#[test]
fn emit_leaves_the_hook_table_alone() {
    let mut interceptor: Interceptor<u32> = Interceptor::new();
    interceptor.add_hook(code(), 0, 4, name("h")).unwrap();
    interceptor.on_event(name("tick"), name("c1"));
    let before = interceptor.get_code_hooks();
    let _ = interceptor.emit(name("tick"), name("x"));
    assert_eq!(interceptor.get_code_hooks(), before);
}

#[test]
fn payload_reaches_the_handler_unchanged() {
    let mut interceptor: Interceptor<Vec<(String, i64)>> = Interceptor::new();
    let payload = vec![(name("n"), 1i64)];
    let id = interceptor
        .add_hook_with_data(code(), 0x400, 0x20, name("with_data"), payload.clone())
        .unwrap();
    let plain = interceptor.add_hook(code(), 0x400, 0x20, name("plain")).unwrap();
    let cb = interceptor
        .add_cb_hook_with_data(code(), 0x400, 0x20, name("cb"), vec![(name("m"), 2i64)])
        .unwrap();
    for _ in 0..3 {
        let calls = interceptor.on_code_hook(0x410, 4);
        assert_eq!(calls.len(), 3);
        assert_eq!(calls[0].id, id);
        assert_eq!(calls[0].kind, HandlerKind::Named);
        assert_eq!(calls[0].data, Some(&payload));
        assert_eq!(calls[1].id, plain);
        assert_eq!(calls[1].data, None);
        assert_eq!(calls[2].id, cb);
        assert_eq!(calls[2].kind, HandlerKind::Closure);
        assert_eq!(calls[2].data, Some(&vec![(name("m"), 2i64)]));
    }
}

#[test]
fn unknown_hook_type_is_turned_down() {
    let mut interceptor: Interceptor<u32> = Interceptor::new();
    let result = interceptor.add_hook(name("DATA"), 0, 4, name("f"));
    assert_eq!(result, Err(HookError::UnknownHookType));
    let result = interceptor.add_cb_hook(name("code"), 0, 4, name("f"));
    assert_eq!(result, Err(HookError::UnknownHookType));
    let result = interceptor.add_hook_with_data(name(""), -1, 0, name("f"), 1);
    assert_eq!(result, Err(HookError::UnknownHookType));
    assert!(interceptor.get_code_hooks().is_empty());
}

#[test]
fn negative_address_is_turned_down() {
    let mut interceptor: Interceptor<u32> = Interceptor::new();
    let result = interceptor.add_hook(code(), -1, 4, name("f"));
    assert_eq!(result, Err(HookError::NegativeAddress));
    let result = interceptor.add_cb_hook_with_data(code(), i64::MIN, 0, name("f"), 3);
    assert_eq!(result, Err(HookError::NegativeAddress));
    assert!(interceptor.get_code_hooks().is_empty());
}

#[test]
fn empty_range_is_turned_down() {
    let mut interceptor: Interceptor<u32> = Interceptor::new();
    assert_eq!(
        interceptor.add_hook(code(), 0x10, 0, name("f")),
        Err(HookError::EmptyRange)
    );
    assert_eq!(
        interceptor.add_hook(code(), 0x10, -4, name("f")),
        Err(HookError::EmptyRange)
    );
    assert_eq!(
        interceptor.add_code_hook(0x10, 0, HandlerKind::Named, name("f"), None),
        Err(HookError::EmptyRange)
    );
    assert!(interceptor.get_code_hooks().is_empty());
    assert!(interceptor.on_code_hook(0x10, 0).is_empty());
}

#[test]
fn range_past_the_address_space_is_turned_down() {
    let mut interceptor: Interceptor<u32> = Interceptor::new();
    assert_eq!(
        interceptor.add_code_hook(u64::MAX, 1, HandlerKind::Named, name("f"), Some(1)),
        Err(HookError::RangeOverflow)
    );
    assert_eq!(
        interceptor.insert_code_hook(0, 1, u64::MAX, HandlerKind::Closure, name("f"), None),
        Err(HookError::RangeOverflow)
    );
    assert!(interceptor.get_code_hooks().is_empty());
    let id = interceptor
        .add_code_hook(u64::MAX - 1, 1, HandlerKind::Named, name("f"), None)
        .unwrap();
    let hooks = interceptor.get_code_hooks();
    assert_eq!(
        hooks,
        vec![CodeHook {
            id,
            begin: u64::MAX - 1,
            end: u64::MAX,
            kind: HandlerKind::Named,
            handler: name("f"),
        }]
    );
}

#[test]
fn largest_script_range_is_accepted() {
    let mut interceptor: Interceptor<u32> = Interceptor::new();
    let id = interceptor.add_hook(code(), i64::MAX, i64::MAX, name("f")).unwrap();
    let hooks = interceptor.get_code_hooks();
    assert_eq!(hooks[0].id, id);
    assert_eq!(hooks[0].begin, i64::MAX as u64);
    assert_eq!(hooks[0].end, u64::MAX - 1);
}

#[test]
fn snapshots_hold_the_tables_in_registration_order() {
    let mut interceptor: Interceptor<u32> = Interceptor::new();
    let a = interceptor.add_hook(code(), 0x10, 0x10, name("a")).unwrap();
    let b = interceptor.add_cb_hook(code(), 0x30, 0x8, name("b")).unwrap();
    interceptor.on_event(name("tick"), name("t"));
    interceptor.on_cb_event(name("boot"), name("u"));
    assert_eq!(
        interceptor.get_code_hooks(),
        vec![
            CodeHook { id: a, begin: 0x10, end: 0x20, kind: HandlerKind::Named, handler: name("a") },
            CodeHook { id: b, begin: 0x30, end: 0x38, kind: HandlerKind::Closure, handler: name("b") },
        ]
    );
    assert_eq!(
        interceptor.get_event_hooks(),
        vec![
            EventCallback { event_type: name("tick"), kind: HandlerKind::Closure, handler: name("t") },
            EventCallback { event_type: name("boot"), kind: HandlerKind::Closure, handler: name("u") },
        ]
    );
}

#[test]
fn registering_while_a_dispatch_is_carried_out_leaves_its_calls_alone() {
    let mut interceptor: Interceptor<u32> = Interceptor::new();
    interceptor.add_hook(code(), 0x100, 0x10, name("first")).unwrap();
    interceptor.add_hook(code(), 0x100, 0x10, name("second")).unwrap();
    let due: Vec<String> = interceptor
        .on_code_hook(0x100, 4)
        .into_iter()
        .map(|call| call.handler)
        .collect();
    // The first handler registers a hook on the very same instruction.
    interceptor.add_hook(code(), 0x100, 0x10, name("late")).unwrap();
    assert_eq!(due, vec![name("first"), name("second")]);
    let next: Vec<String> = interceptor
        .on_code_hook(0x100, 4)
        .into_iter()
        .map(|call| call.handler)
        .collect();
    assert_eq!(next, vec![name("first"), name("second"), name("late")]);
}

#[test]
fn snapshots_taken_between_operations_are_whole() {
    let mut interceptor: Interceptor<u64> = Interceptor::new();
    for round in 0..200i64 {
        let fired = interceptor.on_code_hook(0x1000, 4).len();
        assert_eq!(fired as i64, round);
        interceptor
            .add_hook_with_data(code(), 0x1000, 0x10 + round, name("added"), round as u64)
            .unwrap();
        interceptor.on_event(name("tick"), name("t"));
        let hooks = interceptor.get_code_hooks();
        let events = interceptor.get_event_hooks();
        assert_eq!(hooks.len() as i64, round + 1);
        assert_eq!(events.len() as i64, round + 1);
        let mut ids = HashSet::new();
        for hook in &hooks {
            assert!(hook.begin < hook.end);
            assert_eq!(hook.begin, 0x1000);
            assert_eq!(hook.handler, "added");
            assert!(ids.insert(hook.id));
        }
        for event in &events {
            assert_eq!(event.event_type, "tick");
            assert_eq!(event.handler, "t");
        }
    }
}
