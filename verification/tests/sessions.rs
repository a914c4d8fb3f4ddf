//! End-to-end tests: pairs of dual processes composed and executed.

use ferrite_session::RunError;
use ferrite_session::context::Slot;
use ferrite_session::executor::{
    machine_alloc, machine_alloc_dropped, machine_all_consumed, machine_new, machine_spawn,
    run_machine, run_session, run_session_in,
};
use ferrite_session::session::{
    Expr, PartialSession, apply_channel, case, case_branches, fix_session, offer_branch,
    offer_left, offer_right, receive_channel, receive_channel_from, receive_channel_slot,
    receive_value_from, send_channel_from, send_channel_to, send_value, terminate, unfix_session,
    wait,
};
use ferrite_session::value::Value;

const FUEL: u64 = 256;

fn lit_int(v: u64) -> Expr {
    Expr::Lit(Value::Int(v))
}

fn lit_str(s: &str) -> Expr {
    Expr::Lit(Value::Str(String::from(s)))
}

/// A consumer that reads one value from its linked peer, waits for the
/// peer to terminate, and re-offers the value as its own final output.
fn forward_one_value() -> PartialSession {
    receive_value_from(0, wait(0, send_value(Expr::Var(0), terminate())))
}

#[test]
fn send_value_scenario_yields_forty_two() {
    let producer = send_value(lit_int(42), terminate());
    let consumer = receive_channel(forward_one_value());
    let session = apply_channel(consumer, producer);
    assert_eq!(run_session(session, FUEL), Ok(Value::Int(42)));
}

#[test]
fn send_value_scenario_consumes_every_endpoint() {
    let producer = send_value(lit_int(42), terminate());
    let consumer = receive_channel(forward_one_value());
    let session = apply_channel(consumer, producer);
    let mut m = machine_new();
    assert_eq!(run_session_in(&mut m, session, FUEL), Ok(Value::Int(42)));
    // linearity audit: every channel created during the run delivered
    // its one value exactly once
    assert!(machine_all_consumed(&m));
}

#[test]
fn dropped_sender_surfaces_delivery_failure() {
    let mut m = machine_new();
    let gone = machine_alloc_dropped(&mut m);
    let root = machine_alloc(&mut m);
    machine_spawn(&mut m, forward_one_value(), vec![Slot::Held(gone)], root);
    assert_eq!(run_machine(&mut m, FUEL), Err(RunError::DeliveryFailure));
}

#[test]
fn three_way_choice_runs_exactly_the_picked_branch() {
    // the offering side picks branch 1 of 3, which produces "B"
    let provider = offer_branch(1, 3, send_value(lit_str("B"), terminate()));
    // branches 0 and 2 would expose themselves by producing a marker
    let unexpected = || receive_value_from(0, wait(0, send_value(lit_str("unexpected"), terminate())));
    let branches = vec![unexpected(), forward_one_value(), unexpected()];
    let consumer = receive_channel(case_branches(0, branches));
    let session = apply_channel(consumer, provider);
    assert_eq!(run_session(session, FUEL), Ok(Value::Str(String::from("B"))));
}

#[test]
fn two_way_choice_left() {
    let provider = offer_left(send_value(lit_int(1), terminate()));
    let consumer = receive_channel(case(0, forward_one_value(), unreachable_branch()));
    let session = apply_channel(consumer, provider);
    assert_eq!(run_session(session, FUEL), Ok(Value::Int(1)));
}

#[test]
fn two_way_choice_right() {
    let provider = offer_right(send_value(lit_int(2), terminate()));
    let consumer = receive_channel(case(0, unreachable_branch(), forward_one_value()));
    let session = apply_channel(consumer, provider);
    assert_eq!(run_session(session, FUEL), Ok(Value::Int(2)));
}

fn unreachable_branch() -> PartialSession {
    receive_value_from(0, wait(0, send_value(lit_int(999), terminate())))
}

#[test]
fn choice_width_disagreement_is_a_protocol_violation() {
    // the provider announces branch 1 of 3; the consumer only knows a
    // two-way choice, so the union it receives is malformed for it
    let provider = offer_branch(1, 3, send_value(lit_int(1), terminate()));
    let consumer = receive_channel(case(0, forward_one_value(), forward_one_value()));
    let session = apply_channel(consumer, provider);
    assert_eq!(run_session(session, FUEL), Err(RunError::ProtocolViolation));
}

#[test]
fn fix_unfix_session_is_transparent() {
    let provider = fix_session(send_value(lit_int(7), terminate()));
    let consumer = receive_channel(unfix_session(0, forward_one_value()));
    let session = apply_channel(consumer, provider);
    assert_eq!(run_session(session, FUEL), Ok(Value::Int(7)));
}

#[test]
fn nested_fix_unfix_layers_peel_in_order() {
    let provider = fix_session(fix_session(send_value(lit_int(13), terminate())));
    let consumer = receive_channel(unfix_session(0, unfix_session(0, forward_one_value())));
    let session = apply_channel(consumer, provider);
    assert_eq!(run_session(session, FUEL), Ok(Value::Int(13)));
}

#[test]
fn unfix_without_fix_is_a_protocol_violation() {
    let provider = send_value(lit_int(7), terminate());
    let consumer = receive_channel(unfix_session(0, forward_one_value()));
    let session = apply_channel(consumer, provider);
    assert_eq!(run_session(session, FUEL), Err(RunError::ProtocolViolation));
}

#[test]
fn channel_transfer_through_send_channel_from() {
    // q produces 5; p receives q's endpoint and forwards the whole
    // endpoint to its own client, then terminates
    let q = send_value(lit_int(5), terminate());
    let p = receive_channel(send_channel_from(0, terminate()));
    // the main process receives the forwarded endpoint (fresh trailing
    // slot 1), reads the value from it, then waits on both sessions
    let main = receive_channel(receive_channel_from(
        0,
        receive_value_from(1, wait(1, wait(0, send_value(Expr::Var(0), terminate())))),
    ));
    let session = apply_channel(main, apply_channel(p, q));
    assert_eq!(run_session(session, FUEL), Ok(Value::Int(5)));
}

#[test]
fn channel_transfer_through_send_channel_to() {
    // p asks for one channel and forwards the one value read from it
    let p = receive_channel(forward_one_value());
    let q = send_value(lit_int(9), terminate());
    // the outer process owns both endpoints and hands q's endpoint over
    // to p, then reads p's answer
    let outer = receive_channel(receive_channel(send_channel_to(0, 1, forward_one_value())));
    let session = apply_channel(apply_channel(outer, p), q);
    assert_eq!(run_session(session, FUEL), Ok(Value::Int(9)));
}

#[test]
fn channel_transfer_into_an_emptied_slot() {
    // p first consumes a terminating session, then asks for a second
    // channel into the very slot it emptied
    let p = receive_channel(wait(
        0,
        receive_channel_slot(0, forward_one_value()),
    ));
    let t = terminate();
    let q = send_value(lit_int(11), terminate());
    let outer = receive_channel(receive_channel(receive_channel(send_channel_to(
        0,
        1,
        send_channel_to(0, 2, forward_one_value()),
    ))));
    let session = apply_channel(apply_channel(apply_channel(outer, p), t), q);
    assert_eq!(run_session(session, FUEL), Ok(Value::Int(11)));
}

#[test]
fn no_fuel_reports_out_of_fuel() {
    let producer = send_value(lit_int(42), terminate());
    let consumer = receive_channel(forward_one_value());
    let session = apply_channel(consumer, producer);
    assert_eq!(run_session(session, 0), Err(RunError::OutOfFuel));
}

#[test]
fn invalid_composition_fails_loudly() {
    // a provider can only be attached at a ReceiveChannel head
    let session = apply_channel(terminate(), terminate());
    assert_eq!(run_session(session, FUEL), Err(RunError::ConstructionViolation));
}

#[test]
fn context_left_non_empty_at_terminate_fails_loudly() {
    let mut m = machine_new();
    let c = machine_alloc(&mut m);
    let root = machine_alloc(&mut m);
    machine_spawn(&mut m, terminate(), vec![Slot::Held(c)], root);
    assert_eq!(run_machine(&mut m, FUEL), Err(RunError::ConstructionViolation));
}
