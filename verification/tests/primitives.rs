//! Tests of the selector, context, protocol and value primitives.

use ferrite_session::context::{Slot, append_context, extract_source, insert_target};
use ferrite_session::prism::{
    MergeProtocolSum, ProtocolField, ProtocolPrism, Selector, Sum, ToMerge, ToSession, ToUnit,
    ToValue, elim_sum, intro_sum, merge_sum, resolve_sum,
};
use ferrite_session::protocol::{Protocol, ValueTy, clone_protocol, dual, is_dual, same_protocol};
use ferrite_session::session::{InternalChoiceResult, left_choice, right_choice, terminate};
use ferrite_session::value::{Value, fix_value, unfix_value};

fn int_val(v: u64) -> Value {
    Value::Int(v)
}

#[test]
fn selector_round_trip_same_branch() {
    for n in 1..5usize {
        for k in 0..n {
            let u = intro_sum(k, n, int_val(7 + k as u64));
            assert_eq!(elim_sum(k, n, u), Some(int_val(7 + k as u64)));
        }
    }
}

#[test]
fn selector_mismatch_reports_absence() {
    for n in 2..5usize {
        for k in 0..n {
            for j in 0..n {
                if j != k {
                    let u = intro_sum(k, n, int_val(42));
                    assert_eq!(elim_sum(j, n, u), None);
                }
            }
        }
    }
}

#[test]
fn selector_width_one_is_transparent() {
    assert_eq!(intro_sum(0, 1, int_val(3)), int_val(3));
    assert_eq!(elim_sum(0, 1, int_val(3)), Some(int_val(3)));
}

#[test]
fn resolve_sum_finds_the_injected_branch() {
    for n in 1..5usize {
        for k in 0..n {
            let u = intro_sum(k, n, int_val(k as u64));
            assert_eq!(resolve_sum(n, u), Some((k, int_val(k as u64))));
        }
    }
}

#[test]
fn merge_sum_same_branch_pairs_values() {
    let u1 = intro_sum(1, 3, int_val(10));
    let u2 = intro_sum(1, 3, int_val(20));
    let merged = merge_sum(3, u1, u2).expect("same branch must merge");
    assert_eq!(
        elim_sum(1, 3, merged),
        Some(Value::Pair(Box::new(int_val(10)), Box::new(int_val(20))))
    );
}

#[test]
fn merge_trait_agrees_with_free_function() {
    let m = ToMerge { first: ToValue {}, second: ToValue {} };
    let u1 = intro_sum(2, 4, int_val(1));
    let u2 = intro_sum(2, 4, int_val(2));
    let merged = m.merge_sum(4, u1, u2).expect("same branch must merge");
    assert_eq!(
        elim_sum(2, 4, merged),
        Some(Value::Pair(Box::new(int_val(1)), Box::new(int_val(2))))
    );
}

#[test]
fn merge_sum_different_branches_fails() {
    let u1 = intro_sum(0, 3, int_val(10));
    let u2 = intro_sum(2, 3, int_val(20));
    assert_eq!(merge_sum(3, u1, u2), None);
}

#[test]
fn selector_struct_round_trips() {
    let s = Selector { index: 2 };
    let u = s.intro_sum(4, int_val(9));
    assert_eq!(s.elim_sum(4, u), Some(int_val(9)));
    let other = Selector { index: 0 };
    let u2 = s.intro_sum(4, int_val(9));
    assert_eq!(other.elim_sum(4, u2), None);
}

#[test]
fn protocol_fields_classify_values() {
    assert!(ToValue {}.accepts(&int_val(1)));
    assert!(ToValue {}.accepts(&Value::Unit));
    assert!(!ToValue {}.accepts(&Value::Chan(0)));
    assert!(ToUnit {}.accepts(&Value::Unit));
    assert!(!ToUnit {}.accepts(&int_val(1)));
    assert!(ToSession {}.accepts(&Value::Chan(3)));
    assert!(!ToSession {}.accepts(&Value::Unit));
    let m = ToMerge { first: ToValue {}, second: ToSession {} };
    assert!(m.accepts(&Value::Pair(Box::new(int_val(1)), Box::new(Value::Chan(0)))));
    assert!(!m.accepts(&Value::Pair(Box::new(Value::Chan(0)), Box::new(Value::Chan(1)))));
    assert!(!m.accepts(&int_val(1)));
}

#[test]
fn context_append_extract_insert() {
    let mut ctx: Vec<Slot> = Vec::new();
    append_context(&mut ctx, 4);
    append_context(&mut ctx, 9);
    assert_eq!(ctx, vec![Slot::Held(4), Slot::Held(9)]);
    assert_eq!(extract_source(&mut ctx, 0), Some(4));
    assert_eq!(ctx, vec![Slot::Empty, Slot::Held(9)]);
    // the emptied slot yields nothing a second time
    assert_eq!(extract_source(&mut ctx, 0), None);
    // merging an endpoint back restores a full context
    assert!(insert_target(&mut ctx, 0, 7));
    assert_eq!(ctx, vec![Slot::Held(7), Slot::Held(9)]);
    // a held slot cannot be overwritten
    assert!(!insert_target(&mut ctx, 0, 8));
    // positions outside the context are rejected
    assert_eq!(extract_source(&mut ctx, 5), None);
    assert!(!insert_target(&mut ctx, 5, 1));
}

#[test]
fn context_split_merge_is_inverse() {
    let mut ctx = vec![Slot::Held(1), Slot::Held(2), Slot::Held(3)];
    let before = ctx.clone();
    let c = extract_source(&mut ctx, 1).expect("slot held");
    assert!(insert_target(&mut ctx, 1, c));
    assert_eq!(ctx, before);
}

#[test]
fn choice_result_tags_sides() {
    let l: InternalChoiceResult = left_choice(terminate());
    match l.result {
        Sum::Inl(_) => {},
        Sum::Inr(_) => panic!("left_choice must tag left"),
    }
    let r: InternalChoiceResult = right_choice(terminate());
    match r.result {
        Sum::Inl(_) => panic!("right_choice must tag right"),
        Sum::Inr(_) => {},
    }
}

#[test]
fn fix_unfix_round_trip() {
    let w = fix_value(Value::Pair(Box::new(int_val(1)), Box::new(Value::Chan(5))));
    assert_eq!(
        unfix_value(w),
        Some(Value::Pair(Box::new(int_val(1)), Box::new(Value::Chan(5))))
    );
    assert_eq!(unfix_value(int_val(3)), None);
}

#[test]
fn protocol_duality() {
    let p = Protocol::SendValue(ValueTy::IntTy, Box::new(Protocol::Terminate));
    let q = Protocol::ReceiveValue(ValueTy::IntTy, Box::new(Protocol::Terminate));
    assert!(is_dual(&p, &q));
    assert!(is_dual(&q, &p));
    assert!(!is_dual(&p, &p));
    assert!(same_protocol(&dual(&p), &q));
    assert!(same_protocol(&dual(&dual(&p)), &p));

    let choice = Protocol::InternalChoice(
        Box::new(clone_protocol(&p)),
        Box::new(Protocol::Terminate),
    );
    let co_choice = Protocol::ExternalChoice(
        Box::new(clone_protocol(&q)),
        Box::new(Protocol::Terminate),
    );
    assert!(is_dual(&choice, &co_choice));
    assert!(!is_dual(&choice, &choice));

    let rec = Protocol::RecursiveDef(
        0,
        Box::new(Protocol::SendValue(ValueTy::StrTy, Box::new(Protocol::RecursiveVar(0)))),
    );
    let co_rec = Protocol::RecursiveDef(
        0,
        Box::new(Protocol::ReceiveValue(ValueTy::StrTy, Box::new(Protocol::RecursiveVar(0)))),
    );
    assert!(is_dual(&rec, &co_rec));

    let transfer = Protocol::SendChannel(
        Box::new(clone_protocol(&p)),
        Box::new(Protocol::Terminate),
    );
    let co_transfer = Protocol::ReceiveChannel(
        Box::new(clone_protocol(&p)),
        Box::new(Protocol::Terminate),
    );
    // the transferred sub-session keeps its own protocol under duality
    assert!(is_dual(&transfer, &co_transfer));
}
