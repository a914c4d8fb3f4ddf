//! Runtime values exchanged over session channels.

use vstd::prelude::*;

verus! {

/// A value travelling over a session channel.
///
/// Besides plain payloads (`Unit`, `Int`, `Str`), a value can carry a
/// channel endpoint (`Chan`), a pair of a payload and a continuation
/// endpoint (`Pair`), one side of a binary tagged union (`Inl` / `Inr`,
/// nested to encode an n-ary choice), or a fixpoint wrapper (`Fix`) that
/// marks one unrolling of a recursive protocol.
#[derive(PartialEq, Eq, Debug)]
pub enum Value {
    Unit,
    Int(u64),
    Str(String),
    Chan(usize),
    Pair(Box<Value>, Box<Value>),
    Inl(Box<Value>),
    Inr(Box<Value>),
    Fix(Box<Value>),
}

impl Value {
    /// The set of channel endpoints a value carries, at any nesting depth.
    pub open spec fn chans(self) -> Set<int>
        decreases self,
    {
        match self {
            Value::Chan(c) => Set::empty().insert(c as int),
            Value::Pair(a, b) => a.chans().union(b.chans()),
            Value::Inl(a) => a.chans(),
            Value::Inr(a) => a.chans(),
            Value::Fix(a) => a.chans(),
            _ => Set::empty(),
        }
    }
}

/// Wraps a value for one unrolling of a recursive protocol.
pub fn fix_value(v: Value) -> (r: Value)
    ensures
        r == Value::Fix(Box::new(v)),
{
    Value::Fix(Box::new(v))
}

/// Unwraps one fixpoint layer; reports absence on a value that does not
/// carry one.
pub fn unfix_value(v: Value) -> (r: Option<Value>)
    ensures
        match r {
            Some(w) => v == Value::Fix(Box::new(w)),
            None => v !is Fix,
        },
{
    match v {
        Value::Fix(w) => Some(*w),
        _ => None,
    }
}

/// Wrapping then unwrapping a value through the fixpoint marker returns
/// the original value, and the wrapper does not change which channel
/// endpoints the value carries; unwrapping then re-wrapping restores any
/// wrapped value.
pub proof fn lemma_fix_unfix_transparent(v: Value, w: Value)
    ensures
        Value::Fix(Box::new(v))->Fix_0 == v,
        Value::Fix(Box::new(v)).chans() == v.chans(),
        w is Fix ==> Value::Fix(w->Fix_0) == w,
{
}

} // verus!
