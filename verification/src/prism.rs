//! The selector (prism) subsystem: a bidirectional mapping between the
//! value produced by one branch of a choice and the tagged union value
//! shared by all sibling branches.
//!
//! An n-ary union is encoded as nested binary sums, right-terminated by a
//! bare value: for a choice of width `n`, branch `k < n - 1` is
//! `Inr^k(Inl(v))` and the last branch is `Inr^(n-1)(v)`.

use vstd::prelude::*;

use crate::value::Value;

verus! {

/// A binary tagged union: the building block of the shared wire
/// representation of a choice.
#[derive(PartialEq, Eq, Debug)]
pub enum Sum<P, Q> {
    Inl(P),
    Inr(Q),
}

/// Injection of branch `k`'s value into the shared union of a choice of
/// width `n`.
pub open spec fn spec_intro_sum(k: int, n: int, v: Value) -> Value
    recommends
        0 <= k < n,
    decreases n,
{
    if n <= 1 {
        v
    } else if k <= 0 {
        Value::Inl(Box::new(v))
    } else {
        Value::Inr(Box::new(spec_intro_sum(k - 1, n - 1, v)))
    }
}

/// Extraction of branch `k`'s value back out of a union of width `n`:
/// `Some` when the union actually carries branch `k`, `None` otherwise.
pub open spec fn spec_elim_sum(k: int, n: int, s: Value) -> Option<Value>
    recommends
        0 <= k < n,
    decreases n,
{
    if n <= 1 {
        Some(s)
    } else if k <= 0 {
        match s {
            Value::Inl(v) => Some(*v),
            _ => None,
        }
    } else {
        match s {
            Value::Inr(r) => spec_elim_sum(k - 1, n - 1, *r),
            _ => None,
        }
    }
}

/// Builds the union value that tags `v` as branch `k` of `n`.
pub fn intro_sum(k: usize, n: usize, v: Value) -> (r: Value)
    requires
        k < n,
    ensures
        r == spec_intro_sum(k as int, n as int, v),
    decreases n,
{
    if n <= 1 {
        v
    } else if k == 0 {
        Value::Inl(Box::new(v))
    } else {
        Value::Inr(Box::new(intro_sum(k - 1, n - 1, v)))
    }
}

/// Probes a union of width `n` for branch `k`: absence is the designed
/// answer for every branch the union does not carry, never an error.
pub fn elim_sum(k: usize, n: usize, s: Value) -> (r: Option<Value>)
    requires
        k < n,
    ensures
        r == spec_elim_sum(k as int, n as int, s),
    decreases n,
{
    if n <= 1 {
        Some(s)
    } else if k == 0 {
        match s {
            Value::Inl(v) => Some(*v),
            _ => None,
        }
    } else {
        match s {
            Value::Inr(r) => elim_sum(k - 1, n - 1, *r),
            _ => None,
        }
    }
}

/// Selector round trip, first half: extraction for the same branch always
/// succeeds and returns the original value.
pub proof fn lemma_selector_round_trip(k: int, n: int, v: Value)
    requires
        0 <= k < n,
    ensures
        spec_elim_sum(k, n, spec_intro_sum(k, n, v)) == Some(v),
    decreases n,
{
    if n > 1 && k > 0 {
        lemma_selector_round_trip(k - 1, n - 1, v);
    }
}

/// Selector round trip, second half: extraction for any other branch of
/// the same choice always reports absence, never a wrong value.
pub proof fn lemma_selector_mismatch(j: int, k: int, n: int, v: Value)
    requires
        0 <= j < n,
        0 <= k < n,
        j != k,
    ensures
        spec_elim_sum(j, n, spec_intro_sum(k, n, v)) is None,
    decreases n,
{
    if j > 0 && k > 0 {
        lemma_selector_mismatch(j - 1, k - 1, n - 1, v);
    }
}

/// The branch a union of width `n` carries, together with its value,
/// scanning the nesting in the fixed branch order.
pub open spec fn spec_resolve_sum(n: int, s: Value) -> Option<(int, Value)>
    recommends
        n >= 1,
    decreases n,
{
    if n <= 1 {
        Some((0, s))
    } else {
        match s {
            Value::Inl(v) => Some((0, *v)),
            Value::Inr(r) => match spec_resolve_sum(n - 1, *r) {
                Some(kv) => Some((kv.0 + 1, kv.1)),
                None => None,
            },
            _ => None,
        }
    }
}

/// Finds the one branch a union of width `n` carries; `None` means the
/// value is not a well-formed union of that width.
pub fn resolve_sum(n: usize, s: Value) -> (r: Option<(usize, Value)>)
    requires
        n >= 1,
    ensures
        match r {
            Some(kv) => {
                &&& spec_resolve_sum(n as int, s) == Some((kv.0 as int, kv.1))
                &&& kv.0 < n
            },
            None => spec_resolve_sum(n as int, s) is None,
        },
    decreases n,
{
    if n <= 1 {
        Some((0, s))
    } else {
        match s {
            Value::Inl(v) => Some((0, *v)),
            Value::Inr(r) => match resolve_sum(n - 1, *r) {
                Some(kv) => Some((kv.0 + 1, kv.1)),
                None => None,
            },
            _ => None,
        }
    }
}

/// Choice agreement at the wire level: a union injected for branch `k`
/// always resolves to branch `k` and to the injected value, for every `k`
/// in range.
pub proof fn lemma_resolve_intro(k: int, n: int, v: Value)
    requires
        0 <= k < n,
    ensures
        spec_resolve_sum(n, spec_intro_sum(k, n, v)) == Some((k, v)),
    decreases n,
{
    if n > 1 && k > 0 {
        lemma_resolve_intro(k - 1, n - 1, v);
    }
}

/// Merge of two unions of the same width: defined exactly when both carry
/// the same branch, and then carries that branch's pair of values.
pub open spec fn spec_merge_sum(n: int, s1: Value, s2: Value) -> Option<Value>
    recommends
        n >= 1,
    decreases n,
{
    if n <= 1 {
        Some(Value::Pair(Box::new(s1), Box::new(s2)))
    } else {
        match (s1, s2) {
            (Value::Inl(a), Value::Inl(b)) => Some(
                Value::Inl(Box::new(Value::Pair(a, b))),
            ),
            (Value::Inr(x), Value::Inr(y)) => match spec_merge_sum(n - 1, *x, *y) {
                Some(m) => Some(Value::Inr(Box::new(m))),
                None => None,
            },
            _ => None,
        }
    }
}

/// Merges two unions of width `n` into one union of pairs; `None` when
/// they carry different branches.
pub fn merge_sum(n: usize, s1: Value, s2: Value) -> (r: Option<Value>)
    requires
        n >= 1,
    ensures
        r == spec_merge_sum(n as int, s1, s2),
    decreases n,
{
    if n <= 1 {
        Some(Value::Pair(Box::new(s1), Box::new(s2)))
    } else {
        match (s1, s2) {
            (Value::Inl(a), Value::Inl(b)) => Some(
                Value::Inl(Box::new(Value::Pair(a, b))),
            ),
            (Value::Inr(x), Value::Inr(y)) => match merge_sum(n - 1, *x, *y) {
                Some(m) => Some(Value::Inr(Box::new(m))),
                None => None,
            },
            _ => None,
        }
    }
}

/// Merging preserves the selector round trip: two unions injected for the
/// same branch merge into the union injected for that branch carrying the
/// pair of their values, and unions injected for different branches do
/// not merge at all.
pub proof fn lemma_merge_sum_round_trip(j: int, k: int, n: int, a: Value, b: Value)
    requires
        0 <= j < n,
        0 <= k < n,
    ensures
        j == k ==> spec_merge_sum(n, spec_intro_sum(j, n, a), spec_intro_sum(k, n, b))
            == Some(spec_intro_sum(k, n, Value::Pair(Box::new(a), Box::new(b)))),
        j != k ==> spec_merge_sum(n, spec_intro_sum(j, n, a), spec_intro_sum(k, n, b)) is None,
    decreases n,
{
    if n > 1 && j > 0 && k > 0 {
        lemma_merge_sum_round_trip(j - 1, k - 1, n - 1, a, b);
    }
}

/// Classification of the wire value one branch of a choice carries: the
/// shape a branch's extracted value must have.
pub trait ProtocolField {
    /// The shape this field descriptor accepts.
    spec fn accepts_spec(&self, v: &Value) -> bool;

    /// Tests a value against this field descriptor.
    fn accepts(&self, v: &Value) -> (r: bool)
        ensures
            r == self.accepts_spec(v),
    ;
}

/// The branch carries a plain payload value.
pub struct ToValue {}

impl ProtocolField for ToValue {
    open spec fn accepts_spec(&self, v: &Value) -> bool {
        *v is Unit || *v is Int || *v is Str
    }

    fn accepts(&self, v: &Value) -> (r: bool) {
        match v {
            Value::Unit => true,
            Value::Int(_) => true,
            Value::Str(_) => true,
            _ => false,
        }
    }
}

/// The branch carries no payload at all.
pub struct ToUnit {}

impl ProtocolField for ToUnit {
    open spec fn accepts_spec(&self, v: &Value) -> bool {
        *v is Unit
    }

    fn accepts(&self, v: &Value) -> (r: bool) {
        match v {
            Value::Unit => true,
            _ => false,
        }
    }
}

/// The branch carries a whole sub-session, as a channel endpoint.
pub struct ToSession {}

impl ProtocolField for ToSession {
    open spec fn accepts_spec(&self, v: &Value) -> bool {
        *v is Chan
    }

    fn accepts(&self, v: &Value) -> (r: bool) {
        match v {
            Value::Chan(_) => true,
            _ => false,
        }
    }
}

/// The branch carries the pair of two merged branches' values, one of
/// each shape.
pub struct ToMerge<T1, T2> {
    pub first: T1,
    pub second: T2,
}

impl<T1: ProtocolField, T2: ProtocolField> ProtocolField for ToMerge<T1, T2> {
    open spec fn accepts_spec(&self, v: &Value) -> bool {
        match *v {
            Value::Pair(a, b) => self.first.accepts_spec(&a) && self.second.accepts_spec(&b),
            _ => false,
        }
    }

    fn accepts(&self, v: &Value) -> (r: bool) {
        match v {
            Value::Pair(a, b) => self.first.accepts(a) && self.second.accepts(b),
            _ => false,
        }
    }
}

/// A selector: the position of one branch within the nested union of a
/// choice, with its injection and extraction.
pub trait ProtocolPrism {
    /// The branch this selector names.
    spec fn index_spec(&self) -> int;

    /// Injects this branch's value into the shared union of a choice of
    /// width `n`.
    fn intro_sum(&self, n: usize, v: Value) -> (r: Value)
        requires
            0 <= self.index_spec() < n as int,
        ensures
            r == spec_intro_sum(self.index_spec(), n as int, v),
    ;

    /// Extracts this branch's value back out of a union of width `n`,
    /// reporting absence for a union carrying any other branch.
    fn elim_sum(&self, n: usize, s: Value) -> (r: Option<Value>)
        requires
            0 <= self.index_spec() < n as int,
        ensures
            r == spec_elim_sum(self.index_spec(), n as int, s),
    ;
}

/// Merging of two choice unions into the union of paired values, for
/// choices whose branches are themselves built from independently
/// shaped sub-choices.
pub trait MergeProtocolSum {
    /// Merges two unions of width `n`: defined exactly when both carry
    /// the same branch.
    fn merge_sum(&self, n: usize, s1: Value, s2: Value) -> (r: Option<Value>)
        requires
            n >= 1,
        ensures
            r == spec_merge_sum(n as int, s1, s2),
    ;
}

impl<T1: ProtocolField, T2: ProtocolField> MergeProtocolSum for ToMerge<T1, T2> {
    fn merge_sum(&self, n: usize, s1: Value, s2: Value) -> (r: Option<Value>) {
        merge_sum(n, s1, s2)
    }
}

/// The selector for branch `index` of a choice.
pub struct Selector {
    pub index: usize,
}

impl ProtocolPrism for Selector {
    open spec fn index_spec(&self) -> int {
        self.index as int
    }

    fn intro_sum(&self, n: usize, v: Value) -> (r: Value) {
        intro_sum(self.index, n, v)
    }

    fn elim_sum(&self, n: usize, s: Value) -> (r: Option<Value>) {
        elim_sum(self.index, n, s)
    }
}

} // verus!
