//! Session builders: explicit state-machine objects describing the
//! interactions a process performs, one constructor per protocol step.
//!
//! A [`PartialSession`] is a deferred computation: given a context
//! providing the input endpoints it needs and one output endpoint to
//! drive, it performs exactly the interactions its target protocol
//! dictates.  Builders compose bottom-up, leaves first; running the
//! composed root is the executor's job.

use vstd::prelude::*;

use crate::prism::Sum;
use crate::value::Value;

verus! {

/// A payload expression of a session step: a literal value, or a
/// reference to the `i`-th most recently received value, which is
/// consumed by its use (a received value is a linear resource too).
#[derive(Debug)]
pub enum Expr {
    Lit(Value),
    Var(usize),
}

/// A deferred session computation, one variant per protocol step.
///
/// Slot numbers name positions of the input context.  `Link` is the
/// composition node: it runs a provider process in a sibling task and
/// hands its endpoint to the continuation as a fresh trailing slot.
/// `Invalid` marks a composition that violated a construction contract;
/// executing it fails the session loudly.
#[derive(Debug)]
pub enum PartialSession {
    /// No further interaction: signal completion on the output endpoint.
    Terminate,
    /// Send one payload value over the output endpoint, then continue.
    SendValue(Expr, Box<PartialSession>),
    /// Receive one payload value from the endpoint in a slot, bind it,
    /// then continue.
    ReceiveValueFrom(usize, Box<PartialSession>),
    /// Receive a whole sub-session endpoint from the peer and append it
    /// as a fresh trailing slot, then continue.
    ReceiveChannel(Box<PartialSession>),
    /// Receive a sub-session endpoint from the peer into a previously
    /// emptied slot, then continue.
    ReceiveChannelSlot(usize, Box<PartialSession>),
    /// Hand the endpoint held in the second slot over to the peer whose
    /// endpoint is in the first slot, then continue.
    SendChannelTo(usize, usize, Box<PartialSession>),
    /// Send the endpoint held in a slot over the output endpoint, then
    /// continue.
    SendChannelFrom(usize, Box<PartialSession>),
    /// Receive a sub-session endpoint from the endpoint in a slot and
    /// append it as a fresh trailing slot, then continue.
    ReceiveChannelFrom(usize, Box<PartialSession>),
    /// Wait for the session in a slot to terminate, emptying the slot,
    /// then continue.
    Wait(usize, Box<PartialSession>),
    /// Internal choice: pick branch `k` of `n`, announce it over the
    /// output endpoint, then continue as that branch.
    OfferBranch(usize, usize, Box<PartialSession>),
    /// External choice: learn from the endpoint in a slot which branch
    /// the peer picked, then continue as that branch's continuation.
    Case(usize, Vec<PartialSession>),
    /// Provide one unrolling of a recursive protocol: wrap the
    /// continuation's traffic in a fixpoint marker.
    Fix(Box<PartialSession>),
    /// Consume one unrolling of a recursive protocol from the endpoint
    /// in a slot: unwrap its fixpoint marker, then continue.
    Unfix(usize, Box<PartialSession>),
    /// Composition: run the provider, feed its endpoint to the
    /// continuation as a fresh trailing slot.
    Link(Box<PartialSession>, Box<PartialSession>),
    /// A composition that broke a construction contract.
    Invalid,
}

/// The builder with no further interaction.
pub fn terminate() -> (r: PartialSession)
    ensures
        r == PartialSession::Terminate,
{
    PartialSession::Terminate
}

/// Sends one payload value, then continues: value payloads carry no
/// context change.
pub fn send_value(payload: Expr, cont: PartialSession) -> (r: PartialSession)
    ensures
        r == PartialSession::SendValue(payload, Box::new(cont)),
{
    PartialSession::SendValue(payload, Box::new(cont))
}

/// Receives one payload value from the endpoint in slot `n` and binds it
/// for the continuation.
pub fn receive_value_from(n: usize, cont: PartialSession) -> (r: PartialSession)
    ensures
        r == PartialSession::ReceiveValueFrom(n, Box::new(cont)),
{
    PartialSession::ReceiveValueFrom(n, Box::new(cont))
}

/// Receives a sub-session endpoint from the peer; the continuation sees
/// it as a fresh trailing slot.
pub fn receive_channel(cont: PartialSession) -> (r: PartialSession)
    ensures
        r == PartialSession::ReceiveChannel(Box::new(cont)),
{
    PartialSession::ReceiveChannel(Box::new(cont))
}

/// Receives a sub-session endpoint from the peer into the previously
/// emptied slot `n`.
pub fn receive_channel_slot(n: usize, cont: PartialSession) -> (r: PartialSession)
    ensures
        r == PartialSession::ReceiveChannelSlot(n, Box::new(cont)),
{
    PartialSession::ReceiveChannelSlot(n, Box::new(cont))
}

/// Hands the endpoint in slot `n2` over to the peer whose endpoint is in
/// slot `n1`; afterwards slot `n2` is empty and slot `n1` follows the
/// peer's continuation.
pub fn send_channel_to(n1: usize, n2: usize, cont: PartialSession) -> (r: PartialSession)
    ensures
        r == PartialSession::SendChannelTo(n1, n2, Box::new(cont)),
{
    PartialSession::SendChannelTo(n1, n2, Box::new(cont))
}

/// Sends the endpoint in slot `n` over the output endpoint, emptying the
/// slot.
pub fn send_channel_from(n: usize, cont: PartialSession) -> (r: PartialSession)
    ensures
        r == PartialSession::SendChannelFrom(n, Box::new(cont)),
{
    PartialSession::SendChannelFrom(n, Box::new(cont))
}

/// Receives a sub-session endpoint from the endpoint in slot `n`; the
/// continuation sees it as a fresh trailing slot.
pub fn receive_channel_from(n: usize, cont: PartialSession) -> (r: PartialSession)
    ensures
        r == PartialSession::ReceiveChannelFrom(n, Box::new(cont)),
{
    PartialSession::ReceiveChannelFrom(n, Box::new(cont))
}

/// Waits for the session in slot `n` to terminate, emptying the slot.
pub fn wait(n: usize, cont: PartialSession) -> (r: PartialSession)
    ensures
        r == PartialSession::Wait(n, Box::new(cont)),
{
    PartialSession::Wait(n, Box::new(cont))
}

/// Internal choice: offers branch `k` of an `n`-way choice.
pub fn offer_branch(k: usize, n: usize, cont: PartialSession) -> (r: PartialSession)
    requires
        k < n,
    ensures
        r == PartialSession::OfferBranch(k, n, Box::new(cont)),
{
    PartialSession::OfferBranch(k, n, Box::new(cont))
}

/// Internal choice: offers the left branch of a two-way choice.
pub fn offer_left(cont: PartialSession) -> (r: PartialSession)
    ensures
        r == PartialSession::OfferBranch(0, 2, Box::new(cont)),
{
    PartialSession::OfferBranch(0, 2, Box::new(cont))
}

/// Internal choice: offers the right branch of a two-way choice.
pub fn offer_right(cont: PartialSession) -> (r: PartialSession)
    ensures
        r == PartialSession::OfferBranch(1, 2, Box::new(cont)),
{
    PartialSession::OfferBranch(1, 2, Box::new(cont))
}

/// External choice over the endpoint in slot `n`: continues as the one
/// branch the peer picked, among the two given continuations.
pub fn case(n: usize, on_left: PartialSession, on_right: PartialSession) -> (r: PartialSession)
    ensures
        r matches PartialSession::Case(slot, bs) && slot == n && bs@ == seq![
            on_left,
            on_right,
        ],
{
    PartialSession::Case(n, vec![on_left, on_right])
}

/// External choice over the endpoint in slot `n`, of arbitrary width.
pub fn case_branches(n: usize, branches: Vec<PartialSession>) -> (r: PartialSession)
    requires
        branches@.len() >= 1,
    ensures
        r == PartialSession::Case(n, branches),
{
    PartialSession::Case(n, branches)
}

/// Provides one unrolling of a recursive protocol: the continuation's
/// output is re-interpreted as an instance of the recursive protocol.
pub fn fix_session(cont: PartialSession) -> (r: PartialSession)
    ensures
        r == PartialSession::Fix(Box::new(cont)),
{
    PartialSession::Fix(Box::new(cont))
}

/// Consumes one unrolling of a recursive protocol from the endpoint in
/// slot `n`.
pub fn unfix_session(n: usize, cont: PartialSession) -> (r: PartialSession)
    ensures
        r == PartialSession::Unfix(n, Box::new(cont)),
{
    PartialSession::Unfix(n, Box::new(cont))
}

/// The outcome of resolving a two-way choice: the continuation for the
/// branch that was actually taken, tagged with its side.
pub struct InternalChoiceResult {
    pub result: Sum<Box<PartialSession>, Box<PartialSession>>,
}

/// Tags a continuation as belonging to the left branch of a two-way
/// choice.
pub fn left_choice(res: PartialSession) -> (r: InternalChoiceResult)
    ensures
        r.result == Sum::<Box<PartialSession>, Box<PartialSession>>::Inl(Box::new(res)),
{
    InternalChoiceResult { result: Sum::Inl(Box::new(res)) }
}

/// Tags a continuation as belonging to the right branch of a two-way
/// choice.
pub fn right_choice(res: PartialSession) -> (r: InternalChoiceResult)
    ensures
        r.result == Sum::<Box<PartialSession>, Box<PartialSession>>::Inr(Box::new(res)),
{
    InternalChoiceResult { result: Sum::Inr(Box::new(res)) }
}

/// What composing a provider into a session's fresh input comes to: the
/// provider is attached at the session's `ReceiveChannel` head, below any
/// earlier attachments; anything else is a construction error.
pub open spec fn spec_apply_channel(p: PartialSession, q: PartialSession) -> PartialSession
    decreases p,
{
    match p {
        PartialSession::ReceiveChannel(cont) => PartialSession::Link(Box::new(q), cont),
        PartialSession::Link(q1, c) => PartialSession::Link(
            q1,
            Box::new(spec_apply_channel(*c, q)),
        ),
        _ => PartialSession::Invalid,
    }
}

/// Composes a session expecting one more input with a provider for that
/// input.
pub fn apply_channel(p: PartialSession, q: PartialSession) -> (r: PartialSession)
    ensures
        r == spec_apply_channel(p, q),
    decreases p,
{
    match p {
        PartialSession::ReceiveChannel(cont) => PartialSession::Link(Box::new(q), cont),
        PartialSession::Link(q1, c) => PartialSession::Link(q1, Box::new(apply_channel(*c, q))),
        _ => PartialSession::Invalid,
    }
}

} // verus!
