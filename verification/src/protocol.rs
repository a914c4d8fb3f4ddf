//! The protocol grammar: immutable descriptions of the communication
//! contract a session must follow.
//!
//! Protocols are pure descriptions and carry no runtime state.  Choices
//! are binary here; a choice of arbitrary width is a nesting of binary
//! choices, mirroring the nested binary unions of the selector
//! subsystem.  Structural duality can be checked before a session
//! executes: two parties agree exactly when each step of one mirrors the
//! step of the other.

use vstd::prelude::*;

verus! {

/// The type of one transferred payload value.
#[derive(PartialEq, Eq, Structural, Clone, Copy, Debug)]
pub enum ValueTy {
    UnitTy,
    IntTy,
    StrTy,
}

/// A protocol term: what interactions a session performs, in order.
#[derive(Debug)]
pub enum Protocol {
    /// No further interaction.
    Terminate,
    /// Transfer one payload value to the peer, then continue.
    SendValue(ValueTy, Box<Protocol>),
    /// Receive one payload value from the peer, then continue.
    ReceiveValue(ValueTy, Box<Protocol>),
    /// Transfer ownership of a sub-session endpoint, then continue.
    SendChannel(Box<Protocol>, Box<Protocol>),
    /// Take ownership of a sub-session endpoint, then continue.
    ReceiveChannel(Box<Protocol>, Box<Protocol>),
    /// This side picks one of the two continuation protocols.
    InternalChoice(Box<Protocol>, Box<Protocol>),
    /// The peer picks one of the two continuation protocols.
    ExternalChoice(Box<Protocol>, Box<Protocol>),
    /// A reference to an enclosing recursive definition.
    RecursiveVar(u64),
    /// A fixpoint binding: the body may refer to the whole protocol.
    RecursiveDef(u64, Box<Protocol>),
}

/// The dual of a protocol: each send mirrored by a receive, each choice
/// offered mirrored by a choice taken; a transferred sub-session keeps
/// its own protocol, since the very endpoint changes hands.
pub open spec fn spec_dual(p: Protocol) -> Protocol
    decreases p,
{
    match p {
        Protocol::Terminate => Protocol::Terminate,
        Protocol::SendValue(t, c) => Protocol::ReceiveValue(t, Box::new(spec_dual(*c))),
        Protocol::ReceiveValue(t, c) => Protocol::SendValue(t, Box::new(spec_dual(*c))),
        Protocol::SendChannel(s, c) => Protocol::ReceiveChannel(s, Box::new(spec_dual(*c))),
        Protocol::ReceiveChannel(s, c) => Protocol::SendChannel(s, Box::new(spec_dual(*c))),
        Protocol::InternalChoice(a, b) => Protocol::ExternalChoice(
            Box::new(spec_dual(*a)),
            Box::new(spec_dual(*b)),
        ),
        Protocol::ExternalChoice(a, b) => Protocol::InternalChoice(
            Box::new(spec_dual(*a)),
            Box::new(spec_dual(*b)),
        ),
        Protocol::RecursiveVar(x) => Protocol::RecursiveVar(x),
        Protocol::RecursiveDef(x, c) => Protocol::RecursiveDef(x, Box::new(spec_dual(*c))),
    }
}

/// Duality is an involution: the dual of the dual is the protocol
/// itself, so two parties can each derive the other's contract.
pub proof fn lemma_dual_involutive(p: Protocol)
    ensures
        spec_dual(spec_dual(p)) == p,
    decreases p,
{
    match p {
        Protocol::Terminate => {},
        Protocol::SendValue(t, c) => lemma_dual_involutive(*c),
        Protocol::ReceiveValue(t, c) => lemma_dual_involutive(*c),
        Protocol::SendChannel(s, c) => lemma_dual_involutive(*c),
        Protocol::ReceiveChannel(s, c) => lemma_dual_involutive(*c),
        Protocol::InternalChoice(a, b) => {
            lemma_dual_involutive(*a);
            lemma_dual_involutive(*b);
        },
        Protocol::ExternalChoice(a, b) => {
            lemma_dual_involutive(*a);
            lemma_dual_involutive(*b);
        },
        Protocol::RecursiveVar(x) => {},
        Protocol::RecursiveDef(x, c) => lemma_dual_involutive(*c),
    }
}

/// Builds the dual of a protocol.
pub fn dual(p: &Protocol) -> (r: Protocol)
    ensures
        r == spec_dual(*p),
    decreases *p,
{
    match p {
        Protocol::Terminate => Protocol::Terminate,
        Protocol::SendValue(t, c) => Protocol::ReceiveValue(*t, Box::new(dual(c))),
        Protocol::ReceiveValue(t, c) => Protocol::SendValue(*t, Box::new(dual(c))),
        Protocol::SendChannel(s, c) => Protocol::ReceiveChannel(
            Box::new(clone_protocol(s)),
            Box::new(dual(c)),
        ),
        Protocol::ReceiveChannel(s, c) => Protocol::SendChannel(
            Box::new(clone_protocol(s)),
            Box::new(dual(c)),
        ),
        Protocol::InternalChoice(a, b) => Protocol::ExternalChoice(
            Box::new(dual(a)),
            Box::new(dual(b)),
        ),
        Protocol::ExternalChoice(a, b) => Protocol::InternalChoice(
            Box::new(dual(a)),
            Box::new(dual(b)),
        ),
        Protocol::RecursiveVar(x) => Protocol::RecursiveVar(*x),
        Protocol::RecursiveDef(x, c) => Protocol::RecursiveDef(*x, Box::new(dual(c))),
    }
}

/// Copies a protocol term, field for field.
pub fn clone_protocol(p: &Protocol) -> (r: Protocol)
    ensures
        r == *p,
    decreases *p,
{
    match p {
        Protocol::Terminate => Protocol::Terminate,
        Protocol::SendValue(t, c) => Protocol::SendValue(*t, Box::new(clone_protocol(c))),
        Protocol::ReceiveValue(t, c) => Protocol::ReceiveValue(*t, Box::new(clone_protocol(c))),
        Protocol::SendChannel(s, c) => Protocol::SendChannel(
            Box::new(clone_protocol(s)),
            Box::new(clone_protocol(c)),
        ),
        Protocol::ReceiveChannel(s, c) => Protocol::ReceiveChannel(
            Box::new(clone_protocol(s)),
            Box::new(clone_protocol(c)),
        ),
        Protocol::InternalChoice(a, b) => Protocol::InternalChoice(
            Box::new(clone_protocol(a)),
            Box::new(clone_protocol(b)),
        ),
        Protocol::ExternalChoice(a, b) => Protocol::ExternalChoice(
            Box::new(clone_protocol(a)),
            Box::new(clone_protocol(b)),
        ),
        Protocol::RecursiveVar(x) => Protocol::RecursiveVar(*x),
        Protocol::RecursiveDef(x, c) => Protocol::RecursiveDef(*x, Box::new(clone_protocol(c))),
    }
}

/// Checks structural duality of two protocol terms: the pre-execution
/// pass that asserts two parties' contracts mirror each other before a
/// session is allowed to run.
pub fn is_dual(a: &Protocol, b: &Protocol) -> (r: bool)
    ensures
        r == (*b == spec_dual(*a)),
    decreases *a,
{
    match (a, b) {
        (Protocol::Terminate, Protocol::Terminate) => true,
        (Protocol::SendValue(t1, c1), Protocol::ReceiveValue(t2, c2)) => *t1 == *t2 && is_dual(
            c1,
            c2,
        ),
        (Protocol::ReceiveValue(t1, c1), Protocol::SendValue(t2, c2)) => *t1 == *t2 && is_dual(
            c1,
            c2,
        ),
        (Protocol::SendChannel(s1, c1), Protocol::ReceiveChannel(s2, c2)) => same_protocol(s1, s2)
            && is_dual(c1, c2),
        (Protocol::ReceiveChannel(s1, c1), Protocol::SendChannel(s2, c2)) => same_protocol(s1, s2)
            && is_dual(c1, c2),
        (Protocol::InternalChoice(a1, b1), Protocol::ExternalChoice(a2, b2)) => is_dual(a1, a2)
            && is_dual(b1, b2),
        (Protocol::ExternalChoice(a1, b1), Protocol::InternalChoice(a2, b2)) => is_dual(a1, a2)
            && is_dual(b1, b2),
        (Protocol::RecursiveVar(x1), Protocol::RecursiveVar(x2)) => x1 == x2,
        (Protocol::RecursiveDef(x1, c1), Protocol::RecursiveDef(x2, c2)) => x1 == x2 && is_dual(
            c1,
            c2,
        ),
        _ => false,
    }
}

/// Structural equality of two protocol terms.
pub fn same_protocol(a: &Protocol, b: &Protocol) -> (r: bool)
    ensures
        r == (*a == *b),
    decreases *a,
{
    match (a, b) {
        (Protocol::Terminate, Protocol::Terminate) => true,
        (Protocol::SendValue(t1, c1), Protocol::SendValue(t2, c2)) => *t1 == *t2 && same_protocol(
            c1,
            c2,
        ),
        (Protocol::ReceiveValue(t1, c1), Protocol::ReceiveValue(t2, c2)) => *t1 == *t2
            && same_protocol(c1, c2),
        (Protocol::SendChannel(s1, c1), Protocol::SendChannel(s2, c2)) => same_protocol(s1, s2)
            && same_protocol(c1, c2),
        (Protocol::ReceiveChannel(s1, c1), Protocol::ReceiveChannel(s2, c2)) => same_protocol(
            s1,
            s2,
        ) && same_protocol(c1, c2),
        (Protocol::InternalChoice(a1, b1), Protocol::InternalChoice(a2, b2)) => same_protocol(
            a1,
            a2,
        ) && same_protocol(b1, b2),
        (Protocol::ExternalChoice(a1, b1), Protocol::ExternalChoice(a2, b2)) => same_protocol(
            a1,
            a2,
        ) && same_protocol(b1, b2),
        (Protocol::RecursiveVar(x1), Protocol::RecursiveVar(x2)) => x1 == x2,
        (Protocol::RecursiveDef(x1, c1), Protocol::RecursiveDef(x2, c2)) => x1 == x2
            && same_protocol(c1, c2),
        _ => false,
    }
}

} // verus!
