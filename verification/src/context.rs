//! The context engine: the linear collection of endpoint slots available
//! to a not-yet-executed session continuation.
//!
//! A context is an ordered collection of slots, each either empty or
//! holding exactly one channel endpoint.  Every operation that uses a
//! slot either consumes it or relocates its endpoint into a successor
//! context, never both, so an endpoint is held by exactly one context at
//! a time.

use vstd::prelude::*;

verus! {

/// One slot of a context: empty, or holding one channel endpoint.
#[derive(Clone, Copy, PartialEq, Eq, Debug)]
pub enum Slot {
    Empty,
    Held(usize),
}

/// No endpoint is held by two different slots of the context.
pub open spec fn ctx_distinct(s: Seq<Slot>) -> bool {
    forall|i: int, j: int|
        0 <= i < s.len() && 0 <= j < s.len() && s[i] is Held && s[j] is Held
            && s[i]->Held_0 == s[j]->Held_0 ==> i == j
}

/// Whether some slot of the context holds endpoint `c`.
pub open spec fn ctx_holds(s: Seq<Slot>, c: int) -> bool {
    exists|i: int| 0 <= i < s.len() && s[i] is Held && s[i]->Held_0 == c
}

/// Extends a context by one trailing slot holding a fresh endpoint.
pub fn append_context(ctx: &mut Vec<Slot>, c: usize)
    ensures
        final(ctx)@ == old(ctx)@.push(Slot::Held(c)),
{
    ctx.push(Slot::Held(c));
}

/// Removes the endpoint at a position, returning it and leaving the slot
/// empty: the split half of the engine's split/merge pair.  `None` means
/// the position does not name a held endpoint, a construction error the
/// caller must fail loudly on.
pub fn extract_source(ctx: &mut Vec<Slot>, i: usize) -> (r: Option<usize>)
    ensures
        match r {
            Some(c) => {
                &&& i < old(ctx)@.len()
                &&& old(ctx)@[i as int] == Slot::Held(c)
                &&& final(ctx)@ == old(ctx)@.update(i as int, Slot::Empty)
            },
            None => {
                &&& final(ctx)@ == old(ctx)@
                &&& (i >= old(ctx)@.len() || old(ctx)@[i as int] is Empty)
            },
        },
{
    if i < ctx.len() {
        let s = ctx[i];
        match s {
            Slot::Held(c) => {
                ctx[i] = Slot::Empty;
                Some(c)
            },
            Slot::Empty => None,
        }
    } else {
        None
    }
}

/// Puts an endpoint back into a previously emptied slot, restoring a full
/// context: the merge half of the engine's split/merge pair.  `false`
/// means the slot was not empty, a construction error.
pub fn insert_target(ctx: &mut Vec<Slot>, i: usize, c: usize) -> (ok: bool)
    ensures
        ok ==> {
            &&& i < old(ctx)@.len()
            &&& old(ctx)@[i as int] is Empty
            &&& final(ctx)@ == old(ctx)@.update(i as int, Slot::Held(c))
        },
        !ok ==> {
            &&& final(ctx)@ == old(ctx)@
            &&& (i >= old(ctx)@.len() || old(ctx)@[i as int] is Held)
        },
{
    if i < ctx.len() {
        let s = ctx[i];
        match s {
            Slot::Empty => {
                ctx[i] = Slot::Held(c);
                true
            },
            Slot::Held(_) => false,
        }
    } else {
        false
    }
}

/// Split/merge inverse law: splitting a context at a held slot and
/// merging an endpoint back at that slot reconstructs the context with
/// only the branch-specific slot replaced; merging back the endpoint
/// that was split out reconstructs the context exactly, whichever slot
/// was the split point.
pub proof fn lemma_split_merge_inverse(s: Seq<Slot>, i: int, c: usize)
    requires
        0 <= i < s.len(),
    ensures
        s.update(i, Slot::Empty).update(i, Slot::Held(c)) == s.update(i, Slot::Held(c)),
        s[i] == Slot::Held(c) ==> s.update(i, Slot::Empty).update(i, Slot::Held(c)) == s,
{
    assert(s.update(i, Slot::Empty).update(i, Slot::Held(c)) =~= s.update(i, Slot::Held(c)));
    if s[i] == Slot::Held(c) {
        assert(s.update(i, Slot::Held(c)) =~= s);
    }
}

/// Linearity of extraction: in a context without aliased endpoints,
/// removing the endpoint at one slot leaves a context that no longer
/// holds that endpoint anywhere, still holds every other endpoint where
/// it was, and is still free of aliasing.
pub proof fn lemma_extract_linear(s: Seq<Slot>, i: int)
    requires
        ctx_distinct(s),
        0 <= i < s.len(),
        s[i] is Held,
    ensures
        !ctx_holds(s.update(i, Slot::Empty), s[i]->Held_0 as int),
        ctx_distinct(s.update(i, Slot::Empty)),
        forall|c: int|
            c != s[i]->Held_0 as int ==> (ctx_holds(s.update(i, Slot::Empty), c) <==> ctx_holds(
                s,
                c,
            )),
{
    let t = s.update(i, Slot::Empty);
    assert forall|c: int|
        c != s[i]->Held_0 as int implies (ctx_holds(t, c) <==> ctx_holds(s, c)) by {
        if ctx_holds(s, c) {
            let j = choose|j: int| 0 <= j < s.len() && s[j] is Held && s[j]->Held_0 == c;
            assert(t[j] is Held && t[j]->Held_0 == c);
        }
        if ctx_holds(t, c) {
            let j = choose|j: int| 0 <= j < t.len() && t[j] is Held && t[j]->Held_0 == c;
            assert(s[j] is Held && s[j]->Held_0 == c);
        }
    }
}

/// Linearity of insertion: putting an endpoint that the context does not
/// hold into an empty slot keeps the context free of aliasing.
pub proof fn lemma_insert_linear(s: Seq<Slot>, i: int, c: usize)
    requires
        ctx_distinct(s),
        0 <= i < s.len(),
        s[i] is Empty,
        !ctx_holds(s, c as int),
    ensures
        ctx_distinct(s.update(i, Slot::Held(c))),
        ctx_holds(s.update(i, Slot::Held(c)), c as int),
{
    let t = s.update(i, Slot::Held(c));
    assert forall|p: int, q: int|
        0 <= p < t.len() && 0 <= q < t.len() && t[p] is Held && t[q] is Held && t[p]->Held_0
            == t[q]->Held_0 implies p == q by {
        if p != q {
            if p == i {
                assert(0 <= q < s.len() && s[q] is Held && s[q]->Held_0 == c);
            } else if q == i {
                assert(0 <= p < s.len() && s[p] is Held && s[p]->Held_0 == c);
            }
        }
    }
    assert(t[i] is Held && t[i]->Held_0 == c as int);
}

} // verus!
