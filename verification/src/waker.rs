use vstd::prelude::*;

verus! {

/// The operations of the wake protocol on a token.
#[derive(Clone, Copy, Debug, PartialEq, Eq, Structural)]
pub enum TokenOp {
    /// Make one more handle to the token.
    Clone,
    /// Signal readiness and give up the handle.
    Wake,
    /// Signal readiness through a borrowed handle.
    WakeByRef,
    /// Give up the handle without a signal.
    Drop,
}

/// What an operation did to the token.
#[derive(Clone, Copy, Debug, PartialEq, Eq, Structural)]
pub enum TokenEffect {
    /// One more reference is held.
    Shared,
    /// One reference was given up; others are left.
    Released,
    /// The last reference was given up: the token is gone, and its
    /// allocation is to be released now.
    Freed,
    /// Nothing was done: the token is gone already, or it cannot count one
    /// more reference.
    Refused,
}

impl TokenOp {
    /// `wake`, `wake_by_ref` and `drop` each give up one reference.
    pub open spec fn consumes(self) -> bool {
        self != TokenOp::Clone
    }
}

/// The number of references after `op` on a token with `references`.
pub open spec fn count_after(references: nat, op: TokenOp) -> nat {
    if references == 0 {
        0
    } else if op.consumes() {
        (references - 1) as nat
    } else if references < u64::MAX {
        references + 1
    } else {
        references
    }
}

/// What `op` does to a token with `references`.
pub open spec fn effect_of(references: nat, op: TokenOp) -> TokenEffect {
    if references == 0 {
        TokenEffect::Refused
    } else if op.consumes() {
        if references == 1 {
            TokenEffect::Freed
        } else {
            TokenEffect::Released
        }
    } else if references < u64::MAX {
        TokenEffect::Shared
    } else {
        TokenEffect::Refused
    }
}

/// The number of references after the operations `ops`, in order.
pub open spec fn count_after_all(references: nat, ops: Seq<TokenOp>) -> nat
    decreases ops.len(),
{
    if ops.len() == 0 {
        references
    } else {
        count_after(count_after_all(references, ops.drop_last()), ops.last())
    }
}

/// How often the operations `ops` have released the allocation.
pub open spec fn times_freed(references: nat, ops: Seq<TokenOp>) -> nat
    decreases ops.len(),
{
    if ops.len() == 0 {
        0
    } else {
        let freed: nat = if effect_of(count_after_all(references, ops.drop_last()), ops.last())
            == TokenEffect::Freed {
            1
        } else {
            0
        };
        times_freed(references, ops.drop_last()) + freed
    }
}

/// How many of `ops` are clones.
pub open spec fn clones_in(ops: Seq<TokenOp>) -> nat
    decreases ops.len(),
{
    if ops.len() == 0 {
        0
    } else if ops.last().consumes() {
        clones_in(ops.drop_last())
    } else {
        clones_in(ops.drop_last()) + 1
    }
}

/// How many of `ops` give up a reference.
pub open spec fn consumptions_in(ops: Seq<TokenOp>) -> nat
    decreases ops.len(),
{
    if ops.len() == 0 {
        0
    } else if ops.last().consumes() {
        consumptions_in(ops.drop_last()) + 1
    } else {
        consumptions_in(ops.drop_last())
    }
}

/// The wake token of one future-driving session: it counts the handles
/// that refer to it, and says when the last one is gone.
///
/// The token signals nothing: the loop that drives a future polls it again
/// after every cycle, woken or not.
#[derive(Debug, PartialEq, Eq)]
pub struct WakeToken {
    references: u64,
}

impl View for WakeToken {
    type V = nat;

    closed spec fn view(&self) -> nat {
        self.references as nat
    }
}

impl WakeToken {
    /// A token with the one reference of the session that made it.
    pub fn new() -> (token: WakeToken)
        ensures
            token@ == 1,
    {
        WakeToken { references: 1 }
    }

    /// The number of references that are held.
    pub fn references(&self) -> (count: u64)
        ensures
            count == self@,
    {
        self.references
    }

    /// Whether a reference is still held.
    pub fn is_live(&self) -> (live: bool)
        ensures
            live == (self@ > 0),
    {
        self.references > 0
    }

    /// Counts one more handle to the token.
    pub fn clone_handle(&mut self) -> (effect: TokenEffect)
        ensures
            final(self)@ == count_after(old(self)@, TokenOp::Clone),
            effect == effect_of(old(self)@, TokenOp::Clone),
    {
        if self.references == 0 || self.references == u64::MAX {
            TokenEffect::Refused
        } else {
            self.references = self.references + 1;
            TokenEffect::Shared
        }
    }

    fn release(&mut self) -> (effect: TokenEffect)
        ensures
            final(self)@ == (if old(self)@ == 0 {
                0nat
            } else {
                (old(self)@ - 1) as nat
            }),
            effect == (if old(self)@ == 0 {
                TokenEffect::Refused
            } else if old(self)@ == 1 {
                TokenEffect::Freed
            } else {
                TokenEffect::Released
            }),
    {
        if self.references == 0 {
            TokenEffect::Refused
        } else {
            self.references = self.references - 1;
            if self.references == 0 {
                TokenEffect::Freed
            } else {
                TokenEffect::Released
            }
        }
    }

    /// Wakes through a handle that is given up with the call. Nothing waits
    /// for the signal, so this only gives up the reference.
    pub fn wake(&mut self) -> (effect: TokenEffect)
        ensures
            final(self)@ == count_after(old(self)@, TokenOp::Wake),
            effect == effect_of(old(self)@, TokenOp::Wake),
    {
        self.release()
    }

    /// Wakes through a borrowed handle. It gives up a reference as `wake`
    /// does, although the caller keeps the handle.
    pub fn wake_by_ref(&mut self) -> (effect: TokenEffect)
        ensures
            final(self)@ == count_after(old(self)@, TokenOp::WakeByRef),
            effect == effect_of(old(self)@, TokenOp::WakeByRef),
    {
        self.release()
    }

    /// Gives up a handle without a signal.
    pub fn drop_handle(&mut self) -> (effect: TokenEffect)
        ensures
            final(self)@ == count_after(old(self)@, TokenOp::Drop),
            effect == effect_of(old(self)@, TokenOp::Drop),
    {
        self.release()
    }

    /// Performs `op` on the token.
    pub fn apply(&mut self, op: TokenOp) -> (effect: TokenEffect)
        ensures
            final(self)@ == count_after(old(self)@, op),
            effect == effect_of(old(self)@, op),
    {
        match op {
            TokenOp::Clone => self.clone_handle(),
            TokenOp::Wake => self.wake(),
            TokenOp::WakeByRef => self.wake_by_ref(),
            TokenOp::Drop => self.drop_handle(),
        }
    }
}

/// A token that is gone stays gone, and is not released again.
pub proof fn lemma_gone_stays_gone(ops: Seq<TokenOp>)
    ensures
        count_after_all(0, ops) == 0,
        times_freed(0, ops) == 0,
    decreases ops.len(),
{
    if ops.len() > 0 {
        lemma_gone_stays_gone(ops.drop_last());
    }
}

/// Whatever is done to a token, in whatever order, its allocation is
/// released at most once, and exactly when no reference is left.
pub proof fn lemma_freed_at_most_once(references: nat, ops: Seq<TokenOp>)
    requires
        references >= 1,
    ensures
        times_freed(references, ops) <= 1,
        times_freed(references, ops) == 1 <==> count_after_all(references, ops) == 0,
    decreases ops.len(),
{
    if ops.len() > 0 {
        lemma_freed_at_most_once(references, ops.drop_last());
    }
}

/// While a reference is left, the count is what it was, plus the clones,
/// less the references given up.
pub proof fn lemma_count_is_balance(references: nat, ops: Seq<TokenOp>)
    requires
        references >= 1,
        references + clones_in(ops) <= u64::MAX,
        count_after_all(references, ops) > 0,
    ensures
        count_after_all(references, ops) + consumptions_in(ops) == references + clones_in(ops),
    decreases ops.len(),
{
    if ops.len() > 0 {
        lemma_count_is_balance(references, ops.drop_last());
    }
}

/// The reference balance: after as many clones as references given up
/// (by `wake`, `wake_by_ref` or `drop`), in any order, either the token
/// holds the references it began with and has not been released, so that
/// nothing has leaked; or no reference is left and it has been released
/// exactly once.
pub proof fn lemma_reference_balance(references: nat, ops: Seq<TokenOp>)
    requires
        references >= 1,
        references + clones_in(ops) <= u64::MAX,
        clones_in(ops) == consumptions_in(ops),
    ensures
        times_freed(references, ops) <= 1,
        (count_after_all(references, ops) == references && times_freed(references, ops) == 0) || (
        count_after_all(references, ops) == 0 && times_freed(references, ops) == 1),
{
    lemma_freed_at_most_once(references, ops);
    if count_after_all(references, ops) > 0 {
        lemma_count_is_balance(references, ops);
    }
}

} // verus!
