//! The fallback chain: candidate sources are tried in order, and the first
//! one that yields an image wins. A candidate's failure passes the turn to
//! the next one, except `ImageTooLarge`, which ends the chain at once (a
//! too large image is a sign that the user meant that image).

use vstd::prelude::*;
use crate::error::Error;

verus! {

/// What trying one candidate gave: its bytes, or why it failed.
pub type Outcome = Result<Vec<u8>, Error>;

/// An outcome that ends the chain: an image, or an image that is too large.
pub open spec fn is_decisive(o: Outcome) -> bool {
    match o {
        Ok(_) => true,
        Err(Error::ImageTooLarge(_, _)) => true,
        Err(_) => false,
    }
}

/// Whether the chain stops after the outcome of candidate `i` of `len`:
/// on a decisive outcome, or when no candidate is left.
pub open spec fn stops_at(i: nat, len: nat, o: Outcome) -> bool {
    is_decisive(o) || i + 1 >= len
}

/// Where a chain stops when its candidates give `outcomes`, looking from
/// `i` on, and what it returns there.
pub open spec fn chain_result(outcomes: Seq<Outcome>, i: nat) -> (nat, Outcome)
    recommends
        i < outcomes.len(),
    decreases outcomes.len() - i,
{
    if i + 1 >= outcomes.len() || is_decisive(outcomes[i as int]) {
        (i, outcomes[i as int])
    } else {
        chain_result(outcomes, i + 1)
    }
}

/// A chain's progress: how many candidates it has, and which is next.
pub struct Chain {
    pub len: usize,
    pub next: usize,
}

impl Chain {
    pub open spec fn wf(&self) -> bool {
        self.next < self.len
    }

    /// A chain over `len` candidates, at the first.
    pub fn new(len: usize) -> (r: Chain)
        requires
            len > 0,
        ensures
            r.wf(),
            r.len == len,
            r.next == 0,
    {
        Chain { len, next: 0 }
    }

    /// Takes the outcome of the current candidate. Returns the chain's result
    /// if it stops here; otherwise moves on to the next candidate.
    pub fn record(&mut self, outcome: Outcome) -> (r: Option<Outcome>)
        requires
            old(self).wf(),
        ensures
            final(self).len == old(self).len,
            stops_at(old(self).next as nat, old(self).len as nat, outcome) ==> r == Some(outcome)
                && final(self).next == old(self).next,
            !stops_at(old(self).next as nat, old(self).len as nat, outcome) ==> r is None
                && final(self).next == old(self).next + 1,
            final(self).wf(),
    {
        let decisive = match &outcome {
            Ok(_) => true,
            Err(Error::ImageTooLarge(_, _)) => true,
            Err(_) => false,
        };
        if decisive || self.next + 1 >= self.len {
            Some(outcome)
        } else {
            self.next = self.next + 1;
            None
        }
    }
}

/// One step of `record` is one step of `chain_result`: where the chain
/// stops, its result is the outcome just recorded; where it goes on, what it
/// will return is what the rest of the outcomes give.
pub proof fn lemma_record_steps_chain(outcomes: Seq<Outcome>, i: nat)
    requires
        i < outcomes.len(),
    ensures
        stops_at(i, outcomes.len(), outcomes[i as int]) ==> chain_result(outcomes, i) == (
            i,
            outcomes[i as int],
        ),
        !stops_at(i, outcomes.len(), outcomes[i as int]) ==> chain_result(outcomes, i)
            == chain_result(outcomes, i + 1),
{
}

/// The first candidate that yields an image wins, and no later candidate is
/// tried: when candidates before `k` all fail without being decisive and
/// candidate `k` yields bytes, the chain stops at `k` with those bytes.
pub proof fn lemma_first_success_wins(outcomes: Seq<Outcome>, k: nat)
    requires
        k < outcomes.len(),
        outcomes[k as int] is Ok,
        forall|j: int| 0 <= j < k ==> !is_decisive(#[trigger] outcomes[j]),
    ensures
        chain_result(outcomes, 0) == (k, outcomes[k as int]),
{
    lemma_chain_skips(outcomes, 0, k);
}

/// `ImageTooLarge` from any candidate ends the whole chain with that error:
/// no later candidate is tried.
pub proof fn lemma_too_large_aborts(outcomes: Seq<Outcome>, k: nat, size: u64, limit: u64)
    requires
        k < outcomes.len(),
        outcomes[k as int] == Err::<Vec<u8>, Error>(Error::ImageTooLarge(size, limit)),
        forall|j: int| 0 <= j < k ==> !is_decisive(#[trigger] outcomes[j]),
    ensures
        chain_result(outcomes, 0) == (k, Err::<Vec<u8>, Error>(Error::ImageTooLarge(size, limit))),
{
    lemma_chain_skips(outcomes, 0, k);
}

/// A fetch failure passes the turn: a chain that meets `FetchUrlError` at a
/// candidate that is not the last goes on to the next one.
pub proof fn lemma_fetch_failure_falls_through(outcomes: Seq<Outcome>, i: nat)
    requires
        i + 1 < outcomes.len(),
        outcomes[i as int] == Err::<Vec<u8>, Error>(Error::FetchUrlError),
    ensures
        chain_result(outcomes, i) == chain_result(outcomes, i + 1),
{
}

proof fn lemma_chain_skips(outcomes: Seq<Outcome>, i: nat, k: nat)
    requires
        i <= k < outcomes.len(),
        is_decisive(outcomes[k as int]),
        forall|j: int| 0 <= j < k ==> !is_decisive(#[trigger] outcomes[j]),
    ensures
        chain_result(outcomes, i) == (k, outcomes[k as int]),
    decreases k - i,
{
    if i < k {
        assert(!is_decisive(outcomes[i as int]));
        lemma_chain_skips(outcomes, i + 1, k);
    }
}

} // verus!
