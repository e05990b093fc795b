//! Handler chain: an ordered routing table of method, path and handler,
//! appended to at construction time and immutable thereafter. Dispatch finds
//! the first entry, in registration order, whose method and path equal the
//! request's; a request no entry matches is a dispatch miss, left to the
//! transport layer's default response.

use vstd::prelude::*;
use crate::http::Method;

verus! {

/// No registered handler matched the request's method and path.
#[derive(Clone, Copy, Debug, PartialEq, Eq, Structural)]
pub struct DispatchMiss;

/// One routing entry: a method, an exact path, and the handler registered
/// for the pair.
pub struct HandlerEntry<H> {
    pub method: Method,
    pub path: Vec<u8>,
    pub handler: H,
}

/// Whether an entry matches a request's method and path.
pub open spec fn entry_matches<H>(entry: HandlerEntry<H>, method: Method, path: Seq<u8>) -> bool {
    entry.method == method && entry.path@ == path
}

/// The index of the first entry, in registration order, that matches the
/// request, if any does.
pub open spec fn first_match<H>(
    entries: Seq<HandlerEntry<H>>,
    method: Method,
    path: Seq<u8>,
) -> Option<int>
    decreases entries.len(),
{
    if entries.len() == 0 {
        None
    } else if entry_matches(entries[0], method, path) {
        Some(0)
    } else {
        match first_match(entries.drop_first(), method, path) {
            Some(i) => Some(i + 1),
            None => None,
        }
    }
}

/// What `first_match` finds matches, and nothing before it does.
pub proof fn lemma_first_match<H>(entries: Seq<HandlerEntry<H>>, method: Method, path: Seq<u8>)
    ensures
        match first_match(entries, method, path) {
            Some(i) => 0 <= i < entries.len() && entry_matches(entries[i], method, path) && (
            forall|j: int| 0 <= j < i ==> !entry_matches(#[trigger] entries[j], method, path)),
            None => forall|j: int|
                0 <= j < entries.len() ==> !entry_matches(#[trigger] entries[j], method, path),
        },
    decreases entries.len(),
{
    if entries.len() == 0 {
    } else if entry_matches(entries[0], method, path) {
    } else {
        lemma_first_match(entries.drop_first(), method, path);
        assert(forall|j: int|
            1 <= j < entries.len() ==> #[trigger] entries[j] == entries.drop_first()[j - 1]);
    }
}

/// The routing table: entries in registration order, never changed after
/// construction.
pub struct HandlerChain<H> {
    pub entries: Vec<HandlerEntry<H>>,
}

impl<H> HandlerChain<H> {
    /// An empty chain, matching nothing.
    pub fn new() -> (chain: Self)
        ensures
            chain.entries@ == Seq::<HandlerEntry<H>>::empty(),
    {
        HandlerChain { entries: Vec::new() }
    }

    /// The chain with one more entry appended after all registered so far.
    pub fn register(self, method: Method, path: Vec<u8>, handler: H) -> (chain: Self)
        ensures
            chain.entries@ == self.entries@.push(HandlerEntry { method, path, handler }),
    {
        let mut entries = self.entries;
        entries.push(HandlerEntry { method, path, handler });
        HandlerChain { entries }
    }

    /// The handler of the first entry, in registration order, that matches
    /// the request's method and path; a request no entry matches is a
    /// dispatch miss.
    pub fn dispatch(&self, method: Method, path: &[u8]) -> (r: Result<&H, DispatchMiss>)
        ensures
            match first_match(self.entries@, method, path@) {
                Some(i) => r is Ok && *r->Ok_0 == self.entries@[i].handler,
                None => r is Err,
            },
    {
        proof {
            lemma_first_match(self.entries@, method, path@);
        }
        let n = self.entries.len();
        let mut k: usize = 0;
        while k < n
            invariant
                n == self.entries@.len(),
                k <= n,
                forall|j: int|
                    0 <= j < k ==> !entry_matches(#[trigger] self.entries@[j], method, path@),
            decreases n - k,
        {
            let entry = &self.entries[k];
            if entry.method == method && bytes_eq(entry.path.as_slice(), path) {
                proof {
                    lemma_first_match(self.entries@, method, path@);
                    match first_match(self.entries@, method, path@) {
                        Some(i) => {
                            assert(!(i < k)) by {
                                if i < k {
                                    assert(!entry_matches(self.entries@[i], method, path@));
                                }
                            }
                            assert(!(i > k)) by {
                                if i > k {
                                    assert(!entry_matches(self.entries@[k as int], method, path@));
                                }
                            }
                        },
                        None => {
                            assert(!entry_matches(self.entries@[k as int], method, path@));
                        },
                    }
                }
                return Ok(&self.entries[k].handler);
            }
            k += 1;
        }
        proof {
            lemma_first_match(self.entries@, method, path@);
            if let Some(i) = first_match(self.entries@, method, path@) {
                assert(!entry_matches(self.entries@[i], method, path@));
            }
        }
        Err(DispatchMiss)
    }
}

/// Whether two byte slices hold the same bytes.
pub fn bytes_eq(a: &[u8], b: &[u8]) -> (r: bool)
    ensures
        r == (a@ == b@),
{
    if a.len() != b.len() {
        return false;
    }
    let n = a.len();
    let mut k: usize = 0;
    while k < n
        invariant
            n == a@.len(),
            n == b@.len(),
            k <= n,
            forall|j: int| 0 <= j < k ==> a@[j] == b@[j],
        decreases n - k,
    {
        if a[k] != b[k] {
            return false;
        }
        k += 1;
    }
    proof {
        assert(a@ =~= b@);
    }
    true
}

} // verus!
