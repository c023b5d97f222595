//! The cache of solved peripheral values.
//!
//! Maps a peripheral address to the first value ever solved for it: an
//! entry is inserted at most once per address and never evicted or
//! updated.  The embedder shares one cache among all engine clones that
//! observe the same run, passing it into every hook call; the engine
//! itself only looks entries up and inserts new ones.

use vstd::prelude::*;

verus! {

/// A value the solver produced for one peripheral address, with the byte
/// width of the load that started the session.
#[derive(Debug, Clone, Copy)]
pub struct SolvingResult {
    pub target_addr: u64,
    pub value: u64,
    pub size: usize,
}

impl PartialEq for SolvingResult {
    /// Two results are the same solution when address and value agree;
    /// the recorded width is not part of the comparison.
    fn eq(&self, other: &SolvingResult) -> (r: bool) {
        self.target_addr == other.target_addr && self.value == other.value
    }
}

impl vstd::std_specs::cmp::PartialEqSpecImpl for SolvingResult {
    open spec fn obeys_eq_spec() -> bool {
        true
    }

    open spec fn eq_spec(&self, other: &SolvingResult) -> bool {
        self.target_addr == other.target_addr && self.value == other.value
    }
}

/// The first entry of `s` whose target address is `addr`, if any.
pub open spec fn seq_lookup(s: Seq<SolvingResult>, addr: u64) -> Option<SolvingResult>
    decreases s.len(),
{
    if s.len() == 0 {
        None
    } else if s[0].target_addr == addr {
        Some(s[0])
    } else {
        seq_lookup(s.drop_first(), addr)
    }
}

/// Looking a key up in a sequence extended at the back: an existing entry
/// keeps winning, a fresh entry is found only for its own address.
pub proof fn lemma_seq_lookup_push(s: Seq<SolvingResult>, e: SolvingResult, addr: u64)
    ensures
        seq_lookup(s.push(e), addr) == (if seq_lookup(s, addr) is Some {
            seq_lookup(s, addr)
        } else if e.target_addr == addr {
            Some(e)
        } else {
            None::<SolvingResult>
        }),
    decreases s.len(),
{
    if s.len() == 0 {
        reveal_with_fuel(seq_lookup, 3);
        assert(s.push(e).len() == 1);
        assert(s.push(e)[0] == e);
        assert(s.push(e).drop_first() =~= Seq::<SolvingResult>::empty());
    } else {
        assert(s.push(e)[0] == s[0]);
        assert(s.push(e).drop_first() =~= s.drop_first().push(e));
        lemma_seq_lookup_push(s.drop_first(), e, addr);
    }
}

/// Shared store of solved results, keyed by target address.
#[derive(Debug, Clone)]
pub struct ResultCache {
    entries: Vec<SolvingResult>,
}

impl View for ResultCache {
    type V = Seq<SolvingResult>;

    closed spec fn view(&self) -> Seq<SolvingResult> {
        self.entries@
    }
}

impl ResultCache {
    /// At most one entry per address.
    pub open spec fn wf(self) -> bool {
        forall|i: int, j: int|
            0 <= i < j < self@.len() ==> self@[i].target_addr != self@[j].target_addr
    }

    /// An empty cache.
    pub fn new() -> (r: ResultCache)
        ensures
            r@ == Seq::<SolvingResult>::empty(),
            r.wf(),
    {
        ResultCache { entries: Vec::new() }
    }

    /// How many addresses have a solved value.
    pub fn len(&self) -> (r: usize)
        ensures
            r == self@.len(),
    {
        self.entries.len()
    }

    /// The solved result for an address, if one was ever inserted.
    pub fn lookup(&self, addr: u64) -> (r: Option<SolvingResult>)
        ensures
            r == seq_lookup(self@, addr),
    {
        let n = self.entries.len();
        let mut i: usize = 0;
        proof {
            assert(self@.skip(0) =~= self@);
        }
        while i < n
            invariant
                i <= n,
                n == self@.len(),
                seq_lookup(self@, addr) == seq_lookup(self@.skip(i as int), addr),
            decreases n - i,
        {
            proof {
                assert(self@.skip(i as int).drop_first() =~= self@.skip(i as int + 1));
            }
            if self.entries[i].target_addr == addr {
                proof {
                    assert(self@.skip(i as int)[0] == self@[i as int]);
                }
                return Some(self.entries[i]);
            }
            i = i + 1;
        }
        proof {
            assert(self@.skip(n as int) =~= Seq::<SolvingResult>::empty());
        }
        None
    }

    /// Record a solved value for an address.  The first insertion wins:
    /// when an entry for the address already exists, nothing changes.
    pub fn insert(&mut self, addr: u64, value: u64, size: usize)
        requires
            old(self).wf(),
        ensures
            final(self).wf(),
            seq_lookup(old(self)@, addr) is Some ==> final(self)@ == old(self)@,
            seq_lookup(old(self)@, addr) is None ==> final(self)@ == old(self)@.push(
                (SolvingResult { target_addr: addr, value, size }),
            ),
            forall|a: u64|
                #[trigger] seq_lookup(final(self)@, a) == (if seq_lookup(old(self)@, a) is Some {
                    seq_lookup(old(self)@, a)
                } else if a == addr {
                    Some(SolvingResult { target_addr: addr, value, size })
                } else {
                    None::<SolvingResult>
                }),
    {
        match self.lookup(addr) {
            Some(_) => {},
            None => {
                proof {
                    lemma_seq_lookup_none_means_absent(self@, addr);
                }
                self.entries.push(SolvingResult { target_addr: addr, value, size });
                proof {
                    assert forall|a: u64| #[trigger]
                        seq_lookup(self@, a) == (if seq_lookup(old(self)@, a) is Some {
                            seq_lookup(old(self)@, a)
                        } else if a == addr {
                            Some(SolvingResult { target_addr: addr, value, size })
                        } else {
                            None::<SolvingResult>
                        }) by {
                        lemma_seq_lookup_push(
                            old(self)@,
                            SolvingResult { target_addr: addr, value, size },
                            a,
                        );
                    }
                }
            },
        }
    }
}

/// When a lookup misses, no entry in the sequence has that address.
pub proof fn lemma_seq_lookup_none_means_absent(s: Seq<SolvingResult>, addr: u64)
    requires
        seq_lookup(s, addr) is None,
    ensures
        forall|i: int| 0 <= i < s.len() ==> s[i].target_addr != addr,
    decreases s.len(),
{
    if s.len() > 0 {
        lemma_seq_lookup_none_means_absent(s.drop_first(), addr);
        assert forall|i: int| 0 <= i < s.len() implies s[i].target_addr != addr by {
            if i > 0 {
                assert(s.drop_first()[i - 1] == s[i]);
            }
        }
    }
}

} // verus!
