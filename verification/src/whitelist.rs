//! The whitelist of host-authorized entry modules: an insertion-only set of
//! locator texts.  Membership only ever grows within a loader's lifetime.

use vstd::prelude::*;

verus! {

/// An insertion-only set of locator texts.
pub struct Whitelist {
    entries: Vec<String>,
}

impl View for Whitelist {
    type V = Set<Seq<char>>;

    closed spec fn view(&self) -> Set<Seq<char>> {
        Set::new(
            |s: Seq<char>|
                exists|i: int| 0 <= i < self.entries@.len() && self.entries@[i]@ == s,
        )
    }
}

impl Whitelist {
    /// A fresh, empty whitelist.
    pub fn new() -> (r: Whitelist)
        ensures
            r@ == Set::<Seq<char>>::empty(),
    {
        let r = Whitelist { entries: Vec::new() };
        proof {
            assert(r@ =~= Set::<Seq<char>>::empty());
        }
        r
    }

    /// Pure membership test.
    pub fn contains(&self, locator: &str) -> (b: bool)
        ensures
            b == self@.contains(locator@),
    {
        let cand: String = locator.to_owned();
        let mut i: usize = 0;
        while i < self.entries.len()
            invariant
                i <= self.entries@.len(),
                cand@ == locator@,
                forall|j: int| 0 <= j < i ==> self.entries@[j]@ != locator@,
            decreases self.entries@.len() - i,
        {
            if self.entries[i] == cand {
                proof {
                    assert(self.entries@[i as int]@ == locator@);
                }
                return true;
            }
            i = i + 1;
        }
        proof {
            if self@.contains(locator@) {
                let w = choose|w: int|
                    0 <= w < self.entries@.len() && self.entries@[w]@ == locator@;
                assert(self.entries@[w]@ != locator@);
            }
        }
        false
    }

    /// Idempotent insertion.
    pub fn add(&mut self, locator: &str)
        ensures
            final(self)@ == old(self)@.insert(locator@),
    {
        if self.contains(locator) {
            proof {
                assert(old(self)@.insert(locator@) =~= old(self)@);
            }
        } else {
            self.entries.push(locator.to_owned());
            proof {
                let ghost oldn = old(self).entries@.len() as int;
                assert forall|s: Seq<char>|
                    self@.contains(s) <==> old(self)@.insert(locator@).contains(s) by {
                    if self@.contains(s) {
                        let w = choose|w: int|
                            0 <= w < self.entries@.len() && self.entries@[w]@ == s;
                        if w < oldn {
                            assert(old(self).entries@[w]@ == s);
                            assert(old(self)@.contains(s));
                        } else {
                            assert(s == locator@);
                        }
                    }
                    if old(self)@.contains(s) {
                        let w = choose|w: int|
                            0 <= w < old(self).entries@.len() && old(self).entries@[w]@ == s;
                        assert(self.entries@[w]@ == s);
                        assert(self@.contains(s));
                    }
                    if s == locator@ {
                        assert(self.entries@[oldn]@ == s);
                        assert(self@.contains(s));
                    }
                }
                assert(self@ =~= old(self)@.insert(locator@));
            }
        }
    }
}

} // verus!
