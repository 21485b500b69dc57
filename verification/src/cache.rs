//! The pluggable module cache: a store from locator text to module record,
//! with a default in-memory, non-expiring implementation.
//!
//! A provider must hand out logically independent copies on `get`: callers
//! may take ownership of a returned payload, so no two calls may alias.

use vstd::prelude::*;
use crate::locator::Locator;
use crate::record::{ModuleRecord, RecordModel};

verus! {

/// The records held by an association list, keyed by locator text; later
/// entries shadow earlier ones.
pub open spec fn assoc_contents(s: Seq<(String, ModuleRecord)>) -> Map<Seq<char>, RecordModel>
    decreases s.len(),
{
    if s.len() == 0 {
        Map::empty()
    } else {
        assoc_contents(s.drop_last()).insert(s.last().0@, s.last().1@)
    }
}

/// Overwriting the newest entry for a key in place overwrites the key's
/// record in the association's contents.
proof fn lemma_assoc_update(s: Seq<(String, ModuleRecord)>, i: int, e: (String, ModuleRecord))
    requires
        0 <= i < s.len(),
        e.0@ == s[i].0@,
        forall|j: int| i < j < s.len() ==> s[j].0@ != s[i].0@,
    ensures
        assoc_contents(s.update(i, e)) == assoc_contents(s).insert(e.0@, e.1@),
    decreases s.len(),
{
    let t = s.update(i, e);
    if i == s.len() - 1 {
        assert(t.drop_last() =~= s.drop_last());
        assert(t.last() == e);
        assert(assoc_contents(s.drop_last()).insert(s.last().0@, s.last().1@).insert(e.0@, e.1@)
            =~= assoc_contents(s.drop_last()).insert(e.0@, e.1@));
    } else {
        assert(t.drop_last() =~= s.drop_last().update(i, e));
        assert(t.last() == s.last());
        assert(s.drop_last()[i] == s[i]);
        assert forall|j: int| i < j < s.drop_last().len() implies s.drop_last()[j].0@
            != s.drop_last()[i].0@ by {
            assert(s.drop_last()[j] == s[j]);
        }
        lemma_assoc_update(s.drop_last(), i, e);
        assert(s.last().0@ != e.0@);
        assert(assoc_contents(s.drop_last()).insert(e.0@, e.1@).insert(s.last().0@, s.last().1@)
            =~= assoc_contents(s.drop_last()).insert(s.last().0@, s.last().1@).insert(
            e.0@,
            e.1@,
        ));
    }
}

/// A pluggable module cache.  Implement this trait to back module caching
/// with any storage medium; the loader consults it before every fetch.
pub trait ModuleCacheProvider {
    /// The records the provider currently holds, keyed by locator text.
    spec fn contents(&self) -> Map<Seq<char>, RecordModel>;

    /// Store (or overwrite) the record for a locator.
    fn set(&mut self, locator: &Locator, record: ModuleRecord)
        ensures
            final(self).contents() == old(self).contents().insert(locator@.text, record@),
    ;

    /// An independent copy of the record stored for a locator, if any.
    fn get(&self, locator: &Locator) -> (r: Option<ModuleRecord>)
        ensures
            match r {
                Some(rec) => self.contents().contains_key(locator@.text) && rec@
                    == self.contents()[locator@.text],
                None => !self.contents().contains_key(locator@.text),
            },
    ;

    /// Rebuild a record as an independent copy attributed to `locator`.
    fn clone_source(&self, locator: &Locator, source: &ModuleRecord) -> (r: ModuleRecord)
        ensures
            r@ == (RecordModel {
                kind: source@.kind,
                code: source@.code,
                locator: locator@.text,
                code_cache: source@.code_cache,
            }),
    {
        let mut copy = source.duplicate();
        copy.locator = locator.as_str().to_owned();
        copy
    }
}

/// The default in-memory module cache provider: entries never expire within
/// the process lifetime.
pub struct DefaultModuleCacheProvider {
    entries: Vec<(String, ModuleRecord)>,
}

impl DefaultModuleCacheProvider {
    /// A fresh, empty cache.
    pub fn new() -> (r: DefaultModuleCacheProvider)
        ensures
            r.contents() == Map::<Seq<char>, RecordModel>::empty(),
    {
        DefaultModuleCacheProvider { entries: Vec::new() }
    }
}

impl Default for DefaultModuleCacheProvider {
    fn default() -> (r: DefaultModuleCacheProvider)
        ensures
            r.contents() == Map::<Seq<char>, RecordModel>::empty(),
    {
        DefaultModuleCacheProvider::new()
    }
}

impl ModuleCacheProvider for DefaultModuleCacheProvider {
    closed spec fn contents(&self) -> Map<Seq<char>, RecordModel> {
        assoc_contents(self.entries@)
    }

    fn set(&mut self, locator: &Locator, record: ModuleRecord) {
        let ghost rv = record@;
        let key = locator.as_str().to_owned();
        let ghost kv = key@;
        let n = self.entries.len();
        let mut i: usize = n;
        while i > 0
            invariant
                i <= n,
                n == self.entries@.len(),
                self.entries@ == old(self).entries@,
                kv == locator@.text,
                key@ == kv,
                rv == record@,
                forall|j: int| i <= j < n ==> self.entries@[j].0@ != locator@.text,
            decreases i,
        {
            i = i - 1;
            if self.entries[i].0 == key {
                let ghost before = self.entries@;
                self.entries[i] = (key, record);
                proof {
                    let e = self.entries@[i as int];
                    assert(e.0@ == kv && e.1@ == rv);
                    assert(self.entries@ =~= before.update(i as int, e));
                    lemma_assoc_update(before, i as int, e);
                }
                return;
            }
        }
        self.entries.push((key, record));
        proof {
            assert(self.entries@.drop_last() =~= old(self).entries@);
        }
    }

    fn get(&self, locator: &Locator) -> (r: Option<ModuleRecord>) {
        let key = locator.as_str().to_owned();
        let ghost whole = self.entries@;
        let ghost k = locator@.text;
        let mut i: usize = self.entries.len();
        proof {
            assert(whole.take(i as int) =~= whole);
        }
        while i > 0
            invariant
                i <= whole.len(),
                whole == self.entries@,
                k == locator@.text,
                key@ == k,
                assoc_contents(whole).contains_key(k) == assoc_contents(
                    whole.take(i as int),
                ).contains_key(k),
                assoc_contents(whole).contains_key(k) ==> assoc_contents(whole)[k]
                    == assoc_contents(whole.take(i as int))[k],
            decreases i,
        {
            i = i - 1;
            proof {
                assert(whole.take(i + 1).drop_last() =~= whole.take(i as int));
                assert(whole.take(i + 1).last() == whole[i as int]);
            }
            if self.entries[i].0 == key {
                let rec = self.entries[i].1.duplicate();
                return Some(rec);
            }
        }
        proof {
            assert(whole.take(0int) =~= Seq::<(String, ModuleRecord)>::empty());
            if assoc_contents(whole).contains_key(k) {
                assert(assoc_contents(whole.take(0int)).contains_key(k));
            }
        }
        None
    }
}

} // verus!
