//! The resolver/loader: it resolves specifier/referrer pairs to canonical
//! locators under the security policy, whitelists host-initiated root loads,
//! and serves loads cache-first, handing the host an explicit fetch plan on
//! a miss and committing the fetched, normalized source afterwards.

use vstd::prelude::*;
use vstd::string::StrSliceExecFns;
use crate::cache::ModuleCacheProvider;
use crate::errors::{LoadError, ResolveError};
use crate::locator::{CanonLocator, Locator, SchemeKind, root_sentinel, spec_resolve,
    resolve_specifier};
use crate::record::{CodeModel, ModuleCode, ModuleKind, ModuleRecord, RecordModel};
use crate::whitelist::Whitelist;

verus! {

/// Deployment configuration, fixed when a loader is constructed.
#[derive(Clone, Copy, Debug, PartialEq, Eq, Structural)]
pub struct LoaderOptions {
    /// Whether `http`/`https` imports are permitted at all.
    pub network_import: bool,
    /// Whether arbitrary `file` imports are permitted; when disabled, only
    /// whitelisted filesystem locators may resolve.
    pub filesystem_import: bool,
}

impl Default for LoaderOptions {
    /// The sandboxed configuration: no network and no filesystem imports.
    fn default() -> (r: LoaderOptions)
        ensures
            r == (LoaderOptions { network_import: false, filesystem_import: false }),
    {
        LoaderOptions { network_import: false, filesystem_import: false }
    }
}

/// The origin a missed load must fetch its bytes from.
#[derive(Clone, Copy, Debug, PartialEq, Eq, Structural)]
pub enum FetchOrigin {
    Filesystem,
    Network,
}

/// What a cache miss asks the host to do: fetch from `origin`, then run the
/// transpiler exactly when `transpile` is set (structured data bypasses it).
#[derive(Clone, Copy, Debug, PartialEq, Eq, Structural)]
pub struct FetchPlan {
    pub origin: FetchOrigin,
    pub kind: ModuleKind,
    pub transpile: bool,
}

/// The loader's answer to a load request: a record served from the cache, or
/// the fetch the host must perform.
pub enum LoadOutcome {
    Cached(ModuleRecord),
    Fetch(FetchPlan),
}

/// The ghost mirror of `LoadOutcome`.
pub ghost enum LoadOutcomeModel {
    Cached(RecordModel),
    Fetch(FetchPlan),
}

/// The model of a load result.
pub open spec fn outcome_model(r: Result<LoadOutcome, LoadError>) -> Result<
    LoadOutcomeModel,
    LoadError,
> {
    match r {
        Ok(LoadOutcome::Cached(rec)) => Ok(LoadOutcomeModel::Cached(rec@)),
        Ok(LoadOutcome::Fetch(p)) => Ok(LoadOutcomeModel::Fetch(p)),
        Err(e) => Err(e),
    }
}

/// The resolution step: given the whitelist, the configuration and the raw
/// inputs, the outcome and the whitelist left behind.  A malformed specifier
/// fails and changes nothing; a well-formed one is whitelisted on root loads
/// before the policy is evaluated, then admitted or denied by scheme.
pub open spec fn resolve_step(
    wl: Set<Seq<char>>,
    opts: LoaderOptions,
    sp: Seq<char>,
    refr: Seq<char>,
) -> (Result<CanonLocator, ResolveError>, Set<Seq<char>>) {
    match spec_resolve(sp, refr) {
        None => (Err(ResolveError::InvalidSpecifier), wl),
        Some(c) => {
            let wl2 = if refr == root_sentinel() {
                wl.insert(c.text)
            } else {
                wl
            };
            let v = if c.kind is Http || c.kind is Https {
                if opts.network_import {
                    Ok(c)
                } else {
                    Err(ResolveError::PolicyDenied)
                }
            } else if c.kind is File {
                if opts.filesystem_import || wl2.contains(c.text) {
                    Ok(c)
                } else {
                    Err(ResolveError::PolicyDenied)
                }
            } else if c.kind is Ext {
                Ok(c)
            } else {
                Err(ResolveError::UnrecognizedScheme)
            };
            (v, wl2)
        },
    }
}

/// The schemes `load` may fetch from: the filesystem always (resolution
/// already gated it), the network only when configured, nothing else.
pub open spec fn load_scheme_allowed(opts: LoaderOptions, k: SchemeKind) -> bool {
    k is File || ((k is Http || k is Https) && opts.network_import)
}

/// The module kind a locator's path determines.
pub open spec fn kind_for(loc: CanonLocator) -> ModuleKind {
    if loc.json {
        ModuleKind::Json
    } else {
        ModuleKind::Script
    }
}

/// The load step over the cache model: denied schemes fail, a cached record
/// is served as-is, and a miss yields the fetch plan for the locator.
pub open spec fn spec_load(
    cache: Option<Map<Seq<char>, RecordModel>>,
    opts: LoaderOptions,
    loc: CanonLocator,
) -> Result<LoadOutcomeModel, LoadError> {
    if !load_scheme_allowed(opts, loc.kind) {
        Err(LoadError::SchemeNotPermitted)
    } else {
        let hit = match cache {
            None => None,
            Some(m) => if m.contains_key(loc.text) {
                Some(m[loc.text])
            } else {
                None
            },
        };
        match hit {
            Some(rm) => Ok(LoadOutcomeModel::Cached(rm)),
            None => Ok(
                LoadOutcomeModel::Fetch(
                    FetchPlan {
                        origin: if loc.kind is File {
                            FetchOrigin::Filesystem
                        } else {
                            FetchOrigin::Network
                        },
                        kind: kind_for(loc),
                        transpile: !loc.json,
                    },
                ),
            ),
        }
    }
}

/// The record a commit constructs: kind from the locator's path, the given
/// payload, the locator text, and no compiled-code blob.
pub open spec fn committed_record(loc: CanonLocator, code: CodeModel) -> RecordModel {
    RecordModel { kind: kind_for(loc), code: code, locator: loc.text, code_cache: None }
}

/// The commit step over the cache model: a denied scheme fails and caches
/// nothing; otherwise the built record is stored (when a cache is present)
/// and returned.
pub open spec fn spec_commit(
    cache: Option<Map<Seq<char>, RecordModel>>,
    opts: LoaderOptions,
    loc: CanonLocator,
    code: CodeModel,
) -> (Result<RecordModel, LoadError>, Option<Map<Seq<char>, RecordModel>>) {
    if !load_scheme_allowed(opts, loc.kind) {
        (Err(LoadError::SchemeNotPermitted), cache)
    } else {
        let rec = committed_record(loc, code);
        let cache2 = match cache {
            None => None,
            Some(m) => Some(m.insert(loc.text, rec)),
        };
        (Ok(rec), cache2)
    }
}

/// Whether the referrer is the root sentinel `.`, the marker of a
/// host-initiated top-level load.
fn is_root_referrer(referrer: &str) -> (b: bool)
    ensures
        b == (referrer@ == root_sentinel()),
{
    let n = referrer.unicode_len();
    if n == 1 {
        let c = referrer.get_char(0);
        if c == '.' {
            proof {
                assert(referrer@ =~= root_sentinel());
            }
            true
        } else {
            false
        }
    } else {
        false
    }
}

/// The resolver/loader.  It owns the whitelist of host-authorized entry
/// modules, holds the deployment configuration fixed at construction, and
/// consults an optional pluggable cache before every fetch.
pub struct RustyLoader<C: ModuleCacheProvider> {
    fs_whlist: Whitelist,
    cache_provider: Option<C>,
    options: LoaderOptions,
}

impl<C: ModuleCacheProvider> RustyLoader<C> {
    /// The whitelist as a set of locator texts.
    pub closed spec fn whitelist_view(&self) -> Set<Seq<char>> {
        self.fs_whlist@
    }

    /// The cached records, keyed by locator text; `None` when the loader
    /// runs without a cache.
    pub closed spec fn cache_contents(&self) -> Option<Map<Seq<char>, RecordModel>> {
        match self.cache_provider {
            None => None,
            Some(c) => Some(c.contents()),
        }
    }

    /// The configuration the loader was constructed with.
    pub closed spec fn config(&self) -> LoaderOptions {
        self.options
    }

    /// A loader over the given configuration and optional cache provider;
    /// the whitelist starts empty.
    pub fn new(options: LoaderOptions, cache_provider: Option<C>) -> (r: RustyLoader<C>)
        ensures
            r.config() == options,
            r.whitelist_view() == Set::<Seq<char>>::empty(),
            r.cache_contents() == (match cache_provider {
                None => None::<Map<Seq<char>, RecordModel>>,
                Some(c) => Some(c.contents()),
            }),
    {
        RustyLoader { fs_whlist: Whitelist::new(), cache_provider, options }
    }

    /// Authorize a locator text as an entry module.
    pub fn whitelist_add(&mut self, specifier: &str)
        ensures
            final(self).whitelist_view() == old(self).whitelist_view().insert(specifier@),
            final(self).config() == old(self).config(),
            final(self).cache_contents() == old(self).cache_contents(),
    {
        self.fs_whlist.add(specifier);
    }

    /// Whether a locator text has been authorized.
    pub fn whitelist_has(&self, specifier: &str) -> (b: bool)
        ensures
            b == self.whitelist_view().contains(specifier@),
    {
        self.fs_whlist.contains(specifier)
    }

    /// Resolve a raw specifier against a referrer under the security policy.
    ///
    /// The specifier is normalized first; a root-sentinel referrer then
    /// whitelists the locator unconditionally, and the policy admits or
    /// denies it by scheme.  A returned locator has passed policy; `load`
    /// still re-checks the scheme itself rather than trusting its callers.
    pub fn resolve(&mut self, specifier: &str, referrer: &str) -> (r: Result<Locator, ResolveError>)
        ensures
            final(self).config() == old(self).config(),
            final(self).cache_contents() == old(self).cache_contents(),
            ({
                let sr = resolve_step(
                    old(self).whitelist_view(),
                    old(self).config(),
                    specifier@,
                    referrer@,
                );
                &&& final(self).whitelist_view() == sr.1
                &&& match (r, sr.0) {
                    (Ok(l), Ok(c)) => l@ == c,
                    (Err(e1), Err(e2)) => e1 == e2,
                    _ => false,
                }
            }),
            old(self).whitelist_view().subset_of(final(self).whitelist_view()),
    {
        let resolved = resolve_specifier(specifier, referrer);
        match resolved {
            None => Err(ResolveError::InvalidSpecifier),
            Some(loc) => {
                if is_root_referrer(referrer) {
                    self.fs_whlist.add(loc.as_str());
                }
                match loc.scheme_kind() {
                    SchemeKind::Http | SchemeKind::Https => {
                        if self.options.network_import {
                            Ok(loc)
                        } else {
                            Err(ResolveError::PolicyDenied)
                        }
                    },
                    SchemeKind::File => {
                        if self.options.filesystem_import || self.fs_whlist.contains(
                            loc.as_str(),
                        ) {
                            Ok(loc)
                        } else {
                            Err(ResolveError::PolicyDenied)
                        }
                    },
                    SchemeKind::Ext => Ok(loc),
                    SchemeKind::Other => Err(ResolveError::UnrecognizedScheme),
                }
            },
        }
    }

    /// Begin loading a resolved locator: fail on a scheme the loader may not
    /// fetch from, serve an independent copy from the cache on a hit, and
    /// otherwise return the fetch plan the host must carry out.
    pub fn load(&self, locator: &Locator) -> (r: Result<LoadOutcome, LoadError>)
        ensures
            outcome_model(r) == spec_load(self.cache_contents(), self.config(), locator@),
    {
        let allowed = match locator.scheme_kind() {
            SchemeKind::File => true,
            SchemeKind::Http | SchemeKind::Https => self.options.network_import,
            SchemeKind::Ext => false,
            SchemeKind::Other => false,
        };
        if !allowed {
            return Err(LoadError::SchemeNotPermitted);
        }
        match &self.cache_provider {
            Some(c) => {
                match c.get(locator) {
                    Some(rec) => {
                        return Ok(LoadOutcome::Cached(rec));
                    },
                    None => {},
                }
            },
            None => {},
        }
        let json = locator.is_json();
        let origin = match locator.scheme_kind() {
            SchemeKind::File => FetchOrigin::Filesystem,
            SchemeKind::Http => FetchOrigin::Network,
            SchemeKind::Https => FetchOrigin::Network,
            SchemeKind::Ext => FetchOrigin::Filesystem,
            SchemeKind::Other => FetchOrigin::Filesystem,
        };
        Ok(
            LoadOutcome::Fetch(
                FetchPlan {
                    origin,
                    kind: if json {
                        ModuleKind::Json
                    } else {
                        ModuleKind::Script
                    },
                    transpile: !json,
                },
            ),
        )
    }

    /// Commit a fetched, normalized payload for a locator: build the module
    /// record, populate the cache (only successful loads ever reach it), and
    /// hand the record back.  The scheme check is repeated here, so a denied
    /// locator is never cached.
    pub fn commit(&mut self, locator: &Locator, code: ModuleCode) -> (r: Result<
        ModuleRecord,
        LoadError,
    >)
        ensures
            final(self).config() == old(self).config(),
            final(self).whitelist_view() == old(self).whitelist_view(),
            ({
                let sc = spec_commit(
                    old(self).cache_contents(),
                    old(self).config(),
                    locator@,
                    code@,
                );
                &&& final(self).cache_contents() == sc.1
                &&& match (r, sc.0) {
                    (Ok(rec), Ok(rm)) => rec@ == rm,
                    (Err(e1), Err(e2)) => e1 == e2,
                    _ => false,
                }
            }),
    {
        let allowed = match locator.scheme_kind() {
            SchemeKind::File => true,
            SchemeKind::Http | SchemeKind::Https => self.options.network_import,
            SchemeKind::Ext => false,
            SchemeKind::Other => false,
        };
        if !allowed {
            return Err(LoadError::SchemeNotPermitted);
        }
        let json = locator.is_json();
        let rec = ModuleRecord {
            kind: if json {
                ModuleKind::Json
            } else {
                ModuleKind::Script
            },
            code,
            locator: locator.as_str().to_owned(),
            code_cache: None,
        };
        match self.cache_provider.as_mut() {
            Some(c) => {
                let copy = c.clone_source(locator, &rec);
                c.set(locator, copy);
            },
            None => {},
        }
        Ok(rec)
    }
}

} // verus!
