//! The laws of the loader, stated over the spec-level steps that the
//! executable functions are proved to implement.

use vstd::prelude::*;
use crate::errors::{LoadError, ResolveError};
use crate::locator::{CanonLocator, canon_hier, classify_scheme, dir_of, is_hier_kind,
    is_json_path, lemma_lower_seq_idempotent, lemma_parse_hier_assembled, lemma_parse_hier_props,
    lemma_scheme_split_assembled, lemma_scheme_split_props, parse_hier, root_sentinel,
    scheme_split, spec_resolve, text_path, text_scheme_kind};
use crate::module_loader::{LoadOutcomeModel, LoaderOptions, kind_for, load_scheme_allowed,
    resolve_step, spec_commit, spec_load};
use crate::paths::norm_path;
use crate::record::{CodeModel, RecordModel};
use crate::text::lower_seq;

verus! {

/// Resolution is a pure function of the specifier, the referrer, the
/// configuration and the whitelist: a second call in the state the first
/// call left behind yields the same outcome and the same whitelist.
pub proof fn lemma_resolve_idempotent(
    wl: Set<Seq<char>>,
    opts: LoaderOptions,
    sp: Seq<char>,
    refr: Seq<char>,
)
    ensures
        ({
            let first = resolve_step(wl, opts, sp, refr);
            let second = resolve_step(first.1, opts, sp, refr);
            &&& second.0 == first.0
            &&& second.1 == first.1
        }),
{
    match spec_resolve(sp, refr) {
        None => {},
        Some(c) => {
            if refr == root_sentinel() {
                assert(wl.insert(c.text).insert(c.text) =~= wl.insert(c.text));
            }
        },
    }
}

/// Resolution never removes whitelist entries: membership is monotonic.
pub proof fn lemma_whitelist_monotonic(
    wl: Set<Seq<char>>,
    opts: LoaderOptions,
    sp: Seq<char>,
    refr: Seq<char>,
)
    ensures
        wl.subset_of(resolve_step(wl, opts, sp, refr).1),
{
}

/// Resolving with the root-sentinel referrer always adds the resulting
/// locator to the whitelist, whatever the policy decides afterwards.
pub proof fn lemma_root_whitelists(wl: Set<Seq<char>>, opts: LoaderOptions, sp: Seq<char>)
    requires
        spec_resolve(sp, root_sentinel()) is Some,
    ensures
        ({
            let c = spec_resolve(sp, root_sentinel())->Some_0;
            let sr = resolve_step(wl, opts, sp, root_sentinel());
            &&& sr.1 == wl.insert(c.text)
            &&& sr.1.contains(c.text)
        }),
{
}

/// With filesystem import disabled, a non-root resolution of a `file`
/// locator is denied exactly when the locator is not whitelisted, and
/// admitted exactly when it is; the whitelist is left unchanged.
pub proof fn lemma_restricted_fs_containment(
    wl: Set<Seq<char>>,
    opts: LoaderOptions,
    sp: Seq<char>,
    refr: Seq<char>,
)
    requires
        !opts.filesystem_import,
        refr != root_sentinel(),
        spec_resolve(sp, refr) is Some,
        spec_resolve(sp, refr)->Some_0.kind is File,
    ensures
        ({
            let c = spec_resolve(sp, refr)->Some_0;
            let sr = resolve_step(wl, opts, sp, refr);
            &&& sr.1 == wl
            &&& !wl.contains(c.text) ==> sr.0 == Err::<CanonLocator, ResolveError>(
                ResolveError::PolicyDenied,
            )
            &&& wl.contains(c.text) ==> sr.0 == Ok::<CanonLocator, ResolveError>(c)
        }),
{
}

/// A host-initiated root load of a `file` locator always resolves, even with
/// filesystem import disabled: the root step whitelists it first.
pub proof fn lemma_root_file_load_succeeds(wl: Set<Seq<char>>, opts: LoaderOptions, sp: Seq<char>)
    requires
        spec_resolve(sp, root_sentinel()) is Some,
        spec_resolve(sp, root_sentinel())->Some_0.kind is File,
    ensures
        resolve_step(wl, opts, sp, root_sentinel()).0 == Ok::<CanonLocator, ResolveError>(
            spec_resolve(sp, root_sentinel())->Some_0,
        ),
{
}

/// After a successful commit for a locator, a load of the same locator is
/// served from the cache — no fetch plan is issued — and the served record
/// carries the same kind and the same payload the commit stored.
pub proof fn lemma_cache_round_trip(
    m: Map<Seq<char>, RecordModel>,
    opts: LoaderOptions,
    loc: CanonLocator,
    code: CodeModel,
)
    requires
        load_scheme_allowed(opts, loc.kind),
    ensures
        ({
            let sc = spec_commit(Some(m), opts, loc, code);
            let after = spec_load(sc.1, opts, loc);
            &&& sc.0 is Ok
            &&& sc.0->Ok_0.kind == kind_for(loc)
            &&& sc.0->Ok_0.code == code
            &&& after == Ok::<LoadOutcomeModel, LoadError>(
                LoadOutcomeModel::Cached(sc.0->Ok_0),
            )
        }),
{
}

/// A resolved locator's stored classification is determined by its
/// canonical text alone: re-parsing the text yields the same scheme class,
/// and the structured-data flag holds exactly when the text's path ends in
/// `.json`.
pub proof fn lemma_locator_text_determines_classification(sp: Seq<char>, refr: Seq<char>)
    requires
        spec_resolve(sp, refr) is Some,
    ensures
        ({
            let c = spec_resolve(sp, refr)->Some_0;
            &&& text_scheme_kind(c.text) == c.kind
            &&& is_json_path(text_path(c.text)) == c.json
        }),
{
    lemma_scheme_split_props(sp);
    match scheme_split(sp) {
        Some(parts) => {
            let scheme = lower_seq(parts.0);
            let k = classify_scheme(scheme);
            if is_hier_kind(k) {
                lemma_parse_hier_props(sp);
                let t = parse_hier(sp)->Some_0;
                let p = norm_path(t.2);
                assert(p[0] == '/');
                lemma_parse_hier_assembled(t.0, t.1, p);
                let rest = seq!['/', '/'] + t.1 + p;
                assert(canon_hier(t.0, t.1, t.2).text =~= t.0 + seq![':'] + rest);
                lemma_scheme_split_assembled(t.0, rest);
            } else {
                let c = spec_resolve(sp, refr)->Some_0;
                assert(c.text =~= scheme + seq![':'] + parts.1);
                lemma_scheme_split_assembled(scheme, parts.1);
                lemma_lower_seq_idempotent(parts.0);
            }
        },
        None => {
            lemma_parse_hier_props(refr);
            let t = parse_hier(refr)->Some_0;
            let merged = if sp[0] == '/' {
                sp
            } else {
                dir_of(t.2) + sp
            };
            let p = norm_path(merged);
            assert(p[0] == '/');
            lemma_parse_hier_assembled(t.0, t.1, p);
            let rest = seq!['/', '/'] + t.1 + p;
            assert(canon_hier(t.0, t.1, merged).text =~= t.0 + seq![':'] + rest);
            lemma_scheme_split_assembled(t.0, rest);
        },
    }
}

/// A structured-data locator never reaches the transpiler: a load that must
/// fetch it plans no transpilation, and both the plan and a commit tag the
/// module as structured data.
pub proof fn lemma_json_bypasses_transpiler(
    cache: Option<Map<Seq<char>, RecordModel>>,
    opts: LoaderOptions,
    loc: CanonLocator,
    code: CodeModel,
)
    requires
        loc.json,
    ensures
        (match spec_load(cache, opts, loc) {
            Ok(LoadOutcomeModel::Fetch(p)) => !p.transpile && p.kind is Json,
            _ => true,
        }),
        (match spec_commit(cache, opts, loc, code).0 {
            Ok(rec) => rec.kind is Json,
            _ => true,
        }),
{
}

} // verus!
