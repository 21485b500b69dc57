//! The sandbox policy end to end: restricted-filesystem containment and the
//! whitelisting of host-initiated root loads.

use rusty_loader::{
    DefaultModuleCacheProvider, FetchOrigin, LoadOutcome, LoaderOptions, ModuleCode, ModuleKind,
    ResolveError, RustyLoader,
};

fn sandboxed() -> RustyLoader<DefaultModuleCacheProvider> {
    RustyLoader::new(
        LoaderOptions { network_import: false, filesystem_import: false },
        Some(DefaultModuleCacheProvider::new()),
    )
}

#[test]
fn restricted_filesystem_containment() {
    let mut l = sandboxed();
    // Not whitelisted, filesystem import disabled: denied.
    let r = l.resolve("file:///app/lib.js", "file:///app/main.js");
    assert_eq!(r.err(), Some(ResolveError::PolicyDenied));
    // A root load whitelists the same locator ...
    let root = l.resolve("file:///app/lib.js", ".");
    assert!(root.is_ok());
    assert!(l.whitelist_has("file:///app/lib.js"));
    // ... after which the very same non-root resolution succeeds.
    let again = l.resolve("file:///app/lib.js", "file:///app/main.js");
    assert_eq!(again.unwrap().as_str(), "file:///app/lib.js");
}

#[test]
fn filesystem_import_enabled_admits_unwhitelisted_files() {
    let mut l = RustyLoader::<DefaultModuleCacheProvider>::new(
        LoaderOptions { network_import: false, filesystem_import: true },
        None,
    );
    let r = l.resolve("file:///app/lib.js", "file:///app/main.js");
    assert_eq!(r.unwrap().as_str(), "file:///app/lib.js");
}

#[test]
fn end_to_end_sandboxed_root_load() {
    // Configuration: filesystem and network imports both disabled.
    let mut l = sandboxed();

    // The host performs a root load of the entry module: it resolves.
    let main = l.resolve("file:///app/main.js", ".").unwrap();
    assert!(l.whitelist_has("file:///app/main.js"));

    // The entry module loads: a cache miss asking for a filesystem fetch.
    let plan = match l.load(&main).unwrap() {
        LoadOutcome::Fetch(plan) => plan,
        LoadOutcome::Cached(_) => panic!("nothing was cached yet"),
    };
    assert_eq!(plan.origin, FetchOrigin::Filesystem);
    assert_eq!(plan.kind, ModuleKind::Script);
    assert!(plan.transpile);
    let rec = l
        .commit(&main, ModuleCode::Text(String::from("import './lib.js';")))
        .unwrap();
    assert_eq!(rec.kind, ModuleKind::Script);

    // Its static import of `./lib.js` fails: the sibling is neither
    // whitelisted nor admitted by configuration.
    let dep = l.resolve("./lib.js", "file:///app/main.js");
    assert_eq!(dep.err(), Some(ResolveError::PolicyDenied));
}
