//! Loading: cache-first behaviour, copy independence of cached records,
//! structured-data classification, and the load-time scheme check.

use rusty_loader::{
    DefaultModuleCacheProvider, FetchOrigin, LoadError, LoadOutcome, LoaderOptions, Locator,
    ModuleCode, ModuleKind, RustyLoader,
};

fn cached_loader(network: bool, filesystem: bool) -> RustyLoader<DefaultModuleCacheProvider> {
    RustyLoader::new(
        LoaderOptions { network_import: network, filesystem_import: filesystem },
        Some(DefaultModuleCacheProvider::new()),
    )
}

fn file_locator(l: &mut RustyLoader<DefaultModuleCacheProvider>, text: &str) -> Locator {
    l.resolve(text, ".").unwrap()
}

fn code_text(code: &ModuleCode) -> &str {
    match code {
        ModuleCode::Text(s) => s.as_str(),
        ModuleCode::Bytes(_) => panic!("expected a text payload"),
    }
}

#[test]
fn cache_round_trip_serves_identical_content_without_fetching() {
    let mut l = cached_loader(false, false);
    let loc = file_locator(&mut l, "file:///app/main.js");

    // First load misses: the loader asks for a fetch.
    let mut fetches: usize = 0;
    let first = match l.load(&loc).unwrap() {
        LoadOutcome::Fetch(_) => {
            fetches += 1;
            l.commit(&loc, ModuleCode::Text(String::from("export default 1;"))).unwrap()
        },
        LoadOutcome::Cached(_) => panic!("nothing was cached yet"),
    };

    // Second load is served from the cache: no fetch, same kind and content.
    let mut second = match l.load(&loc).unwrap() {
        LoadOutcome::Cached(rec) => rec,
        LoadOutcome::Fetch(_) => panic!("the record was committed"),
    };
    assert_eq!(fetches, 1);
    assert_eq!(second.kind, first.kind);
    assert_eq!(code_text(&second.code), code_text(&first.code));
    assert_eq!(second.locator, "file:///app/main.js");

    // Mutating the returned copy must not affect what the cache serves next.
    second.code = ModuleCode::Text(String::from("clobbered"));
    let third = match l.load(&loc).unwrap() {
        LoadOutcome::Cached(rec) => rec,
        LoadOutcome::Fetch(_) => panic!("the record was committed"),
    };
    assert_eq!(code_text(&third.code), "export default 1;");
}

#[test]
fn json_locator_is_classified_and_never_transpiled() {
    let mut l = cached_loader(false, false);
    let loc = file_locator(&mut l, "file:///data/config.json");

    // A pipeline that counts transpiler invocations.
    let mut transpile_calls: usize = 0;
    let plan = match l.load(&loc).unwrap() {
        LoadOutcome::Fetch(plan) => plan,
        LoadOutcome::Cached(_) => panic!("nothing was cached yet"),
    };
    assert_eq!(plan.kind, ModuleKind::Json);
    assert!(!plan.transpile);
    let fetched = String::from("{\"a\": 1}");
    let normalized = if plan.transpile {
        transpile_calls += 1;
        fetched
    } else {
        fetched
    };
    let rec = l.commit(&loc, ModuleCode::Text(normalized)).unwrap();
    assert_eq!(transpile_calls, 0);
    assert_eq!(rec.kind, ModuleKind::Json);
    assert_eq!(code_text(&rec.code), "{\"a\": 1}");
}

#[test]
fn network_locator_plans_a_network_fetch() {
    let mut l = cached_loader(true, false);
    let loc = l.resolve("https://example.com/mod.js", ".").unwrap();
    match l.load(&loc).unwrap() {
        LoadOutcome::Fetch(plan) => {
            assert_eq!(plan.origin, FetchOrigin::Network);
            assert_eq!(plan.kind, ModuleKind::Script);
            assert!(plan.transpile);
        },
        LoadOutcome::Cached(_) => panic!("nothing was cached yet"),
    }
}

#[test]
fn load_rejects_extension_scheme() {
    let mut l = cached_loader(false, false);
    let loc = l.resolve("ext:init_runtime/init.js", ".").unwrap();
    assert!(matches!(l.load(&loc), Err(LoadError::SchemeNotPermitted)));
}

#[test]
fn load_rejects_network_scheme_when_disabled() {
    // A locator resolved under a permissive configuration is still refused
    // by a loader whose configuration lacks the network capability.
    let mut permissive = cached_loader(true, false);
    let loc = permissive.resolve("https://example.com/mod.js", ".").unwrap();
    let sandboxed = cached_loader(false, false);
    assert!(matches!(sandboxed.load(&loc), Err(LoadError::SchemeNotPermitted)));
}

#[test]
fn denied_commit_caches_nothing() {
    let mut l = cached_loader(false, false);
    let loc = l.resolve("ext:init_runtime/init.js", ".").unwrap();
    let r = l.commit(&loc, ModuleCode::Text(String::from("x")));
    assert!(matches!(r, Err(LoadError::SchemeNotPermitted)));
}

#[test]
fn loader_without_cache_always_fetches() {
    let mut l = RustyLoader::<DefaultModuleCacheProvider>::new(
        LoaderOptions { network_import: false, filesystem_import: false },
        None,
    );
    let loc = file_locator(&mut l, "file:///app/main.js");
    assert!(matches!(l.load(&loc).unwrap(), LoadOutcome::Fetch(_)));
    l.commit(&loc, ModuleCode::Text(String::from("export default 1;"))).unwrap();
    assert!(matches!(l.load(&loc).unwrap(), LoadOutcome::Fetch(_)));
}

#[test]
fn commit_overwrites_previous_record() {
    let mut l = cached_loader(false, false);
    let loc = file_locator(&mut l, "file:///app/main.js");
    l.commit(&loc, ModuleCode::Text(String::from("one"))).unwrap();
    l.commit(&loc, ModuleCode::Text(String::from("two"))).unwrap();
    match l.load(&loc).unwrap() {
        LoadOutcome::Cached(rec) => assert_eq!(code_text(&rec.code), "two"),
        LoadOutcome::Fetch(_) => panic!("the record was committed"),
    }
}

#[test]
fn bytes_payload_round_trips() {
    let mut l = cached_loader(false, false);
    let loc = file_locator(&mut l, "file:///app/blob.bin.js");
    l.commit(&loc, ModuleCode::Bytes(vec![1, 2, 3])).unwrap();
    match l.load(&loc).unwrap() {
        LoadOutcome::Cached(rec) => match rec.code {
            ModuleCode::Bytes(b) => assert_eq!(b, vec![1, 2, 3]),
            ModuleCode::Text(_) => panic!("expected a byte payload"),
        },
        LoadOutcome::Fetch(_) => panic!("the record was committed"),
    }
}

#[test]
fn duplicate_locator_is_equivalent() {
    let mut l = cached_loader(false, false);
    let loc = file_locator(&mut l, "file:///app/main.js");
    let copy = loc.duplicate();
    assert_eq!(copy.as_str(), loc.as_str());
    assert_eq!(copy.scheme_kind(), loc.scheme_kind());
    assert_eq!(copy.is_json(), loc.is_json());
}
