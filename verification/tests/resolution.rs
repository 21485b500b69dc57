//! Resolution: normalization of specifiers, the root sentinel, and the
//! scheme policy.

use rusty_loader::{
    DefaultModuleCacheProvider, LoaderOptions, Locator, ResolveError, RustyLoader, SchemeKind,
};

fn loader(network: bool, filesystem: bool) -> RustyLoader<DefaultModuleCacheProvider> {
    RustyLoader::new(
        LoaderOptions { network_import: network, filesystem_import: filesystem },
        None,
    )
}

fn resolve_ok(l: &mut RustyLoader<DefaultModuleCacheProvider>, sp: &str, refr: &str) -> Locator {
    match l.resolve(sp, refr) {
        Ok(loc) => loc,
        Err(e) => panic!("expected {sp} to resolve, got {e:?}"),
    }
}

#[test]
fn resolves_absolute_file_locator() {
    let mut l = loader(false, false);
    let loc = resolve_ok(&mut l, "file:///app/main.js", ".");
    assert_eq!(loc.as_str(), "file:///app/main.js");
    assert_eq!(loc.scheme_kind(), SchemeKind::File);
    assert!(!loc.is_json());
}

#[test]
fn resolves_relative_specifier_against_referrer() {
    let mut l = loader(false, true);
    let loc = resolve_ok(&mut l, "./lib.js", "file:///app/main.js");
    assert_eq!(loc.as_str(), "file:///app/lib.js");
}

#[test]
fn resolves_parent_directory_specifier() {
    let mut l = loader(false, true);
    let loc = resolve_ok(&mut l, "../lib/util.js", "file:///app/sub/main.js");
    assert_eq!(loc.as_str(), "file:///app/lib/util.js");
}

#[test]
fn resolves_rooted_specifier_against_referrer_origin() {
    let mut l = loader(true, false);
    let loc = resolve_ok(&mut l, "/static/mod.js", "https://example.com/a/b/c.js");
    assert_eq!(loc.as_str(), "https://example.com/static/mod.js");
}

#[test]
fn normalizes_dot_segments_in_absolute_specifiers() {
    let mut l = loader(false, true);
    let loc = resolve_ok(&mut l, "file:///app/./x/../main.js", ".");
    assert_eq!(loc.as_str(), "file:///app/main.js");
}

#[test]
fn clamps_parent_segments_at_the_root() {
    let mut l = loader(false, true);
    let loc = resolve_ok(&mut l, "file:///../../main.js", ".");
    assert_eq!(loc.as_str(), "file:///main.js");
}

#[test]
fn lowercases_the_scheme() {
    let mut l = loader(false, true);
    let loc = resolve_ok(&mut l, "FILE:///App/Main.js", ".");
    assert_eq!(loc.as_str(), "file:///App/Main.js");
    assert_eq!(loc.scheme_kind(), SchemeKind::File);
}

#[test]
fn rejects_bare_specifier() {
    let mut l = loader(true, true);
    let r = l.resolve("lodash", "file:///app/main.js");
    assert_eq!(r.err(), Some(ResolveError::InvalidSpecifier));
}

#[test]
fn rejects_relative_specifier_against_root_sentinel() {
    let mut l = loader(true, true);
    let r = l.resolve("./mod.js", ".");
    assert_eq!(r.err(), Some(ResolveError::InvalidSpecifier));
}

#[test]
fn rejects_relative_specifier_against_opaque_referrer() {
    let mut l = loader(true, true);
    let r = l.resolve("./mod.js", "ext:core/init.js");
    assert_eq!(r.err(), Some(ResolveError::InvalidSpecifier));
}

#[test]
fn rejects_unrecognized_scheme() {
    let mut l = loader(true, true);
    let r = l.resolve("ftp://example/mod.js", ".");
    assert_eq!(r.err(), Some(ResolveError::UnrecognizedScheme));
}

#[test]
fn root_load_whitelists_even_a_rejected_scheme() {
    let mut l = loader(false, false);
    let r = l.resolve("ftp://example/mod.js", ".");
    assert_eq!(r.err(), Some(ResolveError::UnrecognizedScheme));
    assert!(l.whitelist_has("ftp://example/mod.js"));
}

#[test]
fn non_root_load_does_not_whitelist() {
    let mut l = loader(false, true);
    let _ = l.resolve("./lib.js", "file:///app/main.js");
    assert!(!l.whitelist_has("file:///app/lib.js"));
}

#[test]
fn network_import_denied_when_disabled() {
    let mut l = loader(false, true);
    let r = l.resolve("https://example.com/mod.js", "file:///app/main.js");
    assert_eq!(r.err(), Some(ResolveError::PolicyDenied));
}

#[test]
fn network_import_allowed_when_enabled() {
    let mut l = loader(true, false);
    let loc = resolve_ok(&mut l, "http://example.com/mod.js", "file:///app/main.js");
    assert_eq!(loc.scheme_kind(), SchemeKind::Http);
    assert_eq!(loc.as_str(), "http://example.com/mod.js");
}

#[test]
fn extension_imports_always_resolve() {
    let mut l = loader(false, false);
    let loc = resolve_ok(&mut l, "ext:init_runtime/init.js", "file:///app/main.js");
    assert_eq!(loc.scheme_kind(), SchemeKind::Ext);
    assert_eq!(loc.as_str(), "ext:init_runtime/init.js");
}

#[test]
fn resolution_is_idempotent() {
    let mut l = loader(false, false);
    let first = l.resolve("file:///app/main.js", ".");
    let second = l.resolve("file:///app/main.js", ".");
    assert_eq!(first.map(|loc| loc.as_str().to_owned()), second.map(|loc| loc.as_str().to_owned()));
    let e1 = l.resolve("https://example.com/a.js", "file:///app/main.js");
    let e2 = l.resolve("https://example.com/a.js", "file:///app/main.js");
    assert_eq!(e1.err(), e2.err());
}

#[test]
fn marks_json_locators() {
    let mut l = loader(false, true);
    let loc = resolve_ok(&mut l, "file:///data/config.json", ".");
    assert!(loc.is_json());
    let loc = resolve_ok(&mut l, "file:///data/config.json5", ".");
    assert!(!loc.is_json());
}

#[test]
fn rejects_empty_specifier() {
    let mut l = loader(true, true);
    let r = l.resolve("", "file:///app/main.js");
    assert_eq!(r.err(), Some(ResolveError::InvalidSpecifier));
}

#[test]
fn rejects_hierarchical_scheme_without_authority() {
    let mut l = loader(true, true);
    let r = l.resolve("file:main.js", ".");
    assert_eq!(r.err(), Some(ResolveError::InvalidSpecifier));
}

#[test]
fn authority_only_locator_gets_root_path() {
    let mut l = loader(true, true);
    let loc = resolve_ok(&mut l, "https://example.com", ".");
    assert_eq!(loc.as_str(), "https://example.com/");
}

#[test]
fn whitelist_add_and_has_agree() {
    let mut l = loader(false, false);
    assert!(!l.whitelist_has("file:///app/main.js"));
    l.whitelist_add("file:///app/main.js");
    assert!(l.whitelist_has("file:///app/main.js"));
    l.whitelist_add("file:///app/main.js");
    assert!(l.whitelist_has("file:///app/main.js"));
    assert!(!l.whitelist_has("file:///app/other.js"));
}
