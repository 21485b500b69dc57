//! Canonical module locators and the normalization of raw specifiers.
//!
//! A locator is an absolute, scheme-qualified identifier.  `resolve_specifier`
//! turns a raw specifier plus a referrer locator into a canonical locator:
//! absolute specifiers are canonicalized directly, `/`-, `./`- and
//! `../`-prefixed specifiers are resolved against the referrer, and anything
//! else is rejected as malformed.

use vstd::prelude::*;
use crate::text::{is_alpha, is_scheme_char, lower_char, lower_seq, find_char, lemma_find_char,
    lemma_find_char_is, lemma_find_char_none, find_last_char, lemma_find_last_char,
    check_alpha, check_scheme_char, to_lower_char, find_char_at, find_last_slash, chars_of,
    string_from_chars, subvec, append_chars};
use crate::paths::{norm_path, normalize_path};

verus! {

/// The scheme classes the loader's policy distinguishes.
#[derive(Clone, Copy, Debug, PartialEq, Eq, Structural)]
pub enum SchemeKind {
    File,
    Http,
    Https,
    Ext,
    Other,
}

/// The mathematical content of a locator: its canonical text, its scheme
/// class, and whether its path carries the structured-data suffix.
pub ghost struct CanonLocator {
    pub text: Seq<char>,
    pub kind: SchemeKind,
    pub json: bool,
}

pub open spec fn file_chars() -> Seq<char> {
    seq!['f', 'i', 'l', 'e']
}

pub open spec fn http_chars() -> Seq<char> {
    seq!['h', 't', 't', 'p']
}

pub open spec fn https_chars() -> Seq<char> {
    seq!['h', 't', 't', 'p', 's']
}

pub open spec fn ext_chars() -> Seq<char> {
    seq!['e', 'x', 't']
}

pub open spec fn json_suffix() -> Seq<char> {
    seq!['.', 'j', 's', 'o', 'n']
}

/// The root sentinel a host passes as referrer for its own top-level loads.
pub open spec fn root_sentinel() -> Seq<char> {
    seq!['.']
}

/// Classify a (lower-case) scheme name.
pub open spec fn classify_scheme(s: Seq<char>) -> SchemeKind {
    if s == file_chars() {
        SchemeKind::File
    } else if s == http_chars() {
        SchemeKind::Http
    } else if s == https_chars() {
        SchemeKind::Https
    } else if s == ext_chars() {
        SchemeKind::Ext
    } else {
        SchemeKind::Other
    }
}

/// The schemes written `scheme://authority/path`.
pub open spec fn is_hier_kind(k: SchemeKind) -> bool {
    k is File || k is Http || k is Https
}

/// Split `s` at the colon ending a well-formed scheme: `Some((scheme, rest))`
/// when `s` begins `scheme:`, with the scheme as written (case preserved).
pub open spec fn scheme_split(s: Seq<char>) -> Option<(Seq<char>, Seq<char>)> {
    match find_char(s, ':') {
        None => None,
        Some(i) => if i >= 1 && is_alpha(s[0]) && (forall|j: int| 1 <= j < i ==> is_scheme_char(
            s[j],
        )) {
            Some((s.take(i), s.skip(i + 1)))
        } else {
            None
        },
    }
}

/// Parse an absolute hierarchical reference into lower-cased scheme,
/// authority, and raw path (always beginning with `/`).
pub open spec fn parse_hier(s: Seq<char>) -> Option<(Seq<char>, Seq<char>, Seq<char>)> {
    match scheme_split(s) {
        None => None,
        Some(parts) => {
            let scheme = lower_seq(parts.0);
            let rest = parts.1;
            if is_hier_kind(classify_scheme(scheme)) && rest.len() >= 2 && rest[0] == '/'
                && rest[1] == '/' {
                let ar = rest.skip(2);
                match find_char(ar, '/') {
                    None => Some((scheme, ar, seq!['/'])),
                    Some(i) => Some((scheme, ar.take(i), ar.skip(i))),
                }
            } else {
                None
            }
        },
    }
}

/// The directory prefix of an absolute path: everything up to and including
/// the last slash.
pub open spec fn dir_of(p: Seq<char>) -> Seq<char> {
    match find_last_char(p, '/') {
        Some(i) => p.take(i + 1),
        None => seq!['/'],
    }
}

/// Whether a specifier is relative: it starts with `/`, `./` or `../`.
pub open spec fn starts_rel(s: Seq<char>) -> bool {
    (s.len() >= 1 && s[0] == '/') || (s.len() >= 2 && s[0] == '.' && s[1] == '/') || (s.len() >= 3
        && s[0] == '.' && s[1] == '.' && s[2] == '/')
}

/// Whether a path carries the structured-data suffix `.json`.
pub open spec fn is_json_path(p: Seq<char>) -> bool {
    p.len() >= 5 && p.skip(p.len() - 5) == json_suffix()
}

/// The canonical text of a hierarchical locator.
pub open spec fn assemble_hier(scheme: Seq<char>, auth: Seq<char>, path: Seq<char>) -> Seq<char> {
    scheme + seq![':', '/', '/'] + auth + path
}

/// The canonical locator built from hierarchical parts, with the raw path
/// normalized.
pub open spec fn canon_hier(scheme: Seq<char>, auth: Seq<char>, raw_path: Seq<char>) -> CanonLocator {
    let p = norm_path(raw_path);
    CanonLocator {
        text: assemble_hier(scheme, auth, p),
        kind: classify_scheme(scheme),
        json: is_json_path(p),
    }
}

/// Resolution of a raw specifier against a referrer: `Some` gives the
/// canonical locator, `None` means the specifier is malformed or cannot be
/// resolved against this referrer.
pub open spec fn spec_resolve(sp: Seq<char>, refr: Seq<char>) -> Option<CanonLocator> {
    match scheme_split(sp) {
        Some(parts) => {
            let scheme = lower_seq(parts.0);
            let k = classify_scheme(scheme);
            if is_hier_kind(k) {
                match parse_hier(sp) {
                    None => None,
                    Some(t) => Some(canon_hier(t.0, t.1, t.2)),
                }
            } else {
                Some(
                    CanonLocator {
                        text: scheme + seq![':'] + parts.1,
                        kind: k,
                        json: is_json_path(parts.1),
                    },
                )
            }
        },
        None => {
            if starts_rel(sp) {
                match parse_hier(refr) {
                    None => None,
                    Some(t) => {
                        let merged = if sp[0] == '/' {
                            sp
                        } else {
                            dir_of(t.2) + sp
                        };
                        Some(canon_hier(t.0, t.1, merged))
                    },
                }
            } else {
                None
            }
        },
    }
}

/// The scheme class that a locator text itself determines, by re-parsing.
pub open spec fn text_scheme_kind(t: Seq<char>) -> SchemeKind {
    match scheme_split(t) {
        None => SchemeKind::Other,
        Some(p) => classify_scheme(lower_seq(p.0)),
    }
}

/// The path that a locator text itself determines: the hierarchical path
/// when the text parses as `scheme://authority/path`, otherwise everything
/// after the scheme's colon.
pub open spec fn text_path(t: Seq<char>) -> Seq<char> {
    match parse_hier(t) {
        Some(h) => h.2,
        None => match scheme_split(t) {
            Some(p) => p.1,
            None => Seq::empty(),
        },
    }
}

/// Case folding keeps a character's scheme-character classes, and is
/// idempotent.
pub proof fn lemma_lower_scheme_char(c: char)
    ensures
        is_alpha(c) ==> is_alpha(lower_char(c)),
        is_scheme_char(c) ==> is_scheme_char(lower_char(c)),
        lower_char(lower_char(c)) == lower_char(c),
{
}

/// Case folding a sequence twice folds it once.
pub proof fn lemma_lower_seq_idempotent(s: Seq<char>)
    ensures
        lower_seq(lower_seq(s)) == lower_seq(s),
{
    assert forall|i: int| 0 <= i < s.len() implies lower_seq(lower_seq(s))[i] == lower_seq(s)[i]
        by {
        lemma_lower_scheme_char(s[i]);
    }
    assert(lower_seq(lower_seq(s)) =~= lower_seq(s));
}

/// Splitting a text assembled as `scheme ++ ":" ++ rest` at its scheme
/// recovers exactly the parts, when the scheme is a well-formed name.
pub proof fn lemma_scheme_split_assembled(scheme: Seq<char>, rest: Seq<char>)
    requires
        scheme.len() >= 1,
        is_alpha(scheme[0]),
        forall|j: int| 1 <= j < scheme.len() ==> is_scheme_char(scheme[j]),
    ensures
        scheme_split(scheme + seq![':'] + rest) == Some((scheme, rest)),
{
    let t = scheme + seq![':'] + rest;
    assert forall|j: int| 0 <= j < scheme.len() implies t[j] != ':' by {
        assert(t[j] == scheme[j]);
    }
    assert(t[scheme.len() as int] == ':');
    lemma_find_char_is(t, ':', scheme.len() as int);
    assert(t.take(scheme.len() as int) =~= scheme);
    assert(t.skip(scheme.len() as int + 1) =~= rest);
    assert(t[0] == scheme[0]);
}

/// Parsing a text assembled from well-formed hierarchical parts recovers
/// exactly those parts.
pub proof fn lemma_parse_hier_assembled(scheme: Seq<char>, auth: Seq<char>, p: Seq<char>)
    requires
        scheme.len() >= 1,
        is_alpha(scheme[0]),
        forall|j: int| 1 <= j < scheme.len() ==> is_scheme_char(scheme[j]),
        lower_seq(scheme) == scheme,
        is_hier_kind(classify_scheme(scheme)),
        forall|j: int| 0 <= j < auth.len() ==> auth[j] != '/',
        p.len() >= 1,
        p[0] == '/',
    ensures
        parse_hier(assemble_hier(scheme, auth, p)) == Some((scheme, auth, p)),
{
    let t = assemble_hier(scheme, auth, p);
    let rest = seq!['/', '/'] + auth + p;
    assert(t =~= scheme + seq![':'] + rest);
    lemma_scheme_split_assembled(scheme, rest);
    assert(rest[0] == '/');
    assert(rest[1] == '/');
    let ar = rest.skip(2);
    assert(ar =~= auth + p);
    assert forall|j: int| 0 <= j < auth.len() implies ar[j] != '/' by {
        assert(ar[j] == auth[j]);
    }
    assert(ar[auth.len() as int] == p[0]);
    lemma_find_char_is(ar, '/', auth.len() as int);
    assert(ar.take(auth.len() as int) =~= auth);
    assert(ar.skip(auth.len() as int) =~= p);
}

/// What a successful scheme split guarantees about its parts.
pub proof fn lemma_scheme_split_props(s: Seq<char>)
    ensures
        match scheme_split(s) {
            Some(p) => {
                &&& p.0.len() >= 1
                &&& is_alpha(p.0[0])
                &&& (forall|j: int| 1 <= j < p.0.len() ==> is_scheme_char(p.0[j]))
                &&& lower_seq(p.0).len() == p.0.len()
                &&& is_alpha(lower_seq(p.0)[0])
                &&& (forall|j: int|
                    1 <= j < p.0.len() ==> is_scheme_char(lower_seq(p.0)[j]))
                &&& lower_seq(lower_seq(p.0)) == lower_seq(p.0)
            },
            None => true,
        },
{
    match find_char(s, ':') {
        None => {},
        Some(i) => {
            lemma_find_char(s, ':');
            if i >= 1 && is_alpha(s[0]) && (forall|j: int| 1 <= j < i ==> is_scheme_char(s[j])) {
                let raw = s.take(i);
                assert(raw[0] == s[0]);
                assert forall|j: int| 1 <= j < raw.len() implies is_scheme_char(raw[j]) by {
                    assert(raw[j] == s[j]);
                }
                lemma_lower_scheme_char(raw[0]);
                assert forall|j: int|
                    1 <= j < raw.len() implies is_scheme_char(lower_seq(raw)[j]) by {
                    lemma_lower_scheme_char(raw[j]);
                }
                lemma_lower_seq_idempotent(raw);
            }
        },
    }
}

/// What a successful hierarchical parse guarantees about its parts: a
/// well-formed, already-folded scheme of a hierarchical class, a slash-free
/// authority, and a path beginning with a slash.
pub proof fn lemma_parse_hier_props(s: Seq<char>)
    ensures
        match parse_hier(s) {
            Some(t) => {
                &&& t.0.len() >= 1
                &&& is_alpha(t.0[0])
                &&& (forall|j: int| 1 <= j < t.0.len() ==> is_scheme_char(t.0[j]))
                &&& lower_seq(t.0) == t.0
                &&& is_hier_kind(classify_scheme(t.0))
                &&& (forall|j: int| 0 <= j < t.1.len() ==> t.1[j] != '/')
                &&& t.2.len() >= 1
                &&& t.2[0] == '/'
            },
            None => true,
        },
{
    lemma_scheme_split_props(s);
    match scheme_split(s) {
        None => {},
        Some(parts) => {
            let scheme = lower_seq(parts.0);
            let rest = parts.1;
            if is_hier_kind(classify_scheme(scheme)) && rest.len() >= 2 && rest[0] == '/'
                && rest[1] == '/' {
                let ar = rest.skip(2);
                lemma_find_char(ar, '/');
            }
        },
    }
}

/// The path a hierarchical parse returns always begins with a slash.
pub proof fn lemma_parse_hier_path(s: Seq<char>)
    ensures
        match parse_hier(s) {
            Some(t) => t.2.len() >= 1 && t.2[0] == '/',
            None => true,
        },
{
    match scheme_split(s) {
        None => {},
        Some(parts) => {
            let scheme = lower_seq(parts.0);
            let rest = parts.1;
            if is_hier_kind(classify_scheme(scheme)) && rest.len() >= 2 && rest[0] == '/'
                && rest[1] == '/' {
                let ar = rest.skip(2);
                lemma_find_char(ar, '/');
            }
        },
    }
}

/// A canonical, absolute, scheme-qualified module identifier.
///
/// Values are produced by `resolve_specifier`; the stored scheme class and
/// structured-data flag describe the canonical text.
pub struct Locator {
    text: String,
    kind: SchemeKind,
    json: bool,
}

impl View for Locator {
    type V = CanonLocator;

    closed spec fn view(&self) -> CanonLocator {
        CanonLocator { text: self.text@, kind: self.kind, json: self.json }
    }
}

impl Locator {
    /// The canonical locator text.
    pub fn as_str(&self) -> (r: &str)
        ensures
            r@ == self@.text,
    {
        self.text.as_str()
    }

    /// The locator's scheme class.
    pub fn scheme_kind(&self) -> (k: SchemeKind)
        ensures
            k == self@.kind,
    {
        self.kind
    }

    /// Whether the locator's path carries the structured-data suffix.
    pub fn is_json(&self) -> (b: bool)
        ensures
            b == self@.json,
    {
        self.json
    }

    /// An independent copy of the locator.
    pub fn duplicate(&self) -> (r: Locator)
        ensures
            r@ == self@,
    {
        Locator { text: self.text.clone(), kind: self.kind, json: self.json }
    }

    pub(crate) fn make(text: String, kind: SchemeKind, json: bool) -> (r: Locator)
        ensures
            r@ == (CanonLocator { text: text@, kind, json }),
    {
        Locator { text, kind, json }
    }
}

/// Find the colon that ends a well-formed scheme prefix, if there is one.
fn scheme_end(v: &Vec<char>) -> (r: Option<usize>)
    ensures
        match r {
            Some(i) => 1 <= i < v@.len() && scheme_split(v@) == Some(
                (v@.take(i as int), v@.skip(i as int + 1)),
            ),
            None => scheme_split(v@) is None,
        },
{
    let colon = find_char_at(v, 0, ':');
    match colon {
        None => {
            proof {
                lemma_find_char_none(v@, ':');
            }
            None
        },
        Some(i) => {
            proof {
                lemma_find_char_is(v@, ':', i as int);
            }
            if i == 0 {
                return None;
            }
            if !check_alpha(v[0]) {
                return None;
            }
            let mut j: usize = 1;
            while j < i
                invariant
                    1 <= j <= i < v@.len(),
                    find_char(v@, ':') == Some(i as int),
                    forall|m: int| 1 <= m < j ==> is_scheme_char(v@[m]),
                decreases i - j,
            {
                if !check_scheme_char(v[j]) {
                    return None;
                }
                j = j + 1;
            }
            Some(i)
        },
    }
}

/// The lower-cased copy of `v[a..b]`.
fn lower_vec(v: &Vec<char>, a: usize, b: usize) -> (r: Vec<char>)
    requires
        a <= b <= v@.len(),
    ensures
        r@ == lower_seq(v@.subrange(a as int, b as int)),
{
    let mut r: Vec<char> = Vec::new();
    let mut i: usize = a;
    while i < b
        invariant
            a <= i <= b <= v@.len(),
            r@.len() == i - a,
            forall|m: int| 0 <= m < i - a ==> r@[m] == crate::text::lower_char(v@[a + m]),
        decreases b - i,
    {
        r.push(to_lower_char(v[i]));
        i = i + 1;
    }
    proof {
        assert(r@ =~= lower_seq(v@.subrange(a as int, b as int)));
    }
    r
}

/// Classify a (lower-case) scheme name.
fn classify(v: &Vec<char>) -> (k: SchemeKind)
    ensures
        k == classify_scheme(v@),
{
    if v.len() == 4 && v[0] == 'f' && v[1] == 'i' && v[2] == 'l' && v[3] == 'e' {
        proof {
            assert(v@ =~= file_chars());
        }
        SchemeKind::File
    } else if v.len() == 4 && v[0] == 'h' && v[1] == 't' && v[2] == 't' && v[3] == 'p' {
        proof {
            assert(v@ =~= http_chars());
        }
        SchemeKind::Http
    } else if v.len() == 5 && v[0] == 'h' && v[1] == 't' && v[2] == 't' && v[3] == 'p' && v[4]
        == 's' {
        proof {
            assert(v@ =~= https_chars());
        }
        SchemeKind::Https
    } else if v.len() == 3 && v[0] == 'e' && v[1] == 'x' && v[2] == 't' {
        proof {
            assert(v@ =~= ext_chars());
        }
        SchemeKind::Ext
    } else {
        proof {
            if v@ == file_chars() {
                assert(v@.len() == 4 && v@[0] == 'f' && v@[1] == 'i' && v@[2] == 'l' && v@[3]
                    == 'e');
            }
            if v@ == http_chars() {
                assert(v@.len() == 4 && v@[0] == 'h' && v@[1] == 't' && v@[2] == 't' && v@[3]
                    == 'p');
            }
            if v@ == https_chars() {
                assert(v@.len() == 5 && v@[0] == 'h' && v@[1] == 't' && v@[2] == 't' && v@[3] == 'p'
                    && v@[4] == 's');
            }
            if v@ == ext_chars() {
                assert(v@.len() == 3 && v@[0] == 'e' && v@[1] == 'x' && v@[2] == 't');
            }
        }
        SchemeKind::Other
    }
}

fn is_hier(k: SchemeKind) -> (b: bool)
    ensures
        b == is_hier_kind(k),
{
    match k {
        SchemeKind::File => true,
        SchemeKind::Http => true,
        SchemeKind::Https => true,
        SchemeKind::Ext => false,
        SchemeKind::Other => false,
    }
}

/// Whether `v` ends in `.json`.
fn ends_json(v: &Vec<char>) -> (b: bool)
    ensures
        b == is_json_path(v@),
{
    let n = v.len();
    if n >= 5 && v[n - 5] == '.' && v[n - 4] == 'j' && v[n - 3] == 's' && v[n - 2] == 'o' && v[n
        - 1] == 'n' {
        proof {
            assert(v@.skip(v@.len() - 5) =~= json_suffix());
        }
        true
    } else {
        proof {
            if is_json_path(v@) {
                assert(v@.skip(v@.len() - 5)[0] == v@[v@.len() - 5]);
                assert(v@.skip(v@.len() - 5)[1] == v@[v@.len() - 4]);
                assert(v@.skip(v@.len() - 5)[2] == v@[v@.len() - 3]);
                assert(v@.skip(v@.len() - 5)[3] == v@[v@.len() - 2]);
                assert(v@.skip(v@.len() - 5)[4] == v@[v@.len() - 1]);
            }
        }
        false
    }
}

/// Parse an absolute hierarchical reference into its scheme, authority and
/// raw path parts.
fn parse_hier_parts(v: &Vec<char>) -> (r: Option<(Vec<char>, Vec<char>, Vec<char>)>)
    ensures
        match r {
            Some(t) => parse_hier(v@) == Some((t.0@, t.1@, t.2@)),
            None => parse_hier(v@) is None,
        },
{
    let i = match scheme_end(v) {
        None => {
            return None;
        },
        Some(i) => i,
    };
    let scheme = lower_vec(v, 0, i);
    proof {
        assert(v@.subrange(0, i as int) =~= v@.take(i as int));
    }
    let k = classify(&scheme);
    if !is_hier(k) {
        return None;
    }
    let n = v.len();
    let ghost rest = v@.skip(i as int + 1);
    if n - i < 3 {
        proof {
            assert(rest.len() < 2);
        }
        return None;
    }
    if !(v[i + 1] == '/' && v[i + 2] == '/') {
        proof {
            assert(rest[0] == v@[i as int + 1]);
            assert(rest[1] == v@[i as int + 2]);
        }
        return None;
    }
    proof {
        assert(rest[0] == v@[i as int + 1]);
        assert(rest[1] == v@[i as int + 2]);
        assert(rest.skip(2) =~= v@.skip(i as int + 3));
    }
    let ghost ar = rest.skip(2);
    match find_char_at(v, i + 3, '/') {
        None => {
            proof {
                assert forall|j: int| 0 <= j < ar.len() implies ar[j] != '/' by {
                    assert(ar[j] == v@[i as int + 3 + j]);
                }
                lemma_find_char_none(ar, '/');
            }
            let auth = subvec(v, i + 3, n);
            let mut path: Vec<char> = Vec::new();
            path.push('/');
            proof {
                assert(auth@ =~= ar);
                assert(path@ =~= seq!['/']);
            }
            Some((scheme, auth, path))
        },
        Some(s) => {
            proof {
                assert forall|j: int| 0 <= j < s - (i as int + 3) implies ar[j] != '/' by {
                    assert(ar[j] == v@[i as int + 3 + j]);
                }
                assert(ar[s - (i as int + 3)] == v@[s as int]);
                lemma_find_char_is(ar, '/', s - (i as int + 3));
            }
            let auth = subvec(v, i + 3, s);
            let path = subvec(v, s, n);
            proof {
                assert(auth@ =~= ar.take(s - (i as int + 3)));
                assert(path@ =~= ar.skip(s - (i as int + 3)));
            }
            Some((scheme, auth, path))
        },
    }
}

/// Assemble a hierarchical locator from its parts, normalizing the path.
fn build_hier(scheme: Vec<char>, auth: Vec<char>, raw_path: Vec<char>) -> (l: Locator)
    requires
        raw_path@.len() >= 1,
        raw_path@[0] == '/',
    ensures
        l@ == canon_hier(scheme@, auth@, raw_path@),
{
    let p = normalize_path(&raw_path);
    let json = ends_json(&p);
    let k = classify(&scheme);
    let mut text = scheme;
    let ghost scheme_view = text@;
    text.push(':');
    text.push('/');
    text.push('/');
    append_chars(&mut text, &auth);
    append_chars(&mut text, &p);
    proof {
        assert(text@ =~= assemble_hier(scheme_view, auth@, norm_path(raw_path@)));
    }
    let s = string_from_chars(&text);
    Locator::make(s, k, json)
}

/// Whether the specifier begins `/`, `./` or `../`.
fn check_starts_rel(v: &Vec<char>) -> (b: bool)
    ensures
        b == starts_rel(v@),
{
    let n = v.len();
    if n >= 1 && v[0] == '/' {
        return true;
    }
    if n >= 2 && v[0] == '.' && v[1] == '/' {
        return true;
    }
    if n >= 3 && v[0] == '.' && v[1] == '.' && v[2] == '/' {
        return true;
    }
    false
}

/// Resolve a raw specifier against a referrer locator.
///
/// `Some` carries the canonical locator; `None` means the specifier is
/// malformed, is a bare name, or is relative while the referrer is not an
/// absolute hierarchical locator.
pub fn resolve_specifier(specifier: &str, referrer: &str) -> (r: Option<Locator>)
    ensures
        match r {
            Some(l) => spec_resolve(specifier@, referrer@) == Some(l@),
            None => spec_resolve(specifier@, referrer@) is None,
        },
{
    let sp = chars_of(specifier);
    match scheme_end(&sp) {
        Some(i) => {
            let scheme = lower_vec(&sp, 0, i);
            proof {
                assert(sp@.subrange(0, i as int) =~= sp@.take(i as int));
            }
            let k = classify(&scheme);
            if is_hier(k) {
                match parse_hier_parts(&sp) {
                    None => None,
                    Some(t) => {
                        proof {
                            lemma_parse_hier_path(sp@);
                        }
                        let (sch, auth, rawp) = t;
                        Some(build_hier(sch, auth, rawp))
                    },
                }
            } else {
                let sp_len = sp.len();
                let rest = subvec(&sp, i + 1, sp_len);
                proof {
                    assert(rest@ =~= sp@.skip(i as int + 1));
                }
                let json = ends_json(&rest);
                let mut text = scheme;
                let ghost scheme_view = text@;
                text.push(':');
                append_chars(&mut text, &rest);
                proof {
                    assert(text@ =~= scheme_view + seq![':'] + sp@.skip(i as int + 1));
                }
                let s = string_from_chars(&text);
                Some(Locator::make(s, k, json))
            }
        },
        None => {
            let is_rel = check_starts_rel(&sp);
            if !is_rel {
                return None;
            }
            let refr = chars_of(referrer);
            match parse_hier_parts(&refr) {
                None => None,
                Some(t) => {
                    proof {
                        lemma_parse_hier_path(refr@);
                    }
                    let (sch, auth, rpath) = t;
                    let merged: Vec<char> = if sp[0] == '/' {
                        let copy = subvec(&sp, 0, sp.len());
                        proof {
                            assert(copy@ =~= sp@);
                        }
                        copy
                    } else {
                        match find_last_slash(&rpath) {
                            Some(ls) => {
                                proof {
                                    lemma_find_last_char(rpath@, '/');
                                    match find_last_char(rpath@, '/') {
                                        Some(w) => {
                                            assert(w == ls as int);
                                        },
                                        None => {
                                            assert(false);
                                        },
                                    }
                                }
                                let mut d = subvec(&rpath, 0, ls + 1);
                                proof {
                                    assert(d@ =~= rpath@.take(ls as int + 1));
                                }
                                append_chars(&mut d, &sp);
                                proof {
                                    assert(d@ == dir_of(rpath@) + sp@);
                                }
                                d
                            },
                            None => {
                                proof {
                                    assert(rpath@[0] != '/');
                                    assert(false);
                                }
                                Vec::new()
                            },
                        }
                    };
                    proof {
                        assert(merged@.len() >= 1 && merged@[0] == '/');
                    }
                    Some(build_hier(sch, auth, merged))
                },
            }
        },
    }
}

} // verus!
