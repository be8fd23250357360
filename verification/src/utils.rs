//! The download/cache layer's decision core: hash verification, the
//! cache-versus-network policies of the two fetch primitives, and placeholder
//! substitution for launch arguments.
//!
//! The functions here are pure: the caller reads files, talks to the network
//! and persists bytes, and consults these functions between those steps.

use vstd::prelude::*;
use vstd::string::StringExecFns;

use crate::text::{push_char, string_eq};

verus! {

/// The digest that SHA-1 computes for a byte sequence.
pub uninterp spec fn sha1_of(bytes: Seq<u8>) -> Seq<u8>;

/// Relies on `openssl::sha::sha1`: the 20-byte SHA-1 digest of the input,
/// a function of the bytes alone.
#[verifier::external_body]
fn sha1(data: &[u8]) -> (r: [u8; 20])
    ensures
        r@ == sha1_of(data@),
{
    openssl::sha::sha1(data)
}

/// The lowercase hex digit for a nibble.
pub open spec fn hex_digit(n: u8) -> char
    recommends
        n < 16,
{
    if n < 10 {
        ((n + 48) as char)
    } else {
        ((n + 87) as char)
    }
}

/// The two lowercase hex digits of one byte, high nibble first.
pub open spec fn hex_pair(b: u8) -> Seq<char> {
    seq![hex_digit(b / 16), hex_digit(b % 16)]
}

/// The lowercase hex rendering of a byte sequence, in input order.
pub open spec fn hex_of(bytes: Seq<u8>) -> Seq<char>
    decreases bytes.len(),
{
    if bytes.len() == 0 {
        Seq::empty()
    } else {
        hex_pair(bytes.first()) + hex_of(bytes.drop_first())
    }
}

/// A hex rendering is two characters per byte.
pub proof fn lemma_hex_of_len(bytes: Seq<u8>)
    ensures
        hex_of(bytes).len() == 2 * bytes.len(),
    decreases bytes.len(),
{
    if bytes.len() > 0 {
        lemma_hex_of_len(bytes.drop_first());
    }
}

/// Relies on `hex::encode`: two lowercase hex digits per byte, high nibble
/// first, in input order.
#[verifier::external_body]
pub(crate) fn hex_encode(data: &[u8]) -> (r: String)
    ensures
        r@ == hex_of(data@),
{
    hex::encode(data)
}

/// An expected digest for fetched or cached bytes, or no verification at all.
#[derive(Debug, Clone, Copy)]
pub enum Hash {
    Sha1([u8; 20]),
    Unchecked,
}

/// Whether a hash accepts the given bytes: byte equality against the freshly
/// computed digest, or unconditional acceptance when none was requested.
pub open spec fn hash_accepts(h: Hash, data: Seq<u8>) -> bool {
    match h {
        Hash::Sha1(expected) => sha1_of(data) == expected@,
        Hash::Unchecked => true,
    }
}

/// Whether an optional hash accepts the given bytes.
pub open spec fn opt_hash_accepts(h: Option<Hash>, data: Seq<u8>) -> bool {
    match h {
        Some(h) => hash_accepts(h, data),
        None => true,
    }
}

fn digest_eq(a: &[u8; 20], b: &[u8; 20]) -> (r: bool)
    ensures
        r == (a@ == b@),
{
    let mut i: usize = 0;
    while i < 20
        invariant
            i <= 20,
            forall|j: int| 0 <= j < i ==> a@[j] == b@[j],
        decreases 20 - i,
    {
        if a[i] != b[i] {
            return false;
        }
        i = i + 1;
    }
    proof {
        assert(a@ =~= b@);
    }
    true
}

impl Hash {
    pub fn verify(self, data: &[u8]) -> (r: bool)
        ensures
            r == hash_accepts(self, data@),
    {
        match self {
            Hash::Sha1(expected) => {
                let actual = sha1(data);
                digest_eq(&actual, &expected)
            },
            Hash::Unchecked => true,
        }
    }
}

/// Everything that can go wrong while obtaining a remote document.
#[derive(Debug, Clone, Copy, PartialEq, Eq, Structural)]
pub enum RequestError {
    /// The network fetch itself failed and no local copy could stand in.
    Network,
    /// A persisted or fetched document could not be decoded.
    Decode,
    /// Reading or writing the local copy failed.
    Io,
    /// The file's modification time could not be related to the present.
    SystemTime,
    /// The fetched or cached bytes do not match the supplied digest.
    HashMismatch,
}

/// The outcome of the fetch-with-verify-and-cache primitive.
#[derive(Debug, Clone, Copy, PartialEq, Eq, Structural)]
pub enum DownloadResult {
    Downloaded,
    Skipped,
}

/// One file the install pipeline wants on disk: where to fetch it from,
/// where it lives locally, the digest that gates it, and whether the fetch
/// was pre-emptively skipped.
#[derive(Debug)]
pub struct DownloadRequest {
    pub url: String,
    pub path: String,
    pub hash: Hash,
    pub skip: bool,
}

/// Whether a cached copy's bytes verify against a supplied hash. Absent
/// bytes, or an absent hash, never qualify: a cached file is only trusted
/// after successful verification.
pub open spec fn cached_bytes_verify(cached: Option<Vec<u8>>, hash: Option<Hash>) -> bool {
    match (hash, cached) {
        (Some(h), Some(bytes)) => hash_accepts(h, bytes@),
        _ => false,
    }
}

/// The no-network half of the fetch-and-cache primitive: decide from the
/// requested skip, the cached bytes (if a file existed) and the expected hash
/// whether anything must be fetched at all. `Skipped` means no network call
/// occurs; on `Downloaded` the caller fetches, verifies with
/// [`verify_response`], and persists all-or-nothing.
pub fn plan_download(skip: bool, cached: &Option<Vec<u8>>, hash: &Option<Hash>) -> (r:
    DownloadResult)
    ensures
        r is Skipped <==> (skip || cached_bytes_verify(*cached, *hash)),
{
    if skip {
        return DownloadResult::Skipped;
    }
    match (hash, cached) {
        (Some(h), Some(bytes)) => {
            if h.verify(bytes.as_slice()) {
                DownloadResult::Skipped
            } else {
                DownloadResult::Downloaded
            }
        },
        _ => DownloadResult::Downloaded,
    }
}

/// Gate on freshly fetched bytes: with a supplied hash a mismatch is fatal
/// and nothing may be persisted; without one the bytes pass as they are.
pub fn verify_response(bytes: &Vec<u8>, hash: &Option<Hash>) -> (r: Result<(), RequestError>)
    ensures
        r is Ok <==> opt_hash_accepts(*hash, bytes@),
        r is Err ==> r == Err::<(), RequestError>(RequestError::HashMismatch),
{
    match hash {
        Some(h) => {
            if h.verify(bytes.as_slice()) {
                Ok(())
            } else {
                Err(RequestError::HashMismatch)
            }
        },
        None => Ok(()),
    }
}

/// How a policy-driven JSON read proceeds.
#[derive(Debug, Clone, Copy, PartialEq, Eq, Structural)]
pub enum CachePlan {
    /// Decode the cached bytes; no network call occurs.
    UseCache,
    /// Fetch over the network; when `fallback` is set, a cached copy exists
    /// and is served (stale as it may be) should the fetch itself fail.
    Fetch { fallback: bool },
}

/// When the cached copy may be served without any network call: its bytes
/// verify against the supplied hash, or -- only when no hash was supplied --
/// its age lies within the freshness window.
pub open spec fn cache_is_current(
    cached: Option<Vec<u8>>,
    hash: Option<Hash>,
    age_secs: Option<u64>,
    valid_for_secs: Option<u64>,
) -> bool {
    match cached {
        Some(bytes) => match hash {
            Some(h) => hash_accepts(h, bytes@),
            None => match (age_secs, valid_for_secs) {
                (Some(age), Some(valid_for)) => age <= valid_for,
                _ => false,
            },
        },
        None => false,
    }
}

/// The cache-preference policy of the JSON fetch primitive: a verified (or,
/// hashless, a fresh enough) cached copy is decoded with no network call;
/// anything else is fetched, with the cached copy as last-resort fallback
/// whenever one exists.
pub fn plan_json_read(
    cached: &Option<Vec<u8>>,
    hash: &Option<Hash>,
    age_secs: &Option<u64>,
    valid_for_secs: &Option<u64>,
) -> (r: CachePlan)
    ensures
        r is UseCache <==> cache_is_current(*cached, *hash, *age_secs, *valid_for_secs),
        r matches CachePlan::Fetch { fallback } ==> fallback == (cached is Some),
{
    match cached {
        Some(bytes) => {
            let current = match hash {
                Some(h) => h.verify(bytes.as_slice()),
                None => match (age_secs, valid_for_secs) {
                    (Some(age), Some(valid_for)) => *age <= *valid_for,
                    _ => false,
                },
            };
            if current {
                CachePlan::UseCache
            } else {
                CachePlan::Fetch { fallback: true }
            }
        },
        None => CachePlan::Fetch { fallback: false },
    }
}

/// The value bound to `key`, scanning bindings front to back.
pub open spec fn lookup_var(vars: Seq<(Seq<char>, Seq<char>)>, key: Seq<char>) -> Option<Seq<char>>
    decreases vars.len(),
{
    if vars.len() == 0 {
        None
    } else if vars.first().0 == key {
        Some(vars.first().1)
    } else {
        lookup_var(vars.drop_first(), key)
    }
}

proof fn lemma_lookup_var_skip(vars: Seq<(Seq<char>, Seq<char>)>, key: Seq<char>, i: int)
    requires
        0 <= i <= vars.len(),
        forall|j: int| 0 <= j < i ==> #[trigger] vars[j].0 != key,
    ensures
        lookup_var(vars, key) == lookup_var(vars.skip(i), key),
    decreases i,
{
    if i == 0 {
        assert(vars.skip(0) =~= vars);
    } else {
        lemma_lookup_var_skip(vars, key, i - 1);
        assert(vars.skip(i - 1).first() == vars[i - 1]);
        assert(vars[i - 1].0 != key);
        assert(vars.skip(i - 1).drop_first() =~= vars.skip(i));
    }
}

/// Look a variable up among the bindings.
pub fn get_var<'a>(vars: &'a Vec<(String, String)>, key: &String) -> (r: Option<&'a String>)
    ensures
        match r {
            Some(v) => lookup_var(vars.deep_view(), key@) == Some(v@),
            None => lookup_var(vars.deep_view(), key@) is None,
        },
{
    let mut i: usize = 0;
    while i < vars.len()
        invariant
            i <= vars.len(),
            forall|j: int| 0 <= j < i ==> #[trigger] vars.deep_view()[j].0 != key@,
        decreases vars.len() - i,
    {
        proof {
            assert(vars.deep_view()[i as int] == (vars@[i as int].0@, vars@[i as int].1@));
        }
        if string_eq(&vars[i].0, key) {
            proof {
                lemma_lookup_var_skip(vars.deep_view(), key@, i as int);
                assert(vars.deep_view().skip(i as int).first() == vars.deep_view()[i as int]);
            }
            return Some(&vars[i].1);
        }
        i = i + 1;
    }
    proof {
        lemma_lookup_var_skip(vars.deep_view(), key@, vars.deep_view().len() as int);
        assert(vars.deep_view().skip(vars.deep_view().len() as int) =~= Seq::<
            (Seq<char>, Seq<char>),
        >::empty());
    }
    None
}

/// Bind `key` to `value`. The new binding stands first, so it shadows any
/// older binding of the same name.
pub fn set_var(vars: &mut Vec<(String, String)>, key: String, value: String)
    ensures
        final(vars).deep_view() == old(vars).deep_view().insert(0, (key@, value@)),
        forall|k: Seq<char>|
            lookup_var(final(vars).deep_view(), k) == (if k == key@ {
                Some(value@)
            } else {
                lookup_var(old(vars).deep_view(), k)
            }),
{
    let ghost pre = vars.deep_view();
    let ghost key_view = key@;
    let ghost value_view = value@;
    vars.insert(0, (key, value));
    proof {
        assert(vars.deep_view() =~= pre.insert(0, (key_view, value_view)));
        assert(vars.deep_view().drop_first() =~= pre);
        assert forall|k: Seq<char>|
            lookup_var(vars.deep_view(), k) == (if k == key_view {
                Some(value_view)
            } else {
                lookup_var(pre, k)
            }) by {
            assert(vars.deep_view().first() == (key_view, value_view));
        }
    }
}

/// `None` when `rest` is `None`, else `rest` with `prefix` in front.
pub open spec fn opt_prepend(prefix: Seq<char>, rest: Option<Seq<char>>) -> Option<Seq<char>> {
    match rest {
        Some(s) => Some(prefix + s),
        None => None,
    }
}

proof fn lemma_opt_prepend_assoc(a: Seq<char>, b: Seq<char>, rest: Option<Seq<char>>)
    ensures
        opt_prepend(a, opt_prepend(b, rest)) == opt_prepend(a + b, rest),
{
    match rest {
        Some(s) => {
            assert(a + (b + s) =~= (a + b) + s);
        },
        None => {},
    }
}

/// Substitution of a template's tail from position `i`, outside any
/// placeholder.
pub open spec fn subst_from(
    t: Seq<char>,
    vars: Seq<(Seq<char>, Seq<char>)>,
    i: int,
) -> Option<Seq<char>>
    decreases t.len() - i,
{
    if i >= t.len() || i < 0 {
        Some(Seq::empty())
    } else if t[i] == '$' && i + 1 < t.len() && t[i + 1] == '{' {
        subst_key(t, vars, i + 2, Seq::empty())
    } else {
        opt_prepend(seq![t[i]], subst_from(t, vars, i + 1))
    }
}

/// Substitution inside a placeholder whose name so far is `key`: scan on to
/// the closing brace, then look the name up. A missing name drops the whole
/// argument; a template that ends inside a placeholder discards the pending
/// name.
pub open spec fn subst_key(
    t: Seq<char>,
    vars: Seq<(Seq<char>, Seq<char>)>,
    j: int,
    key: Seq<char>,
) -> Option<Seq<char>>
    decreases t.len() - j,
{
    if j >= t.len() || j < 0 {
        Some(Seq::empty())
    } else if t[j] == '}' {
        match lookup_var(vars, key) {
            Some(v) => opt_prepend(v, subst_from(t, vars, j + 1)),
            None => None,
        }
    } else {
        subst_key(t, vars, j + 1, key.push(t[j]))
    }
}

/// The result of substituting `${name}` placeholders in a template: `None`
/// as soon as one name is unbound, else the template with each placeholder
/// replaced by its value.
pub open spec fn subst(t: Seq<char>, vars: Seq<(Seq<char>, Seq<char>)>) -> Option<Seq<char>> {
    subst_from(t, vars, 0)
}

/// A template without the placeholder sigil substitutes to itself.
pub proof fn lemma_subst_without_sigil(t: Seq<char>, vars: Seq<(Seq<char>, Seq<char>)>)
    requires
        forall|i: int| 0 <= i < t.len() ==> t[i] != '$',
    ensures
        subst(t, vars) == Some(t),
{
    lemma_subst_from_without_sigil(t, vars, 0);
    assert(t.skip(0) =~= t);
}

proof fn lemma_subst_from_without_sigil(t: Seq<char>, vars: Seq<(Seq<char>, Seq<char>)>, i: int)
    requires
        0 <= i <= t.len(),
        forall|j: int| 0 <= j < t.len() ==> t[j] != '$',
    ensures
        subst_from(t, vars, i) == Some(t.skip(i)),
    decreases t.len() - i,
{
    if i >= t.len() {
        assert(t.skip(i) =~= Seq::<char>::empty());
    } else {
        lemma_subst_from_without_sigil(t, vars, i + 1);
        assert(seq![t[i]] + t.skip(i + 1) =~= t.skip(i));
    }
}

/// Substitute `${name}` placeholders in `template` from the bindings. An
/// unbound name yields `None`: the caller drops the whole argument.
pub fn replace_placeholders(template: &str, variables: &Vec<(String, String)>) -> (r: Option<
    String,
>)
    ensures
        match r {
            Some(s) => subst(template@, variables.deep_view()) == Some(s@),
            None => subst(template@, variables.deep_view()) is None,
        },
{
    let ghost vars = variables.deep_view();
    let n = template.unicode_len();
    let mut out = String::new();
    let mut key = String::new();
    let mut in_placeholder = false;
    let mut i: usize = 0;
    while i < n
        invariant
            n == template@.len(),
            i <= n,
            vars == variables.deep_view(),
            !in_placeholder ==> subst(template@, vars) == opt_prepend(
                out@,
                subst_from(template@, vars, i as int),
            ),
            !in_placeholder ==> key@ == Seq::<char>::empty(),
            in_placeholder ==> subst(template@, vars) == opt_prepend(
                out@,
                subst_key(template@, vars, i as int, key@),
            ),
        decreases n - i,
    {
        let c = template.get_char(i);
        if in_placeholder {
            if c == '}' {
                match get_var(variables, &key) {
                    Some(value) => {
                        proof {
                            lemma_opt_prepend_assoc(
                                out@,
                                value@,
                                subst_from(template@, vars, i + 1),
                            );
                        }
                        out.append(value.as_str());
                        key = String::new();
                        in_placeholder = false;
                    },
                    None => {
                        return None;
                    },
                }
            } else {
                push_char(&mut key, c);
            }
            i = i + 1;
        } else if c == '$' && i + 1 < n && template.get_char(i + 1) == '{' {
            in_placeholder = true;
            i = i + 2;
        } else {
            proof {
                lemma_opt_prepend_assoc(out@, seq![c], subst_from(template@, vars, i + 1));
                assert(out@ + seq![c] =~= out@.push(c));
            }
            push_char(&mut out, c);
            i = i + 1;
        }
    }
    proof {
        if in_placeholder {
            assert(subst_key(template@, vars, i as int, key@) == Some(Seq::<char>::empty()));
        } else {
            assert(subst_from(template@, vars, i as int) == Some(Seq::<char>::empty()));
        }
        assert(out@ + Seq::<char>::empty() =~= out@);
    }
    Some(out)
}

} // verus!
