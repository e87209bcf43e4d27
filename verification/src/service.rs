//! The workflows: normalize and shorten a URL, resolve a code back to a
//! redirect target, and delete a mapping after a credential check.

use vstd::prelude::*;
use vstd::string::*;

use crate::codes::generate_short_code;
use crate::codes::valid_code;
use crate::store::MappingStore;
use crate::store::Mapping;
use crate::store::UrlMapping;
use crate::store::code_for_url;
use crate::store::code_index;
use crate::store::contains_code;
use crate::store::contains_url;
use crate::store::lemma_code_unique;
use crate::store::lemma_store_ok_push;
use crate::store::store_ok;
use crate::store::url_for_code;
use crate::store::url_index;
use crate::users::UserStore;
use crate::users::has_credential;

verus! {

/// The error taxonomy of the service. `StoreError` stands for a failure of
/// the persistence layer; the in-memory store never fails, so only a driver
/// over an external store reports it. `ExhaustedError` reports a code
/// allocation that gave up after too many colliding draws.
#[derive(Clone, Copy, Debug, PartialEq, Eq, Structural)]
pub enum ServiceError {
    ValidationError,
    StoreError,
    NotFoundError,
    AuthError,
    ExhaustedError,
}

/// Retry cap for code allocation. A collision is a ~1-in-56.8-billion
/// event per draw, so the cap is never reached in practice; it bounds the
/// retry loop all the same.
pub const MAX_CODE_ATTEMPTS: u64 = 100;

/// `s` with the prefix `p` stripped when it starts with `p`, `s` unchanged
/// otherwise.
pub open spec fn strip_prefix_spec(s: Seq<char>, p: Seq<char>) -> Seq<char> {
    if p.len() <= s.len() && s.subrange(0, p.len() as int) == p {
        s.subrange(p.len() as int, s.len() as int)
    } else {
        s
    }
}

/// A URL as stored: at most one leading `http://` stripped, then — always
/// checked, whether or not the first matched — at most one leading
/// `https://`, in that fixed order.
pub open spec fn normalized(u: Seq<char>) -> Seq<char> {
    strip_prefix_spec(strip_prefix_spec(u, "http://"@), "https://"@)
}

/// The outcome of a lookup by code: the stored URL behind an enforced
/// `https://` prefix, or nothing.
pub open spec fn resolve_spec(ms: Seq<Mapping>, c: Seq<char>) -> Option<Seq<char>> {
    if contains_code(ms, c) {
        Some("https://"@ + url_for_code(ms, c))
    } else {
        None
    }
}

/// The code a shorten request answers with, given the store contents, the
/// normalized URL and the freshly drawn candidate: an existing mapping's
/// code is reused, else the candidate.
pub open spec fn shorten_code(ms: Seq<Mapping>, nu: Seq<char>, fresh: Seq<char>) -> Seq<char> {
    if contains_url(ms, nu) {
        code_for_url(ms, nu)
    } else {
        fresh
    }
}

/// The store contents after a shorten request: unchanged when the URL was
/// already mapped (the candidate is discarded), else grown by one record.
pub open spec fn shorten_store(ms: Seq<Mapping>, nu: Seq<char>, fresh: Seq<char>) -> Seq<
    Mapping,
> {
    if contains_url(ms, nu) {
        ms
    } else {
        ms.push(Mapping { code: fresh, url: nu })
    }
}

/// After a shorten step with a fresh, well-formed candidate, the store is
/// still well formed and maps the normalized URL and the answered code to
/// each other.
pub proof fn lemma_shorten_maps(ms: Seq<Mapping>, nu: Seq<char>, fresh: Seq<char>)
    requires
        store_ok(ms),
        valid_code(fresh),
        !contains_code(ms, fresh),
    ensures
        ({
            let c = shorten_code(ms, nu, fresh);
            let post = shorten_store(ms, nu, fresh);
            &&& store_ok(post)
            &&& contains_url(post, nu)
            &&& contains_code(post, c)
            &&& code_for_url(post, nu) == c
            &&& url_for_code(post, c) == nu
            &&& valid_code(c)
        }),
{
    let c = shorten_code(ms, nu, fresh);
    let post = shorten_store(ms, nu, fresh);
    if contains_url(ms, nu) {
        let iu = url_index(ms, nu);
        assert(0 <= iu < ms.len() && ms[iu].url == nu);
        assert(ms[iu].code == c);
        assert(contains_code(ms, c));
        let ic = code_index(ms, c);
        lemma_code_unique(ms, ic, iu);
        assert(valid_code(ms[iu].code));
    } else {
        let m = Mapping { code: fresh, url: nu };
        lemma_store_ok_push(ms, m);
        assert(post[ms.len() as int] == m);
        assert(contains_url(post, nu));
        assert(contains_code(post, c));
        let iu = url_index(post, nu);
        assert(0 <= iu < post.len() && post[iu].url == nu);
        if iu < ms.len() {
            assert(post[iu] == ms[iu]);
            assert(contains_url(ms, nu));
        }
        let ic = code_index(post, c);
        assert(0 <= ic < post.len() && post[ic].code == c);
        if ic < ms.len() {
            assert(post[ic] == ms[ic]);
            assert(contains_code(ms, fresh));
        }
    }
}

/// `s` with `p` stripped off its front when `s` starts with `p`.
fn strip_prefix_exec<'a>(s: &'a str, p: &str) -> (r: &'a str)
    ensures
        r@ == strip_prefix_spec(s@, p@),
{
    let plen = p.unicode_len();
    let slen = s.unicode_len();
    if plen > slen {
        return s;
    }
    let mut i: usize = 0;
    while i < plen
        invariant
            i <= plen,
            plen == p@.len(),
            slen == s@.len(),
            plen <= slen,
            forall|j: int| 0 <= j < i ==> s@[j] == p@[j],
        decreases plen - i,
    {
        if s.get_char(i) != p.get_char(i) {
            proof {
                assert(s@.subrange(0, p@.len() as int)[i as int] == s@[i as int]);
            }
            return s;
        }
        i += 1;
    }
    proof {
        assert(s@.subrange(0, p@.len() as int) =~= p@);
    }
    s.substring_char(plen, slen)
}

/// Strip one leading `http://`, then — independently — one leading
/// `https://`, in that fixed order.
pub fn normalize_url(url: &str) -> (r: String)
    ensures
        r@ == normalized(url@),
{
    let s1 = strip_prefix_exec(url, "http://");
    let s2 = strip_prefix_exec(s1, "https://");
    String::from_str(s2)
}

/// The stored URL turned back into a redirect target: an `https://` prefix
/// is enforced whatever scheme the creation request carried.
pub fn redirect_target(original_url: &str) -> (r: String)
    ensures
        r@ == "https://"@ + original_url@,
{
    let mut r = String::from_str("https://");
    r.append(original_url);
    r
}

/// Allocate a code that is absent from the store at the instant of the
/// check: draw a candidate, look it up, retry on collision. On an empty
/// store the first candidate is necessarily fresh, so allocation cannot
/// fail there. A store this core does not own may gain the code between
/// this check and a later insert; that narrow race is closed by the
/// store's unique index, not here.
pub fn resolve_unique_code(store: &MappingStore) -> (r: Result<String, ServiceError>)
    requires
        store_ok(store@),
    ensures
        store@.len() == 0 ==> r is Ok,
        r matches Ok(c) ==> valid_code(c@) && !contains_code(store@, c@),
        r matches Err(e) ==> e == ServiceError::ExhaustedError,
{
    let mut attempts: u64 = 0;
    while attempts < MAX_CODE_ATTEMPTS
        invariant
            store_ok(store@),
            attempts > 0 ==> store@.len() > 0,
        decreases MAX_CODE_ATTEMPTS - attempts,
    {
        let candidate = generate_short_code();
        if store.find_by_code(candidate.as_str()).is_none() {
            return Ok(candidate);
        }
        attempts += 1;
    }
    Err(ServiceError::ExhaustedError)
}

/// The shorten step once a fresh candidate code is in hand: normalize and
/// validate the URL, reuse the code of an existing mapping for it, else
/// insert a new record under the candidate.
pub fn shorten_with_code(store: &mut MappingStore, url: &str, code: &str) -> (r: Result<
    String,
    ServiceError,
>)
    requires
        store_ok(old(store)@),
        valid_code(code@),
        !contains_code(old(store)@, code@),
    ensures
        store_ok(final(store)@),
        normalized(url@).len() == 0 ==> r == Err::<String, ServiceError>(
            ServiceError::ValidationError,
        ) && final(store)@ == old(store)@,
        normalized(url@).len() > 0 ==> ({
            &&& r matches Ok(c)
            &&& c@ == shorten_code(old(store)@, normalized(url@), code@)
            &&& final(store)@ == shorten_store(old(store)@, normalized(url@), code@)
        }),
{
    let link = normalize_url(url);
    if link.as_str().is_empty() {
        return Err(ServiceError::ValidationError);
    }
    let ghost nu = link@;
    match store.find_by_url(link.as_str()) {
        Some(existing) => Ok(existing.short_code),
        None => {
            let mapping = UrlMapping { short_code: String::from_str(code), original_url: link };
            store.insert(mapping);
            Ok(String::from_str(code))
        },
    }
}

/// The full shorten workflow: validate, allocate a fresh code, dedup
/// against the store, insert if the URL is new. The answered code resolves
/// to the given URL; when the URL was already mapped the freshly drawn
/// candidate is discarded, never persisted.
pub fn shorten_link(store: &mut MappingStore, url: &str) -> (r: Result<String, ServiceError>)
    requires
        store_ok(old(store)@),
    ensures
        store_ok(final(store)@),
        normalized(url@).len() == 0 ==> r == Err::<String, ServiceError>(
            ServiceError::ValidationError,
        ) && final(store)@ == old(store)@,
        normalized(url@).len() > 0 ==> match r {
            Ok(c) => exists|f: Seq<char>|
                {
                    &&& #[trigger] valid_code(f)
                    &&& !contains_code(old(store)@, f)
                    &&& c@ == shorten_code(old(store)@, normalized(url@), f)
                    &&& final(store)@ == shorten_store(old(store)@, normalized(url@), f)
                },
            Err(e) => e == ServiceError::ExhaustedError && final(store)@ == old(store)@,
        },
        r matches Ok(c) ==> contains_url(final(store)@, normalized(url@)) && c@ == code_for_url(
            final(store)@,
            normalized(url@),
        ) && valid_code(c@),
        normalized(url@).len() > 0 && old(store)@.len() == 0 ==> r is Ok,
{
    let link = normalize_url(url);
    if link.as_str().is_empty() {
        return Err(ServiceError::ValidationError);
    }
    let code = match resolve_unique_code(store) {
        Ok(c) => c,
        Err(e) => {
            return Err(e);
        },
    };
    let r = shorten_with_code(store, url, code.as_str());
    proof {
        lemma_shorten_maps(old(store)@, normalized(url@), code@);
    }
    r
}

/// The resolve workflow: look the code up and answer the redirect target,
/// or nothing. A failing store collapses to the same not-found outcome on
/// this public path; with the in-memory store only an absent code does.
pub fn get_link(store: &MappingStore, code: &str) -> (r: Option<String>)
    requires
        store_ok(store@),
    ensures
        r matches Some(u) ==> resolve_spec(store@, code@) == Some(u@),
        r is None ==> resolve_spec(store@, code@) is None,
{
    match store.find_by_code(code) {
        Some(m) => Some(redirect_target(m.original_url.as_str())),
        None => None,
    }
}

/// Map a deletion count to the workflow outcome: zero rows removed is the
/// not-found failure, anything else is success.
pub fn delete_outcome(deleted_count: u64) -> (r: Result<(), ServiceError>)
    ensures
        deleted_count == 0 ==> r == Err::<(), ServiceError>(ServiceError::NotFoundError),
        deleted_count > 0 ==> r == Ok::<(), ServiceError>(()),
{
    if deleted_count == 0 {
        Err(ServiceError::NotFoundError)
    } else {
        Ok(())
    }
}

/// The delete workflow: check the credentials against the user store, then
/// delete by code; report a credential mismatch, a missing code and success
/// distinctly, without touching the store on failure.
pub fn delete_link(
    store: &mut MappingStore,
    users: &UserStore,
    code: &str,
    username: &str,
    password: &str,
) -> (r: Result<(), ServiceError>)
    requires
        store_ok(old(store)@),
    ensures
        store_ok(final(store)@),
        !has_credential(users@, username@, password@) ==> r == Err::<(), ServiceError>(
            ServiceError::AuthError,
        ) && final(store)@ == old(store)@,
        has_credential(users@, username@, password@) && !contains_code(old(store)@, code@)
            ==> r == Err::<(), ServiceError>(ServiceError::NotFoundError) && final(store)@
            == old(store)@,
        has_credential(users@, username@, password@) && contains_code(old(store)@, code@)
            ==> r == Ok::<(), ServiceError>(()) && final(store)@ == old(store)@.remove(
            code_index(old(store)@, code@),
        ),
{
    match users.find_credential(username, password) {
        None => Err(ServiceError::AuthError),
        Some(_) => {
            let n = store.delete_by_code(code);
            delete_outcome(n as u64)
        },
    }
}

} // verus!
