//! The mapping store: an in-memory model of the persisted collection of
//! `short_code -> original_url` records. Its invariants — no two records
//! share a code, no two records share a URL, every code is well formed —
//! are what a deployment enforces through unique indexes; here they are
//! carried as `store_ok` through every operation.

use vstd::prelude::*;
use vstd::string::*;

use crate::codes::valid_code;

verus! {

/// One persisted record: a six-character short code and the URL it redirects
/// to, stored with its scheme prefix stripped. Records are immutable once
/// created: there is no update operation, only insert and delete.
pub struct UrlMapping {
    pub short_code: String,
    pub original_url: String,
}

/// The mathematical image of one record.
pub ghost struct Mapping {
    pub code: Seq<char>,
    pub url: Seq<char>,
}

impl View for UrlMapping {
    type V = Mapping;

    open spec fn view(&self) -> Mapping {
        Mapping { code: self.short_code@, url: self.original_url@ }
    }
}

/// Some record of `ms` holds the code `c`.
pub open spec fn contains_code(ms: Seq<Mapping>, c: Seq<char>) -> bool {
    exists|i: int| 0 <= i < ms.len() && (#[trigger] ms[i]).code == c
}

/// Some record of `ms` holds the URL `u`.
pub open spec fn contains_url(ms: Seq<Mapping>, u: Seq<char>) -> bool {
    exists|i: int| 0 <= i < ms.len() && (#[trigger] ms[i]).url == u
}

/// Index of the record holding code `c`; meaningful when `contains_code`.
pub open spec fn code_index(ms: Seq<Mapping>, c: Seq<char>) -> int {
    choose|i: int| 0 <= i < ms.len() && (#[trigger] ms[i]).code == c
}

/// Index of the record holding URL `u`; meaningful when `contains_url`.
pub open spec fn url_index(ms: Seq<Mapping>, u: Seq<char>) -> int {
    choose|i: int| 0 <= i < ms.len() && (#[trigger] ms[i]).url == u
}

/// The URL stored under code `c`; meaningful when `contains_code`.
pub open spec fn url_for_code(ms: Seq<Mapping>, c: Seq<char>) -> Seq<char> {
    ms[code_index(ms, c)].url
}

/// The code stored for URL `u`; meaningful when `contains_url`.
pub open spec fn code_for_url(ms: Seq<Mapping>, u: Seq<char>) -> Seq<char> {
    ms[url_index(ms, u)].code
}

/// The store's invariants: no two records share a code, no two records share
/// a URL (the dedup guarantee), and every code is well formed.
pub open spec fn store_ok(ms: Seq<Mapping>) -> bool {
    &&& forall|i: int, j: int| #![trigger ms[i], ms[j]]
        0 <= i < j < ms.len() ==> ms[i].code != ms[j].code && ms[i].url != ms[j].url
    &&& forall|i: int| 0 <= i < ms.len() ==> valid_code((#[trigger] ms[i]).code)
}

/// In a well-formed store, a code picks out at most one record.
pub proof fn lemma_code_unique(ms: Seq<Mapping>, i: int, j: int)
    requires
        store_ok(ms),
        0 <= i < ms.len(),
        0 <= j < ms.len(),
        ms[i].code == ms[j].code,
    ensures
        i == j,
{
    if i < j {
        assert(ms[i].code != ms[j].code);
    } else if j < i {
        assert(ms[j].code != ms[i].code);
    }
}

/// In a well-formed store, a URL picks out at most one record.
pub proof fn lemma_url_unique(ms: Seq<Mapping>, i: int, j: int)
    requires
        store_ok(ms),
        0 <= i < ms.len(),
        0 <= j < ms.len(),
        ms[i].url == ms[j].url,
    ensures
        i == j,
{
    if i < j {
        assert(ms[i].url != ms[j].url);
    } else if j < i {
        assert(ms[j].url != ms[i].url);
    }
}

/// Appending a record whose code and URL are both fresh keeps the store
/// well formed.
pub proof fn lemma_store_ok_push(ms: Seq<Mapping>, m: Mapping)
    requires
        store_ok(ms),
        valid_code(m.code),
        !contains_code(ms, m.code),
        !contains_url(ms, m.url),
    ensures
        store_ok(ms.push(m)),
{
    let post = ms.push(m);
    assert forall|i: int, j: int| #![trigger post[i], post[j]]
        0 <= i < j < post.len() implies post[i].code != post[j].code
        && post[i].url != post[j].url by {
        if j < ms.len() {
            assert(post[i] == ms[i]);
            assert(post[j] == ms[j]);
        } else {
            assert(post[j] == m);
            assert(post[i] == ms[i]);
            if post[i].code == m.code {
                assert(contains_code(ms, m.code));
            }
            if post[i].url == m.url {
                assert(contains_url(ms, m.url));
            }
        }
    }
    assert forall|i: int| 0 <= i < post.len() implies valid_code(
        (#[trigger] post[i]).code,
    ) by {
        if i < ms.len() {
            assert(post[i] == ms[i]);
        } else {
            assert(post[i] == m);
        }
    }
}

/// Removing a record keeps the store well formed.
pub proof fn lemma_store_ok_remove(ms: Seq<Mapping>, k: int)
    requires
        store_ok(ms),
        0 <= k < ms.len(),
    ensures
        store_ok(ms.remove(k)),
{
    ms.remove_ensures(k);
    let post = ms.remove(k);
    assert forall|i: int, j: int| #![trigger post[i], post[j]]
        0 <= i < j < post.len() implies post[i].code != post[j].code
        && post[i].url != post[j].url by {
        let i0 = if i < k { i } else { i + 1 };
        let j0 = if j < k { j } else { j + 1 };
        assert(post[i] == ms[i0]);
        assert(post[j] == ms[j0]);
        assert(ms[i0].code != ms[j0].code && ms[i0].url != ms[j0].url);
    }
    assert forall|i: int| 0 <= i < post.len() implies valid_code(
        (#[trigger] post[i]).code,
    ) by {
        let i0 = if i < k { i } else { i + 1 };
        assert(post[i] == ms[i0]);
    }
}

/// Character-by-character string comparison, exact on the views.
pub fn str_eq(a: &str, b: &str) -> (r: bool)
    ensures
        r == (a@ == b@),
{
    let alen = a.unicode_len();
    let blen = b.unicode_len();
    if alen != blen {
        return false;
    }
    let mut i: usize = 0;
    while i < alen
        invariant
            i <= alen,
            alen == a@.len(),
            alen == b@.len(),
            forall|j: int| 0 <= j < i ==> a@[j] == b@[j],
        decreases alen - i,
    {
        if a.get_char(i) != b.get_char(i) {
            return false;
        }
        i += 1;
    }
    proof {
        assert(a@ =~= b@);
    }
    true
}

/// The store itself: a growable collection of records, queryable by either
/// field. It stands for the persisted collection a deployment keeps.
pub struct MappingStore {
    mappings: Vec<UrlMapping>,
}

impl View for MappingStore {
    type V = Seq<Mapping>;

    closed spec fn view(&self) -> Seq<Mapping> {
        self.mappings@.map_values(|m: UrlMapping| m@)
    }
}

impl MappingStore {
    /// An empty store.
    pub fn new() -> (s: MappingStore)
        ensures
            s@ == Seq::<Mapping>::empty(),
    {
        let s = MappingStore { mappings: Vec::new() };
        proof {
            assert(s@ =~= Seq::<Mapping>::empty());
        }
        s
    }

    /// Number of live records.
    pub fn len(&self) -> (n: usize)
        ensures
            n == self@.len(),
    {
        self.mappings.len()
    }

    /// Exact-match lookup by short code; no side effects.
    pub fn find_by_code(&self, code: &str) -> (r: Option<UrlMapping>)
        requires
            store_ok(self@),
        ensures
            r matches Some(m) ==> contains_code(self@, code@) && m.short_code@ == code@
                && m.original_url@ == url_for_code(self@, code@),
            r is None ==> !contains_code(self@, code@),
    {
        let n = self.mappings.len();
        let mut i: usize = 0;
        while i < n
            invariant
                n == self.mappings.len(),
                i <= n,
                store_ok(self@),
                forall|j: int| 0 <= j < i ==> (#[trigger] self@[j]).code != code@,
            decreases n - i,
        {
            if str_eq(self.mappings[i].short_code.as_str(), code) {
                proof {
                    assert(self@[i as int].code == code@);
                    assert(contains_code(self@, code@));
                    let k = code_index(self@, code@);
                    lemma_code_unique(self@, k, i as int);
                }
                return Some(
                    UrlMapping {
                        short_code: self.mappings[i].short_code.clone(),
                        original_url: self.mappings[i].original_url.clone(),
                    },
                );
            }
            i += 1;
        }
        None
    }

    /// Exact-match lookup by normalized URL; no side effects.
    pub fn find_by_url(&self, url: &str) -> (r: Option<UrlMapping>)
        requires
            store_ok(self@),
        ensures
            r matches Some(m) ==> contains_url(self@, url@) && m.original_url@ == url@
                && m.short_code@ == code_for_url(self@, url@),
            r is None ==> !contains_url(self@, url@),
    {
        let n = self.mappings.len();
        let mut i: usize = 0;
        while i < n
            invariant
                n == self.mappings.len(),
                i <= n,
                store_ok(self@),
                forall|j: int| 0 <= j < i ==> (#[trigger] self@[j]).url != url@,
            decreases n - i,
        {
            if str_eq(self.mappings[i].original_url.as_str(), url) {
                proof {
                    assert(self@[i as int].url == url@);
                    assert(contains_url(self@, url@));
                    let k = url_index(self@, url@);
                    lemma_url_unique(self@, k, i as int);
                }
                return Some(
                    UrlMapping {
                        short_code: self.mappings[i].short_code.clone(),
                        original_url: self.mappings[i].original_url.clone(),
                    },
                );
            }
            i += 1;
        }
        None
    }

    /// Append a record. Uniqueness of both fields is the caller's
    /// responsibility, stated here as a precondition; the persisted
    /// collection backs it with unique indexes.
    pub fn insert(&mut self, m: UrlMapping)
        requires
            store_ok(old(self)@),
            valid_code(m.short_code@),
            !contains_code(old(self)@, m.short_code@),
            !contains_url(old(self)@, m.original_url@),
        ensures
            final(self)@ == old(self)@.push(m@),
            store_ok(final(self)@),
    {
        let ghost pre = self@;
        let ghost mv = m@;
        self.mappings.push(m);
        proof {
            assert(self@ =~= pre.push(mv));
            lemma_store_ok_push(pre, mv);
        }
    }

    /// Remove the record holding `code`, if any; returns how many records
    /// were removed (0 or 1), so callers can tell "not found" from
    /// "deleted".
    pub fn delete_by_code(&mut self, code: &str) -> (n: usize)
        requires
            store_ok(old(self)@),
        ensures
            store_ok(final(self)@),
            n <= 1,
            contains_code(old(self)@, code@) ==> n == 1 && final(self)@ == old(self)@.remove(
                code_index(old(self)@, code@),
            ),
            !contains_code(old(self)@, code@) ==> n == 0 && final(self)@ == old(self)@,
    {
        let total = self.mappings.len();
        let mut i: usize = 0;
        while i < total
            invariant
                total == self.mappings.len(),
                i <= total,
                self@ == old(self)@,
                store_ok(self@),
                forall|j: int| 0 <= j < i ==> (#[trigger] self@[j]).code != code@,
            decreases total - i,
        {
            if str_eq(self.mappings[i].short_code.as_str(), code) {
                let ghost pre = self@;
                proof {
                    assert(pre[i as int].code == code@);
                    assert(contains_code(pre, code@));
                    let k = code_index(pre, code@);
                    lemma_code_unique(pre, k, i as int);
                    pre.remove_ensures(i as int);
                    lemma_store_ok_remove(pre, i as int);
                }
                self.mappings.remove(i);
                proof {
                    assert(self@ =~= pre.remove(i as int));
                }
                return 1;
            }
            i += 1;
        }
        0
    }
}

} // verus!
