//! Laws of the service, proved once over the store model.

use vstd::prelude::*;

use crate::codes::valid_code;
use crate::service::lemma_shorten_maps;
use crate::service::normalized;
use crate::service::resolve_spec;
use crate::service::shorten_code;
use crate::service::shorten_store;
use crate::store::Mapping;
use crate::store::contains_code;
use crate::store::contains_url;
use crate::store::store_ok;
use crate::store::url_index;

verus! {

/// Dedup idempotence: shortening the same URL a second time — whatever
/// candidate code the second run draws — answers the code of the first run
/// and leaves the store exactly as the first run left it.
pub proof fn lemma_shorten_idempotent(ms: Seq<Mapping>, nu: Seq<char>, f1: Seq<char>, f2: Seq<
    char,
>)
    ensures
        shorten_code(shorten_store(ms, nu, f1), nu, f2) == shorten_code(ms, nu, f1),
        shorten_store(shorten_store(ms, nu, f1), nu, f2) == shorten_store(ms, nu, f1),
{
    let ms1 = shorten_store(ms, nu, f1);
    if !contains_url(ms, nu) {
        assert(ms1[ms.len() as int] == Mapping { code: f1, url: nu });
        assert(contains_url(ms1, nu));
        let iu = url_index(ms1, nu);
        assert(0 <= iu < ms1.len() && ms1[iu].url == nu);
        if iu < ms.len() {
            assert(ms1[iu] == ms[iu]);
            assert(contains_url(ms, nu));
        }
        assert(ms1[iu].code == f1);
    }
}

/// Round trip: shortening `u` and then resolving the answered code yields
/// `https://` + (`u` with its leading scheme prefix stripped), whatever
/// fresh, unused candidate code the shorten run drew.
pub proof fn lemma_round_trip(ms: Seq<Mapping>, u: Seq<char>, f: Seq<char>)
    requires
        store_ok(ms),
        valid_code(f),
        !contains_code(ms, f),
    ensures
        resolve_spec(shorten_store(ms, normalized(u), f), shorten_code(ms, normalized(u), f))
            == Some("https://"@ + normalized(u)),
{
    lemma_shorten_maps(ms, normalized(u), f);
}

} // verus!
