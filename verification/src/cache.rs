//! The asset cache: write-once, never expiring, keyed by the asset's
//! source-relative path.
//!
//! The store itself is a directory on disk, written and read outside
//! the library.  This module carries the verified part: the derivation
//! of the location, cache and origin-URL paths for an asset, and the
//! cache's contents as a model on which the serve-or-fetch decision is
//! proved -- in particular that a stored asset is found again, so a
//! repeated request fetches nothing from the origin.

use vstd::prelude::*;
use vstd::string::StringExecFns;
use crate::text::str_eq;

verus! {

/// The source-relative location of an asset, from the request's
/// trailing path.
pub fn asset_location(path: &str) -> (r: String)
    ensures
        r@ == "_assets/"@ + path@,
{
    let mut location = String::from_str("_assets/");
    location.append(path);
    location
}

/// Where an asset is kept on disk, from its source-relative location.
pub fn asset_cache_path(location: &str) -> (r: String)
    ensures
        r@ == "cache/"@ + location@,
{
    let mut p = String::from_str("cache/");
    p.append(location);
    p
}

/// The origin URL an asset is fetched from on a miss.
pub fn asset_origin_url(location: &str) -> (r: String)
    ensures
        r@ == "https://www.notion.so/"@ + location@,
{
    let mut url = String::from_str("https://www.notion.so/");
    url.append(location);
    url
}

/// The view of the cache's contents: stored assets in store order.
pub open spec fn cache_entries_view(entries: Seq<(String, Vec<u8>)>) -> Seq<(Seq<char>, Seq<u8>)> {
    entries.map_values(|e: (String, Vec<u8>)| (e.0@, e.1@))
}

/// The bytes stored under a path: those of the last store, mirroring a
/// last-writer-wins directory.
pub open spec fn spec_cache_lookup(m: Seq<(Seq<char>, Seq<u8>)>, k: Seq<char>) -> Option<Seq<u8>>
    decreases m.len(),
{
    if m.len() == 0 {
        None
    } else if m.last().0 == k {
        Some(m.last().1)
    } else {
        spec_cache_lookup(m.drop_last(), k)
    }
}

/// The contents of the asset store, path to bytes.
pub struct AssetCache {
    entries: Vec<(String, Vec<u8>)>,
}

impl AssetCache {
    /// What the cache holds.
    pub closed spec fn view(&self) -> Seq<(Seq<char>, Seq<u8>)> {
        cache_entries_view(self.entries@)
    }

    /// An empty cache.
    pub fn new() -> (r: AssetCache)
        ensures
            r.view() == Seq::<(Seq<char>, Seq<u8>)>::empty(),
    {
        let r = AssetCache { entries: Vec::new() };
        proof {
            assert(r.view() =~= Seq::<(Seq<char>, Seq<u8>)>::empty());
        }
        r
    }

    /// Serves a cached asset, or reports the miss that obliges a fetch
    /// from the origin.
    pub fn lookup(&self, path: &str) -> (r: Option<&Vec<u8>>)
        ensures
            match r {
                Some(data) => spec_cache_lookup(self.view(), path@) == Some(data@),
                None => spec_cache_lookup(self.view(), path@) is None,
            },
    {
        let ghost m = self.view();
        let n = self.entries.len();
        let mut i: usize = n;
        proof {
            assert(m.take(n as int) =~= m);
        }
        while i > 0
            invariant
                i <= n,
                n == self.entries@.len(),
                m == self.view(),
                m.len() == n,
                forall|j: int|
                    0 <= j < n ==> m[j] == (self.entries@[j].0@, self.entries@[j].1@),
                spec_cache_lookup(m, path@) == spec_cache_lookup(m.take(i as int), path@),
            decreases i,
        {
            i = i - 1;
            proof {
                assert(m.take(i + 1).last() == m[i as int]);
                assert(m.take(i + 1).drop_last() =~= m.take(i as int));
            }
            if str_eq(self.entries[i].0.as_str(), path) {
                return Some(&self.entries[i].1);
            }
        }
        assert(m.take(0) =~= Seq::<(Seq<char>, Seq<u8>)>::empty());
        None
    }

    /// Records the bytes fetched for a missed asset.  A concurrent
    /// duplicate store is harmless: the later writer wins, as on disk.
    pub fn store(&mut self, path: &str, data: Vec<u8>)
        ensures
            final(self).view() == old(self).view().push((path@, data@)),
    {
        let owned = String::from_str(path);
        self.entries.push((owned, data));
        proof {
            assert(self.view() =~~= old(self).view().push((path@, data@)));
        }
    }
}

/// Asset idempotence: once an asset is stored, looking its path up
/// yields exactly the stored bytes, so a second request for the same
/// asset is served from the cache and performs no origin fetch.
pub proof fn lemma_asset_fetch_once(m: Seq<(Seq<char>, Seq<u8>)>, path: Seq<char>, data: Seq<u8>)
    ensures
        spec_cache_lookup(m.push((path, data)), path) == Some(data),
{
    assert(m.push((path, data)).last() == (path, data));
}

} // verus!
