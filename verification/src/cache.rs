//! The response cache: stores parsed responses with a per-entry expiration,
//! merges newly received batches with the existing entries, prunes expired
//! entries, and rate-limits how often a caller may go back to the network.
use vstd::prelude::*;

use crate::options::{valid_options, validation_error, Options, OptionsView};
use crate::response::{Response, ResponseView};
use crate::target::TargetView;
use crate::text::{sat_add, saturating_add_u64};
use crate::Error;

verus! {

/// One cached advertisement and the absolute time, in seconds, at which it
/// lapses.
#[derive(Clone, Debug)]
pub struct CachedResponse {
    /// The advertisement.
    pub response: Response,
    /// When it lapses: the receipt time plus its `max_age`.
    pub expiration: u64,
}

/// The mathematical shape of a cached entry.
pub struct CachedView {
    pub response: ResponseView,
    pub expiration: u64,
}

impl View for CachedResponse {
    type V = CachedView;

    open spec fn view(&self) -> CachedView {
        CachedView { response: self.response@, expiration: self.expiration }
    }
}

impl DeepView for CachedResponse {
    type V = CachedView;

    open spec fn deep_view(&self) -> CachedView {
        self.view()
    }
}

/// The merge key of a response: the scope it answered and its unique
/// service name.
pub open spec fn resp_key(r: ResponseView) -> (TargetView, Seq<char>) {
    (r.search_target, r.service_name)
}

/// The merge key of a cached entry.
pub open spec fn entry_key(e: CachedView) -> (TargetView, Seq<char>) {
    resp_key(e.response)
}

/// The entry a response received at `now` becomes: its expiration is the
/// receipt time plus its lifetime, held at the largest representable time.
pub open spec fn entry_of(r: ResponseView, now: u64) -> CachedView {
    CachedView { response: r, expiration: sat_add(now, r.max_age) }
}

/// `s` without the entries of the given key.
pub open spec fn remove_key(s: Seq<CachedView>, k: (TargetView, Seq<char>)) -> Seq<CachedView>
    decreases s.len(),
{
    if s.len() == 0 {
        Seq::empty()
    } else {
        let rest = remove_key(s.drop_last(), k);
        if entry_key(s.last()) == k {
            rest
        } else {
            rest.push(s.last())
        }
    }
}

/// Replaces the entry with `e`'s key by `e`, or appends `e` when no entry
/// has its key: the one way an entry enters the cache.
pub open spec fn upsert(s: Seq<CachedView>, e: CachedView) -> Seq<CachedView> {
    remove_key(s, entry_key(e)).push(e)
}

/// `s` without the entries that have lapsed by `now`.
pub open spec fn prune(s: Seq<CachedView>, now: u64) -> Seq<CachedView>
    decreases s.len(),
{
    if s.len() == 0 {
        Seq::empty()
    } else {
        let rest = prune(s.drop_last(), now);
        if s.last().expiration >= now {
            rest.push(s.last())
        } else {
            rest
        }
    }
}

/// The entries after a batch received at `now` is folded in, one upsert per
/// response, in order.
pub open spec fn merge(s: Seq<CachedView>, rs: Seq<ResponseView>, now: u64) -> Seq<CachedView>
    decreases rs.len(),
{
    if rs.len() == 0 {
        s
    } else {
        upsert(merge(s, rs.drop_last(), now), entry_of(rs.last(), now))
    }
}

/// How many entries of `s` carry the key `k`.
pub open spec fn count_key(s: Seq<CachedView>, k: (TargetView, Seq<char>)) -> int
    decreases s.len(),
{
    if s.len() == 0 {
        0
    } else {
        count_key(s.drop_last(), k) + if entry_key(s.last()) == k {
            1int
        } else {
            0int
        }
    }
}

/// The entry of `s` with key `k`, if one is present.
pub open spec fn lookup_key(s: Seq<CachedView>, k: (TargetView, Seq<char>)) -> Option<CachedView>
    decreases s.len(),
{
    if s.len() == 0 {
        None
    } else if entry_key(s.last()) == k {
        Some(s.last())
    } else {
        lookup_key(s.drop_last(), k)
    }
}

/// No two entries share a key.
pub open spec fn unique_keys(s: Seq<CachedView>) -> bool {
    forall|i: int, j: int|
        0 <= i < j < s.len() ==> entry_key(#[trigger] s[i]) != entry_key(#[trigger] s[j])
}

/// Every entry is still alive at `now`.
pub open spec fn all_fresh(s: Seq<CachedView>, now: u64) -> bool {
    forall|i: int| 0 <= i < s.len() ==> (#[trigger] s[i]).expiration >= now
}

/// The non-expired advertisements of `s` at `now`, in order.
pub open spec fn spec_responses(s: Seq<CachedView>, now: u64) -> Seq<ResponseView> {
    prune(s, now).map_values(|e: CachedView| e.response)
}

/// A push on the right splits counting into the old part and the new entry.
proof fn lemma_count_push(s: Seq<CachedView>, e: CachedView, k: (TargetView, Seq<char>))
    ensures
        count_key(s.push(e), k) == count_key(s, k) + if entry_key(e) == k {
            1int
        } else {
            0int
        },
{
    assert(s.push(e).drop_last() =~= s);
    assert(s.push(e).last() == e);
}

/// Removing a key removes every entry with it and nothing else.
pub proof fn lemma_remove_key(s: Seq<CachedView>, k: (TargetView, Seq<char>))
    ensures
        count_key(remove_key(s, k), k) == 0,
        forall|k2: (TargetView, Seq<char>)|
            k2 != k ==> #[trigger] count_key(remove_key(s, k), k2) == count_key(s, k2),
    decreases s.len(),
{
    if s.len() > 0 {
        let d = s.drop_last();
        lemma_remove_key(d, k);
        let rest = remove_key(d, k);
        assert forall|k2: (TargetView, Seq<char>)| k2 != k implies #[trigger] count_key(
            remove_key(s, k),
            k2,
        ) == count_key(s, k2) by {
            if entry_key(s.last()) == k {
                assert(remove_key(s, k) == rest);
                assert(count_key(s, k2) == count_key(d, k2));
            } else {
                assert(remove_key(s, k) == rest.push(s.last()));
                lemma_count_push(rest, s.last(), k2);
                assert(count_key(s, k2) == count_key(d, k2) + if entry_key(s.last()) == k2 {
                    1int
                } else {
                    0int
                });
            }
        }
        if entry_key(s.last()) != k {
            lemma_count_push(rest, s.last(), k);
        }
    }
}

/// Unique keys mean that no key counts twice.
pub proof fn lemma_unique_implies_counts(s: Seq<CachedView>)
    requires
        unique_keys(s),
    ensures
        forall|k: (TargetView, Seq<char>)| #[trigger] count_key(s, k) <= 1,
    decreases s.len(),
{
    if s.len() > 0 {
        let d = s.drop_last();
        assert forall|i: int, j: int| 0 <= i < j < d.len() implies entry_key(#[trigger] d[i])
            != entry_key(#[trigger] d[j]) by {
            assert(d[i] == s[i]);
            assert(d[j] == s[j]);
        }
        lemma_unique_implies_counts(d);
        assert forall|k: (TargetView, Seq<char>)| #[trigger] count_key(s, k) <= 1 by {
            assert(count_key(d, k) <= 1);
            if entry_key(s.last()) == k {
                assert forall|i: int| 0 <= i < d.len() implies entry_key(#[trigger] d[i])
                    != k by {
                    assert(d[i] == s[i]);
                    assert(entry_key(s[i]) != entry_key(s[s.len() - 1]));
                }
                lemma_count_zero(d, k);
            }
        }
    }
}

/// When no key counts twice, the keys are unique.
pub proof fn lemma_counts_imply_unique(s: Seq<CachedView>)
    requires
        forall|k: (TargetView, Seq<char>)| #[trigger] count_key(s, k) <= 1,
    ensures
        unique_keys(s),
{
    assert forall|i: int, j: int| 0 <= i < j < s.len() implies entry_key(#[trigger] s[i])
        != entry_key(#[trigger] s[j]) by {
        if entry_key(s[i]) == entry_key(s[j]) {
            let k = entry_key(s[i]);
            lemma_count_two(s, k, i, j);
            assert(count_key(s, k) <= 1);
        }
    }
}

/// Two indices with one key make the count at least two.
proof fn lemma_count_two(s: Seq<CachedView>, k: (TargetView, Seq<char>), i: int, j: int)
    requires
        0 <= i < j < s.len(),
        entry_key(s[i]) == k,
        entry_key(s[j]) == k,
    ensures
        count_key(s, k) >= 2,
    decreases s.len(),
{
    let d = s.drop_last();
    lemma_count_nonneg(d, k);
    if j == s.len() - 1 {
        assert(d[i] == s[i]);
        lemma_count_at_least_one(d, k, i);
    } else {
        assert(d[i] == s[i]);
        assert(d[j] == s[j]);
        lemma_count_two(d, k, i, j);
    }
}

/// A key present at an index counts at least once.
proof fn lemma_count_at_least_one(s: Seq<CachedView>, k: (TargetView, Seq<char>), i: int)
    requires
        0 <= i < s.len(),
        entry_key(s[i]) == k,
    ensures
        count_key(s, k) >= 1,
    decreases s.len(),
{
    lemma_count_nonneg(s.drop_last(), k);
    if i < s.len() - 1 {
        assert(s.drop_last()[i] == s[i]);
        lemma_count_at_least_one(s.drop_last(), k, i);
    }
}

/// Counts are never negative.
proof fn lemma_count_nonneg(s: Seq<CachedView>, k: (TargetView, Seq<char>))
    ensures
        count_key(s, k) >= 0,
    decreases s.len(),
{
    if s.len() > 0 {
        lemma_count_nonneg(s.drop_last(), k);
    }
}

/// A key absent from every index counts zero.
proof fn lemma_count_zero(s: Seq<CachedView>, k: (TargetView, Seq<char>))
    requires
        forall|i: int| 0 <= i < s.len() ==> entry_key(#[trigger] s[i]) != k,
    ensures
        count_key(s, k) == 0,
    decreases s.len(),
{
    if s.len() > 0 {
        assert forall|i: int| 0 <= i < s.drop_last().len() implies entry_key(
            #[trigger] s.drop_last()[i],
        ) != k by {
            assert(s.drop_last()[i] == s[i]);
        }
        lemma_count_zero(s.drop_last(), k);
    }
}

/// Law (merge): after one response is folded into a unique-keyed set,
/// exactly one entry carries its key, and that entry holds the new response
/// with the refreshed expiration.
pub proof fn lemma_upsert_refreshes(s: Seq<CachedView>, r: ResponseView, now: u64)
    requires
        unique_keys(s),
    ensures
        unique_keys(upsert(s, entry_of(r, now))),
        count_key(upsert(s, entry_of(r, now)), resp_key(r)) == 1,
        lookup_key(upsert(s, entry_of(r, now)), resp_key(r)) == Some(entry_of(r, now)),
{
    let e = entry_of(r, now);
    let cleaned = remove_key(s, entry_key(e));
    lemma_remove_key(s, entry_key(e));
    lemma_unique_implies_counts(s);
    let m = cleaned.push(e);
    assert(m.drop_last() =~= cleaned);
    assert(m.last() == e);
    lemma_count_push(cleaned, e, entry_key(e));
    assert(count_key(m, entry_key(e)) == 1);
    assert forall|k: (TargetView, Seq<char>)| #[trigger] count_key(m, k) <= 1 by {
        lemma_count_push(cleaned, e, k);
        lemma_count_nonneg(cleaned, k);
        if k != entry_key(e) {
            assert(count_key(cleaned, k) == count_key(s, k));
        }
    }
    lemma_counts_imply_unique(m);
    assert(upsert(s, e) == m);
}

/// Law (refresh replaces, never duplicates): a refresh at `now` that
/// brings one response leaves exactly one entry with that response's key,
/// holding the new response with the refreshed expiration, whatever entry
/// the pruned cache had for it before.
pub proof fn lemma_refresh_replaces_entry(s: Seq<CachedView>, r: ResponseView, now: u64)
    requires
        unique_keys(s),
    ensures
        ({
            let merged = merge(prune(s, now), seq![r], now);
            &&& unique_keys(merged)
            &&& count_key(merged, resp_key(r)) == 1
            &&& lookup_key(merged, resp_key(r)) == Some(entry_of(r, now))
        }),
{
    lemma_prune(s, now);
    let batch = seq![r];
    assert(batch.drop_last() =~= Seq::<ResponseView>::empty());
    assert(merge(prune(s, now), batch.drop_last(), now) == prune(s, now));
    assert(batch.last() == r);
    lemma_upsert_refreshes(prune(s, now), r, now);
}

/// Law (merge, batch): folding a batch in keeps keys unique.
pub proof fn lemma_merge_unique(s: Seq<CachedView>, rs: Seq<ResponseView>, now: u64)
    requires
        unique_keys(s),
    ensures
        unique_keys(merge(s, rs, now)),
    decreases rs.len(),
{
    if rs.len() > 0 {
        lemma_merge_unique(s, rs.drop_last(), now);
        lemma_upsert_refreshes(merge(s, rs.drop_last(), now), rs.last(), now);
    }
}

/// Law (pruning): what pruning keeps is alive, no count grows, and keys
/// stay unique.
pub proof fn lemma_prune(s: Seq<CachedView>, now: u64)
    ensures
        all_fresh(prune(s, now), now),
        forall|k2: (TargetView, Seq<char>)|
            #[trigger] count_key(prune(s, now), k2) <= count_key(s, k2),
        unique_keys(s) ==> unique_keys(prune(s, now)),
    decreases s.len(),
{
    if s.len() > 0 {
        let d = s.drop_last();
        lemma_prune(d, now);
        let rest = prune(d, now);
        let pr = prune(s, now);
        assert forall|k: (TargetView, Seq<char>)| #[trigger] count_key(pr, k) <= count_key(
            s,
            k,
        ) by {
            if s.last().expiration >= now {
                lemma_count_push(rest, s.last(), k);
            }
            assert(count_key(s, k) == count_key(d, k) + if entry_key(s.last()) == k {
                1int
            } else {
                0int
            });
        }
        if s.last().expiration >= now {
            assert forall|i: int| 0 <= i < pr.len() implies (#[trigger] pr[i]).expiration
                >= now by {
                if i < pr.len() - 1 {
                    assert(pr[i] == rest[i]);
                } else {
                    assert(pr[i] == s.last());
                }
            }
        }
        if unique_keys(s) {
            lemma_unique_implies_counts(s);
            assert forall|k: (TargetView, Seq<char>)| #[trigger] count_key(pr, k) <= 1 by {
                lemma_count_nonneg(pr, k);
                assert(count_key(pr, k) <= count_key(s, k));
                assert(count_key(s, k) <= 1);
            }
            lemma_counts_imply_unique(pr);
        }
    }
}

/// Law (merge keeps everything fresh): when the starting entries are alive
/// at `now`, so is everything after a batch received at `now` is folded in.
pub proof fn lemma_merge_fresh(s: Seq<CachedView>, rs: Seq<ResponseView>, now: u64)
    requires
        all_fresh(s, now),
    ensures
        all_fresh(merge(s, rs, now), now),
    decreases rs.len(),
{
    if rs.len() > 0 {
        lemma_merge_fresh(s, rs.drop_last(), now);
        let before = merge(s, rs.drop_last(), now);
        let e = entry_of(rs.last(), now);
        lemma_remove_key_fresh(before, entry_key(e), now);
        assert(e.expiration >= now);
        let m = upsert(before, e);
        assert forall|i: int| 0 <= i < m.len() implies (#[trigger] m[i]).expiration >= now by {
            if i < m.len() - 1 {
                assert(m[i] == remove_key(before, entry_key(e))[i]);
            } else {
                assert(m[i] == e);
            }
        }
    }
}

/// What remains after removing a key was already alive.
proof fn lemma_remove_key_fresh(s: Seq<CachedView>, k: (TargetView, Seq<char>), now: u64)
    requires
        all_fresh(s, now),
    ensures
        all_fresh(remove_key(s, k), now),
    decreases s.len(),
{
    if s.len() > 0 {
        let d = s.drop_last();
        assert forall|i: int| 0 <= i < d.len() implies (#[trigger] d[i]).expiration >= now by {
            assert(d[i] == s[i]);
        }
        lemma_remove_key_fresh(d, k, now);
        let rest = remove_key(d, k);
        if entry_key(s.last()) != k {
            assert forall|i: int| 0 <= i < remove_key(s, k).len() implies (#[trigger] remove_key(
                s,
                k,
            )[i]).expiration >= now by {
                if i < remove_key(s, k).len() - 1 {
                    assert(remove_key(s, k)[i] == rest[i]);
                } else {
                    assert(remove_key(s, k)[i] == s.last());
                }
            }
        }
    }
}

/// Every element of `prune(s, now)` is an entry of `s` that is alive at
/// `now`.
proof fn lemma_prune_membership(s: Seq<CachedView>, now: u64, j: int)
    requires
        0 <= j < prune(s, now).len(),
    ensures
        exists|i: int|
            0 <= i < s.len() && #[trigger] s[i] == prune(s, now)[j] && s[i].expiration >= now,
    decreases s.len(),
{
    let d = s.drop_last();
    let rest = prune(d, now);
    if s.last().expiration >= now {
        assert(prune(s, now) == rest.push(s.last()));
        if j < rest.len() {
            lemma_prune_membership(d, now, j);
            let i = choose|i: int|
                0 <= i < d.len() && #[trigger] d[i] == rest[j] && d[i].expiration >= now;
            assert(s[i] == d[i]);
            assert(prune(s, now)[j] == rest[j]);
        } else {
            assert(prune(s, now)[j] == s.last());
            assert(s[s.len() - 1] == s.last());
        }
    } else {
        assert(prune(s, now) == rest);
        lemma_prune_membership(d, now, j);
        let i = choose|i: int|
            0 <= i < d.len() && #[trigger] d[i] == rest[j] && d[i].expiration >= now;
        assert(s[i] == d[i]);
    }
}

/// Law (expired entries are invisible): every advertisement a read at `now`
/// yields comes from a stored entry whose expiration has not passed; an
/// entry that has lapsed contributes nothing.
pub proof fn lemma_responses_only_fresh(s: Seq<CachedView>, now: u64)
    ensures
        forall|j: int|
            0 <= j < spec_responses(s, now).len() ==> exists|i: int|
                0 <= i < s.len() && (#[trigger] s[i]).expiration >= now && s[i].response == (
                #[trigger] spec_responses(s, now)[j]),
{
    assert forall|j: int| 0 <= j < spec_responses(s, now).len() implies exists|i: int|
        0 <= i < s.len() && (#[trigger] s[i]).expiration >= now && s[i].response == (
    #[trigger] spec_responses(s, now)[j]) by {
        lemma_prune_membership(s, now, j);
        let i = choose|i: int|
            0 <= i < s.len() && #[trigger] s[i] == prune(s, now)[j] && s[i].expiration >= now;
        assert(spec_responses(s, now)[j] == prune(s, now)[j].response);
        assert(s[i].expiration >= now && s[i].response == spec_responses(s, now)[j]);
    }
}

/// The cache of a search: the options it was made with, the soonest a new
/// round trip is allowed, when it last merged, and the live entries.
#[derive(Clone, Debug)]
pub struct ResponseCache {
    options: Options,
    minimum_refresh: u16,
    last_updated: u64,
    responses: Vec<CachedResponse>,
}

/// The mathematical shape of the cache.
pub struct CacheView {
    pub options: OptionsView,
    pub minimum_refresh: u16,
    pub last_updated: u64,
    pub responses: Seq<CachedView>,
}

impl View for ResponseCache {
    type V = CacheView;

    closed spec fn view(&self) -> CacheView {
        CacheView {
            options: self.options@,
            minimum_refresh: self.minimum_refresh,
            last_updated: self.last_updated,
            responses: self.responses.deep_view(),
        }
    }
}

/// The cache's invariant: no two entries share a merge key.
pub open spec fn cache_wf(c: CacheView) -> bool {
    unique_keys(c.responses)
}

/// Law (rate limit): once a cache merged at its `last_updated` time, no
/// time within the minimum-refresh window after it asks for a new network
/// round trip.
pub open spec fn spec_needs_refresh(c: CacheView, now: u64) -> bool {
    now as int >= c.last_updated + c.minimum_refresh
}

pub proof fn lemma_refresh_rate_limited(c: CacheView, t: u64)
    requires
        (t as int) < c.last_updated + c.minimum_refresh,
    ensures
        !spec_needs_refresh(c, t),
{
}

/// Builds the cache of an initial search received at `now`: validates the
/// options, folds the batch into an empty entry set, and records `now` as
/// the update time. Fails exactly on invalid options, with the validation
/// error.
pub fn search(
    options: Options,
    minimum_refresh: u16,
    initial: Vec<Response>,
    now: u64,
) -> (r: Result<ResponseCache, Error>)
    ensures
        match r {
            Ok(c) => {
                &&& valid_options(options@)
                &&& c@.options == options@
                &&& c@.minimum_refresh == minimum_refresh
                &&& c@.last_updated == now
                &&& c@.responses == merge(Seq::empty(), initial.deep_view(), now)
                &&& cache_wf(c@)
                &&& all_fresh(c@.responses, now)
            },
            Err(e) => validation_error(options@, e),
        },
{
    if let Err(e) = options.validate() {
        return Err(e);
    }
    let no_entries: Vec<CachedResponse> = Vec::new();
    proof {
        assert(no_entries.deep_view() =~= Seq::<CachedView>::empty());
    }
    let entries = merge_exec(no_entries, &initial, now);
    proof {
        lemma_merge_unique(Seq::empty(), initial.deep_view(), now);
        lemma_merge_fresh(Seq::empty(), initial.deep_view(), now);
    }
    Ok(ResponseCache { options, minimum_refresh, last_updated: now, responses: entries })
}

/// Removes every entry with the given key.
fn remove_key_exec(entries: &Vec<CachedResponse>, key_of: &Response) -> (r: Vec<CachedResponse>)
    ensures
        r.deep_view() == remove_key(entries.deep_view(), resp_key(key_of@)),
{
    let ghost dv = entries.deep_view();
    let mut out: Vec<CachedResponse> = Vec::new();
    let mut i: usize = 0;
    while i < entries.len()
        invariant
            i <= entries.len(),
            dv == entries.deep_view(),
            entries.len() == dv.len(),
            out.deep_view() == remove_key(dv.take(i as int), resp_key(key_of@)),
        decreases entries.len() - i,
    {
        proof {
            assert(dv.take(i + 1).drop_last() =~= dv.take(i as int));
            assert(dv.take(i + 1).last() == dv[i as int]);
        }
        let same = entries[i].response.search_target.same_target(&key_of.search_target)
            && entries[i].response.service_name == key_of.service_name;
        if !same {
            out.push(
                CachedResponse {
                    response: entries[i].response.duplicate(),
                    expiration: entries[i].expiration,
                },
            );
            proof {
                assert(out.deep_view() =~= remove_key(dv.take(i + 1), resp_key(key_of@)));
            }
        }
        i = i + 1;
    }
    proof {
        assert(dv.take(entries.len() as int) =~= dv);
    }
    out
}

/// Folds a batch of responses received at `now` into the entries.
fn merge_exec(entries: Vec<CachedResponse>, batch: &Vec<Response>, now: u64) -> (r: Vec<
    CachedResponse,
>)
    ensures
        r.deep_view() == merge(entries.deep_view(), batch.deep_view(), now),
{
    let ghost dv0 = entries.deep_view();
    let ghost bdv = batch.deep_view();
    let mut cur = entries;
    let mut i: usize = 0;
    while i < batch.len()
        invariant
            i <= batch.len(),
            bdv == batch.deep_view(),
            batch.len() == bdv.len(),
            cur.deep_view() == merge(dv0, bdv.take(i as int), now),
        decreases batch.len() - i,
    {
        proof {
            assert(bdv.take(i + 1).drop_last() =~= bdv.take(i as int));
            assert(bdv.take(i + 1).last() == bdv[i as int]);
        }
        let mut cleaned = remove_key_exec(&cur, &batch[i]);
        let expiration = saturating_add_u64(now, batch[i].max_age);
        cleaned.push(CachedResponse { response: batch[i].duplicate(), expiration });
        cur = cleaned;
        proof {
            assert(cur.deep_view() =~= merge(dv0, bdv.take(i + 1), now));
        }
        i = i + 1;
    }
    proof {
        assert(bdv.take(batch.len() as int) =~= bdv);
    }
    cur
}

impl ResponseCache {
    /// Whether a call at `now` is allowed a new network round trip: at
    /// least `minimum_refresh` seconds have passed since the last merge.
    pub fn needs_refresh(&self, now: u64) -> (r: bool)
        ensures
            r == spec_needs_refresh(self@, now),
    {
        if now >= self.last_updated {
            now - self.last_updated >= self.minimum_refresh as u64
        } else {
            false
        }
    }

    /// Folds a freshly received batch in: prunes what has lapsed by `now`,
    /// replaces or inserts each response by its key, and records `now`.
    /// Called again within the minimum-refresh window, it changes nothing —
    /// the current contents stand and no new traffic is owed.
    pub fn refresh(&mut self, new_responses: Vec<Response>, now: u64)
        requires
            cache_wf(old(self)@),
        ensures
            final(self)@.options == old(self)@.options,
            final(self)@.minimum_refresh == old(self)@.minimum_refresh,
            cache_wf(final(self)@),
            spec_needs_refresh(old(self)@, now) ==> {
                &&& final(self)@.last_updated == now
                &&& final(self)@.responses == merge(
                    prune(old(self)@.responses, now),
                    new_responses.deep_view(),
                    now,
                )
                &&& all_fresh(final(self)@.responses, now)
            },
            !spec_needs_refresh(old(self)@, now) ==> *final(self) == *old(self),
    {
        if !self.needs_refresh(now) {
            return;
        }
        let ghost before = self@.responses;
        let pruned = self.prune_exec(now);
        let merged = merge_exec(pruned, &new_responses, now);
        proof {
            lemma_prune(before, now);
            lemma_merge_unique(prune(before, now), new_responses.deep_view(), now);
            lemma_merge_fresh(prune(before, now), new_responses.deep_view(), now);
        }
        self.responses = merged;
        self.last_updated = now;
    }

    /// The entries alive at `now`, taken out of the cache.
    fn prune_exec(&self, now: u64) -> (r: Vec<CachedResponse>)
        ensures
            r.deep_view() == prune(self@.responses, now),
    {
        let ghost dv = self.responses.deep_view();
        let mut out: Vec<CachedResponse> = Vec::new();
        let mut i: usize = 0;
        while i < self.responses.len()
            invariant
                i <= self.responses.len(),
                dv == self.responses.deep_view(),
                self.responses.len() == dv.len(),
                out.deep_view() == prune(dv.take(i as int), now),
            decreases self.responses.len() - i,
        {
            proof {
                assert(dv.take(i + 1).drop_last() =~= dv.take(i as int));
                assert(dv.take(i + 1).last() == dv[i as int]);
            }
            if self.responses[i].expiration >= now {
                out.push(
                    CachedResponse {
                        response: self.responses[i].response.duplicate(),
                        expiration: self.responses[i].expiration,
                    },
                );
                proof {
                    assert(out.deep_view() =~= prune(dv.take(i + 1), now));
                }
            }
            i = i + 1;
        }
        proof {
            assert(dv.take(self.responses.len() as int) =~= dv);
        }
        out
    }

    /// When the cache last merged a batch.
    pub fn last_updated(self) -> (r: u64)
        ensures
            r == self@.last_updated,
    {
        self.last_updated
    }

    /// The advertisements alive at `now`, in order. Entries that have
    /// lapsed are absent; the stored state is untouched.
    pub fn responses(&self, now: u64) -> (r: Vec<Response>)
        ensures
            r.deep_view() == spec_responses(self@.responses, now),
    {
        let ghost dv = self.responses.deep_view();
        let kept = self.prune_exec(now);
        let mut out: Vec<Response> = Vec::new();
        let mut i: usize = 0;
        while i < kept.len()
            invariant
                i <= kept.len(),
                out@.len() == i,
                kept.deep_view() == prune(dv, now),
                dv == self.responses.deep_view(),
                kept.len() == prune(dv, now).len(),
                out.deep_view() == prune(dv, now).take(i as int).map_values(
                    |e: CachedView| e.response,
                ),
            decreases kept.len() - i,
        {
            let ghost old_out = out.deep_view();
            out.push(kept[i].response.duplicate());
            proof {
                let pr = prune(dv, now);
                let t = pr.take(i + 1).map_values(|e: CachedView| e.response);
                assert(kept@[i as int].deep_view() == kept.deep_view()[i as int]);
                assert(out.deep_view().len() == t.len());
                assert forall|j: int| 0 <= j < t.len() implies out.deep_view()[j] == t[j] by {
                    assert(t[j] == pr.take(i + 1)[j].response);
                    if j < i {
                        assert(out.deep_view()[j] == old_out[j]);
                        assert(old_out[j] == pr.take(i as int)[j].response);
                    } else {
                        assert(out.deep_view()[j] == out@[j].deep_view());
                        assert(pr.take(i + 1)[j] == pr[i as int]);
                    }
                }
                assert(out.deep_view() =~= t);
            }
            i = i + 1;
        }
        proof {
            assert(prune(dv, now).take(kept.len() as int) =~= prune(dv, now));
        }
        out
    }

    /// The options the cache was made with, for re-issuing the same search.
    pub fn options(&self) -> (r: &Options)
        ensures
            r@ == self@.options,
    {
        &self.options
    }
}

} // verus!
