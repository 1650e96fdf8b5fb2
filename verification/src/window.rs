//! The trailing one-minute window: its boundaries, the key under which each of
//! its queries counts in each of five dimensions, and the counting itself.

use vstd::prelude::*;
use vstd::string::StringExecFns;
use std::collections::HashMap;
use crate::api::{Counters, QueryInfo};
use crate::text::same_text;

verus! {

/// The start and end of one whole minute, in seconds since the epoch.
#[derive(Clone, Copy, Debug, PartialEq, Eq, Structural)]
pub struct WindowBoundary {
    pub start: u64,
    pub end: u64,
}

impl WindowBoundary {
    /// The window ends on a whole minute and spans sixty seconds.
    pub open spec fn wf(&self) -> bool {
        &&& self.end % 60 == 0
        &&& self.start + 60 == self.end
    }

    /// The last whole minute that ended at or before `now`: it ends at `now`
    /// rounded down to a multiple of sixty and starts sixty seconds earlier.
    /// No whole minute has passed before `now` is sixty, so such times are
    /// left out.
    pub fn at(now: u64) -> (window: Self)
        requires
            now >= 60,
        ensures
            window.end == (now / 60) * 60,
            window.start == window.end - 60,
            window.wf(),
            window.end <= now < window.end + 60,
    {
        let end: u64 = (now / 60) * 60;
        WindowBoundary { start: end - 60, end }
    }

    /// As [`WindowBoundary::at`], for any time: `None` before the first whole
    /// minute has passed.
    pub fn try_at(now: u64) -> (window: Option<Self>)
        ensures
            now < 60 <==> window is None,
            window matches Some(w) ==> w.end == (now / 60) * 60 && w.start == w.end - 60,
    {
        if now >= 60 {
            Some(Self::at(now))
        } else {
            None
        }
    }
}

/// The five dimensions over which the queries of a window are counted.
#[derive(Clone, Copy, Debug, PartialEq, Eq, Structural)]
pub enum WindowKey {
    QueryType,
    Status,
    ReplyType,
    Client,
    Upstream,
}

/// Whether a query with this status never reaches an upstream resolver for a
/// reason that is kept apart: answered from the blocklist, from the cache, or
/// as a special domain.
pub open spec fn is_local_status(status: Seq<char>) -> bool {
    status == "GRAVITY"@ || status == "CACHE"@ || status == "SPECIAL_DOMAIN"@
}

/// The upstream to which a query is attributed: the upstream recorded with
/// it, if there is one; else `None-` followed by its status, if that is one
/// of the three local ones; else `None-OTHER`.
pub open spec fn resolved_upstream(query: QueryInfo) -> Seq<char> {
    match query.upstream {
        Some(upstream) => upstream@,
        None => if is_local_status(query.status@) {
            "None-"@ + query.status@
        } else {
            "None-OTHER"@
        },
    }
}

/// The attribution of a query, case by case. A query with an upstream
/// recorded is attributed to exactly that upstream, whatever its status. One
/// without is attributed to `None-GRAVITY`, `None-CACHE` or
/// `None-SPECIAL_DOMAIN` by its status, and to `None-OTHER` for every other
/// status.
pub proof fn lemma_attribution(query: QueryInfo)
    ensures
        query.upstream matches Some(u) ==> resolved_upstream(query) == u@,
        query.upstream is None && query.status@ == "GRAVITY"@ ==> resolved_upstream(query)
            == "None-GRAVITY"@,
        query.upstream is None && query.status@ == "CACHE"@ ==> resolved_upstream(query)
            == "None-CACHE"@,
        query.upstream is None && query.status@ == "SPECIAL_DOMAIN"@ ==> resolved_upstream(query)
            == "None-SPECIAL_DOMAIN"@,
        query.upstream is None && !is_local_status(query.status@) ==> resolved_upstream(query)
            == "None-OTHER"@,
{
    reveal_strlit("None-");
    reveal_strlit("GRAVITY");
    reveal_strlit("CACHE");
    reveal_strlit("SPECIAL_DOMAIN");
    reveal_strlit("None-GRAVITY");
    reveal_strlit("None-CACHE");
    reveal_strlit("None-SPECIAL_DOMAIN");
    assert("None-"@ + "GRAVITY"@ =~= "None-GRAVITY"@);
    assert("None-"@ + "CACHE"@ =~= "None-CACHE"@);
    assert("None-"@ + "SPECIAL_DOMAIN"@ =~= "None-SPECIAL_DOMAIN"@);
}

/// Computes the upstream to which a query is attributed.
pub fn resolve_upstream(query: &QueryInfo) -> (upstream: String)
    ensures
        upstream@ == resolved_upstream(*query),
        query.upstream matches Some(u) ==> upstream@ == u@,
        query.upstream is None && query.status@ == "GRAVITY"@ ==> upstream@ == "None-GRAVITY"@,
        query.upstream is None && query.status@ == "CACHE"@ ==> upstream@ == "None-CACHE"@,
        query.upstream is None && query.status@ == "SPECIAL_DOMAIN"@ ==> upstream@
            == "None-SPECIAL_DOMAIN"@,
        query.upstream is None && !is_local_status(query.status@) ==> upstream@ == "None-OTHER"@,
{
    proof {
        lemma_attribution(*query);
    }
    match &query.upstream {
        Some(upstream) => upstream.clone(),
        None => {
            let status = query.status.as_str();
            if same_text(status, "GRAVITY") || same_text(status, "CACHE") || same_text(
                status,
                "SPECIAL_DOMAIN",
            ) {
                String::from_str("None-").concat(status)
            } else {
                String::from_str("None-OTHER")
            }
        },
    }
}

/// The key under which a query counts in one dimension.
pub open spec fn key_of(query: QueryInfo, dimension: WindowKey) -> Seq<char> {
    match dimension {
        WindowKey::QueryType => query.query_type@,
        WindowKey::Status => query.status@,
        WindowKey::ReplyType => query.reply.reply_type@,
        WindowKey::Client => query.client.ip@,
        WindowKey::Upstream => resolved_upstream(query),
    }
}

/// Computes the key under which a query counts in one dimension.
pub fn key_string(query: &QueryInfo, dimension: WindowKey) -> (key: String)
    ensures
        key@ == key_of(*query, dimension),
{
    match dimension {
        WindowKey::QueryType => query.query_type.clone(),
        WindowKey::Status => query.status.clone(),
        WindowKey::ReplyType => query.reply.reply_type.clone(),
        WindowKey::Client => query.client.ip.clone(),
        WindowKey::Upstream => resolve_upstream(query),
    }
}

/// The keys of the queries of a window in one dimension, in the order of the
/// queries.
pub open spec fn keys_of(queries: Seq<QueryInfo>, dimension: WindowKey) -> Seq<Seq<char>> {
    queries.map_values(|q: QueryInfo| key_of(q, dimension))
}

/// How often `key` occurs among `keys`.
pub open spec fn occurrences(keys: Seq<Seq<char>>, key: Seq<char>) -> nat
    decreases keys.len(),
{
    if keys.len() == 0 {
        0
    } else {
        occurrences(keys.drop_last(), key) + if keys.last() == key {
            1nat
        } else {
            0nat
        }
    }
}

/// The distinct keys among `keys`, each once, in the order in which they are
/// first seen.
pub open spec fn first_seen(keys: Seq<Seq<char>>) -> Seq<Seq<char>>
    decreases keys.len(),
{
    if keys.len() == 0 {
        Seq::empty()
    } else {
        let before = first_seen(keys.drop_last());
        if before.contains(keys.last()) {
            before
        } else {
            before.push(keys.last())
        }
    }
}

/// The counters of a window in one dimension: each distinct key, in the order
/// first seen, with the number of its occurrences.
pub open spec fn tally(keys: Seq<Seq<char>>) -> Counters {
    first_seen(keys).map_values(|k: Seq<char>| (k, occurrences(keys, k) as u64))
}

/// The sum of the counts of a list of counters.
pub open spec fn total(counters: Counters) -> nat
    decreases counters.len(),
{
    if counters.len() == 0 {
        0
    } else {
        total(counters.drop_last()) + counters.last().1 as nat
    }
}

/// A key occurs at most as often as there are keys.
pub proof fn lemma_occurrences_bounded(keys: Seq<Seq<char>>, key: Seq<char>)
    ensures
        occurrences(keys, key) <= keys.len(),
        !keys.contains(key) ==> occurrences(keys, key) == 0,
        keys.contains(key) ==> occurrences(keys, key) > 0,
    decreases keys.len(),
{
    if keys.len() > 0 {
        lemma_occurrences_bounded(keys.drop_last(), key);
        if keys.contains(key) && keys.last() != key {
            let i = choose|i: int| 0 <= i < keys.len() && keys[i] == key;
            assert(keys.drop_last()[i] == key);
        }
        if keys.drop_last().contains(key) {
            let i = choose|i: int| 0 <= i < keys.drop_last().len() && keys.drop_last()[i] == key;
            assert(keys[i] == key);
        }
    }
}

/// The keys first seen are those that occur, each named once.
pub proof fn lemma_first_seen(keys: Seq<Seq<char>>)
    ensures
        first_seen(keys).no_duplicates(),
        forall|k: Seq<char>| first_seen(keys).contains(k) <==> keys.contains(k),
        first_seen(keys).len() <= keys.len(),
    decreases keys.len(),
{
    if keys.len() > 0 {
        let front = keys.drop_last();
        let before = first_seen(front);
        lemma_first_seen(front);
        assert forall|k: Seq<char>| first_seen(keys).contains(k) <==> keys.contains(k) by {
            if keys.contains(k) {
                let i = choose|i: int| 0 <= i < keys.len() && keys[i] == k;
                if i < keys.len() - 1 {
                    assert(front[i] == k);
                    assert(front.contains(k));
                    assert(before.contains(k));
                    let j = choose|j: int| 0 <= j < before.len() && before[j] == k;
                    assert(first_seen(keys)[j] == k);
                } else {
                    if before.contains(k) {
                    } else {
                        assert(first_seen(keys)[before.len() as int] == k);
                    }
                }
            }
            if first_seen(keys).contains(k) {
                let j = choose|j: int| 0 <= j < first_seen(keys).len() && first_seen(keys)[j] == k;
                if j < before.len() {
                    assert(before[j] == k);
                    assert(before.contains(k));
                    assert(front.contains(k));
                    let i = choose|i: int| 0 <= i < front.len() && front[i] == k;
                    assert(keys[i] == k);
                } else {
                    assert(keys[keys.len() - 1] == k);
                }
            }
        }
    }
}

/// What one more key does to the counters: the count of a key that was seen
/// before grows by one in its place, and a new key is added at the end with
/// the count one.
pub proof fn lemma_tally_push(keys: Seq<Seq<char>>, key: Seq<char>)
    requires
        keys.len() < u64::MAX,
    ensures
        forall|j: int|
            0 <= j < first_seen(keys).len() && first_seen(keys)[j] == key ==> tally(keys.push(key))
                == tally(keys).update(j, (key, (#[trigger] tally(keys)[j].1 + 1) as u64))
                && tally(keys)[j].1 < u64::MAX,
        !first_seen(keys).contains(key) ==> tally(keys.push(key)) == tally(keys).push((key, 1u64)),
{
    let more = keys.push(key);
    let seen = first_seen(keys);
    assert(more.drop_last() =~= keys);
    lemma_first_seen(keys);
    assert forall|k: Seq<char>| #[trigger] occurrences(more, k) == occurrences(keys, k) + if k == key {
        1nat
    } else {
        0nat
    } by {}
    assert forall|k: Seq<char>| #[trigger] occurrences(keys, k) <= keys.len() by {
        lemma_occurrences_bounded(keys, k);
    }
    if seen.contains(key) {
        assert(first_seen(more) == seen);
        assert forall|j: int| 0 <= j < seen.len() && seen[j] == key implies tally(more) == tally(
            keys,
        ).update(j, (key, (#[trigger] tally(keys)[j].1 + 1) as u64)) && tally(keys)[j].1
            < u64::MAX by {
            assert(tally(more) =~= tally(keys).update(j, (key, (tally(keys)[j].1 + 1) as u64)));
        }
    } else {
        assert(first_seen(more) == seen.push(key));
        lemma_occurrences_bounded(keys, key);
        assert(tally(more) =~= tally(keys).push((key, 1u64)));
    }
}

/// Replacing one counter changes the sum by the difference of the counts.
pub proof fn lemma_total_update(counters: Counters, j: int, counter: (Seq<char>, u64))
    requires
        0 <= j < counters.len(),
    ensures
        total(counters.update(j, counter)) == total(counters) - counters[j].1 + counter.1,
    decreases counters.len(),
{
    let changed = counters.update(j, counter);
    if j == counters.len() - 1 {
        assert(changed.drop_last() =~= counters.drop_last());
    } else {
        lemma_total_update(counters.drop_last(), j, counter);
        assert(changed.drop_last() =~= counters.drop_last().update(j, counter));
    }
}

/// The counts of a window add up to the number of its queries: each query is
/// counted once in each dimension.
pub proof fn lemma_tally_total(keys: Seq<Seq<char>>)
    requires
        keys.len() <= u64::MAX,
    ensures
        total(tally(keys)) == keys.len(),
    decreases keys.len(),
{
    if keys.len() == 0 {
        assert(tally(keys) =~= Seq::empty());
    } else {
        let front = keys.drop_last();
        let key = keys.last();
        lemma_tally_total(front);
        lemma_tally_push(front, key);
        assert(front.push(key) =~= keys);
        lemma_first_seen(front);
        if first_seen(front).contains(key) {
            let j = choose|j: int| 0 <= j < first_seen(front).len() && first_seen(front)[j] == key;
            let bumped = (key, (tally(front)[j].1 + 1) as u64);
            assert(tally(keys) == tally(front).update(j, bumped));
            lemma_total_update(tally(front), j, bumped);
        } else {
            assert(tally(keys) == tally(front).push((key, 1u64)));
            assert(tally(keys).drop_last() =~= tally(front));
        }
    }
}

/// Looks a key up among counters: a place at which it stands, if it stands
/// anywhere. The hash map is asked first and its answer is checked against
/// the counters, so that nothing rests on what it holds; the counters are
/// gone through only where it names no place at which the key stands.
fn find_key(counters: &Vec<(String, u64)>, places: &HashMap<String, usize>, key: &String) -> (place:
    Option<usize>)
    ensures
        match place {
            Some(j) => j < counters.len() && counters.deep_view()[j as int].0 == key@,
            None => forall|j: int| 0 <= j < counters.len() ==> (#[trigger] counters.deep_view()[j]).0 != key@,
        },
{
    match places.get(key) {
        Some(hint) => {
            let j: usize = *hint;
            if j < counters.len() && counters[j].0 == *key {
                assert(counters.deep_view()[j as int].0 == counters@[j as int].0@);
                return Some(j);
            }
        },
        None => {},
    }
    let mut j: usize = 0;
    while j < counters.len()
        invariant
            j <= counters.len(),
            forall|i: int| 0 <= i < j ==> (#[trigger] counters.deep_view()[i]).0 != key@,
        decreases counters.len() - j,
    {
        if counters[j].0 == *key {
            return Some(j);
        }
        j = j + 1;
    }
    None
}

/// Counts the queries of a window in one dimension. The counters are kept as
/// a list, of which everything is proved; a hash map from each key to its
/// place in the list spares going through the list for a key that was seen
/// before. The verifier has no model of hashing for keys that are strings, so
/// the map serves as a hint only.
pub fn count_keys(queries: &Vec<QueryInfo>, dimension: WindowKey) -> (counters: Vec<(String, u64)>)
    ensures
        counters.deep_view() == tally(keys_of(queries@, dimension)),
{
    let ghost keys = keys_of(queries@, dimension);
    let mut counters: Vec<(String, u64)> = Vec::new();
    let mut places: HashMap<String, usize> = HashMap::new();
    let mut i: usize = 0;
    assert(counters.deep_view() =~= tally(keys.take(0)));
    while i < queries.len()
        invariant
            i <= queries.len(),
            keys == keys_of(queries@, dimension),
            counters.deep_view() == tally(keys.take(i as int)),
        decreases queries.len() - i,
    {
        let key = key_string(&queries[i], dimension);
        let ghost seen = keys.take(i as int);
        proof {
            assert(seen.push(key@) =~= keys.take(i + 1));
            lemma_tally_push(seen, key@);
            lemma_first_seen(seen);
        }
        let ghost before = counters.deep_view();
        match find_key(&counters, &places, &key) {
            Some(j) => {
                let count: u64 = counters[j].1;
                proof {
                    assert(before.len() == counters@.len());
                    assert(tally(seen).len() == first_seen(seen).len());
                    assert(before[j as int] == (counters@[j as int].0@, count));
                    assert(tally(seen)[j as int].0 == first_seen(seen)[j as int]);
                    assert(first_seen(seen)[j as int] == key@);
                    assert(tally(seen)[j as int].1 + 1 == count + 1);
                }
                let ghost same = key@;
                counters.set(j, (key, count + 1));
                assert(counters.deep_view() =~= before.update(j as int, (same, (count + 1) as u64)));
            },
            None => {
                assert(!first_seen(seen).contains(key@)) by {
                    if first_seen(seen).contains(key@) {
                        let j = choose|j: int|
                            0 <= j < first_seen(seen).len() && first_seen(seen)[j] == key@;
                        assert(before.len() == counters@.len());
                        assert(tally(seen).len() == first_seen(seen).len());
                        assert(tally(seen)[j].0 == first_seen(seen)[j]);
                        assert(before[j].0 == key@);
                    }
                }
                let ghost same = key@;
                places.insert(key.clone(), counters.len());
                counters.push((key, 1));
                assert(counters.deep_view() =~= before.push((same, 1u64)));
            },
        }
        i = i + 1;
    }
    assert(keys.take(i as int) =~= keys);
    counters
}

} // verus!
