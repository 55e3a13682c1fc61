//! Ranking items against a query: extracts the configured haystack column
//! of each item, matches it, and orders the survivors by composite rank key.

use vstd::prelude::*;

use crate::config::{SearchConfig, SearchScheme};
use crate::fuzzy;
use crate::fuzzy::{
    key_of, keyed_prefix, lemma_pair_total, match_positions, matches_q, pair_leq, ranked_pairs,
    LANE_MAX,
};
use crate::item::Item;

verus! {

/// The haystack ranked for an item: the `field`-th tab-separated column,
/// 1-indexed, falling back to the whole wire line when out of range.
pub open spec fn item_hay(item: Item, field: int) -> Seq<char> {
    if field == 1 {
        item.item_type@
    } else if field == 2 {
        item.name@
    } else if field == 3 {
        item.data@
    } else {
        crate::item::joined_line(item.item_type@, item.name@, item.data@)
    }
}

/// The haystacks of a whole candidate list.
pub open spec fn hays_of(items: Seq<Item>, field: int) -> Seq<Seq<char>> {
    Seq::new(items.len(), |i: int| item_hay(items[i], field))
}

/// The ranked result as positions into the input, best first.
pub open spec fn ranked_idxs(items: Seq<Item>, q: Seq<char>, cfg: SearchConfig) -> Seq<usize> {
    ranked_pairs(hays_of(items, cfg.field as int), q, cfg.mode, cfg.scheme).map_values(
        |p: (u128, usize)| p.1,
    )
}

/// The ranked result as items, best first.
pub open spec fn ranked_items(items: Seq<Item>, q: Seq<char>, cfg: SearchConfig) -> Seq<Item> {
    ranked_pairs(hays_of(items, cfg.field as int), q, cfg.mode, cfg.scheme).map_values(
        |p: (u128, usize)| items[p.1 as int],
    )
}

/// Ranking reads nothing of an item but its configured haystack column:
/// two candidate lists whose selected columns agree pairwise rank to the
/// same positions, whatever their other columns hold.
pub proof fn lemma_field_selection(
    items1: Seq<Item>,
    items2: Seq<Item>,
    q: Seq<char>,
    cfg: SearchConfig,
)
    requires
        items1.len() == items2.len(),
        forall|i: int|
            0 <= i < items1.len() ==> item_hay(items1[i], cfg.field as int) == item_hay(
                items2[i],
                cfg.field as int,
            ),
    ensures
        ranked_idxs(items1, q, cfg) == ranked_idxs(items2, q, cfg),
{
    assert(hays_of(items1, cfg.field as int) =~= hays_of(items2, cfg.field as int));
}

/// Every ranked candidate's position lies inside the input.
pub proof fn lemma_ranked_pairs_idx(
    hays: Seq<Seq<char>>,
    q: Seq<char>,
    mode: crate::config::SearchMode,
    scheme: SearchScheme,
)
    ensures
        forall|k: int|
            0 <= k < ranked_pairs(hays, q, mode, scheme).len() ==> (#[trigger] ranked_pairs(
                hays,
                q,
                mode,
                scheme,
            )[k]).1 < hays.len(),
{
    let n = hays.len() as int;
    let kp = keyed_prefix(hays, q, mode, scheme, n);
    let pairs = ranked_pairs(hays, q, mode, scheme);
    lemma_keyed_prefix_idx(hays, q, mode, scheme, n);
    lemma_pair_total();
    kp.lemma_sort_by_ensures(pair_leq());
    assert forall|k: int| 0 <= k < pairs.len() implies (#[trigger] pairs[k]).1 < hays.len() by {
        assert(0 <= k < pairs.len() && pairs[k] == pairs[k]);
        assert(pairs.contains(pairs[k]));
        assert(kp.contains(pairs[k]));
        let k2 = choose|k2: int| 0 <= k2 < kp.len() && kp[k2] == pairs[k];
        assert(kp[k2].1 < n);
    }
}

/// Keyed candidates carry exactly the matching positions: every keyed pair
/// points at a matching haystack, and every matching haystack below `n` is
/// keyed.
proof fn lemma_keyed_prefix_membership(
    hays: Seq<Seq<char>>,
    q: Seq<char>,
    mode: crate::config::SearchMode,
    scheme: SearchScheme,
    n: int,
)
    requires
        n <= usize::MAX,
    ensures
        forall|k: int|
            0 <= k < keyed_prefix(hays, q, mode, scheme, n).len() ==> matches_q(
                hays[(#[trigger] keyed_prefix(hays, q, mode, scheme, n)[k]).1 as int],
                q,
                mode,
            ),
        forall|idx: int|
            0 <= idx < n && matches_q(hays[idx], q, mode) ==> exists|k: int|
                0 <= k < keyed_prefix(hays, q, mode, scheme, n).len() && (#[trigger] keyed_prefix(
                    hays,
                    q,
                    mode,
                    scheme,
                    n,
                )[k]).1 == idx,
    decreases n,
{
    if n > 0 {
        lemma_keyed_prefix_membership(hays, q, mode, scheme, n - 1);
        let prev = keyed_prefix(hays, q, mode, scheme, n - 1);
        let cur = keyed_prefix(hays, q, mode, scheme, n);
        assert forall|k: int| 0 <= k < cur.len() implies matches_q(
            hays[(#[trigger] cur[k]).1 as int],
            q,
            mode,
        ) by {
            if k < prev.len() {
                assert(cur[k] == prev[k]);
            } else {
                assert((n - 1) as usize as int == n - 1);
                assert(cur[k].1 == (n - 1) as usize);
            }
        }
        assert forall|idx: int| 0 <= idx < n && matches_q(hays[idx], q, mode) implies exists|
            k: int,
        | 0 <= k < cur.len() && (#[trigger] cur[k]).1 == idx by {
            if idx < n - 1 {
                let k = choose|k: int| 0 <= k < prev.len() && (#[trigger] prev[k]).1 == idx;
                assert(cur[k] == prev[k]);
                assert(0 <= k < cur.len() && cur[k].1 == idx);
            } else {
                assert((n - 1) as usize as int == n - 1);
                assert(cur[cur.len() - 1].1 == idx);
            }
        }
    }
}

/// The ranked result holds exactly the matching candidates: a position
/// appears among the ranked positions if and only if its configured column
/// matches the query. Non-matching candidates are excluded; no matching
/// one is dropped.
pub proof fn lemma_rank_membership(items: Seq<Item>, q: Seq<char>, cfg: SearchConfig)
    requires
        items.len() <= usize::MAX,
    ensures
        forall|idx: int|
            0 <= idx < items.len() ==> (ranked_idxs(items, q, cfg).contains(idx as usize)
                <==> matches_q(item_hay(#[trigger] items[idx], cfg.field as int), q, cfg.mode)),
{
    let hays = hays_of(items, cfg.field as int);
    let n = hays.len() as int;
    let kp = keyed_prefix(hays, q, cfg.mode, cfg.scheme, n);
    let pairs = ranked_pairs(hays, q, cfg.mode, cfg.scheme);
    let idxs = ranked_idxs(items, q, cfg);
    lemma_keyed_prefix_membership(hays, q, cfg.mode, cfg.scheme, n);
    lemma_keyed_prefix_idx(hays, q, cfg.mode, cfg.scheme, n);
    lemma_pair_total();
    kp.lemma_sort_by_ensures(pair_leq());
    broadcast use vstd::seq_lib::group_to_multiset_ensures;

    assert forall|idx: int|
        0 <= idx < items.len() implies (idxs.contains(idx as usize) <==> matches_q(
        item_hay(#[trigger] items[idx], cfg.field as int),
        q,
        cfg.mode,
    )) by {
        assert(hays[idx] == item_hay(items[idx], cfg.field as int));
        if idxs.contains(idx as usize) {
            let j = choose|j: int| 0 <= j < idxs.len() && idxs[j] == idx as usize;
            assert(pairs[j].1 == idx as usize);
            assert(pairs.contains(pairs[j]));
            assert(kp.contains(pairs[j]));
            let k = choose|k: int| 0 <= k < kp.len() && kp[k] == pairs[j];
            assert(matches_q(hays[kp[k].1 as int], q, cfg.mode));
        }
        if matches_q(hays[idx], q, cfg.mode) {
            let k = choose|k: int| 0 <= k < kp.len() && (#[trigger] kp[k]).1 == idx;
            assert(kp.contains(kp[k]));
            assert(kp.to_multiset().contains(kp[k]));
            assert(pairs.to_multiset() =~= kp.to_multiset());
            assert(pairs.contains(kp[k]));
            let j = choose|j: int| 0 <= j < pairs.len() && pairs[j] == kp[k];
            assert(idxs[j] == idx as usize);
            assert(idxs.contains(idxs[j]));
        }
    }
}

/// Every ranked item is one of the input items.
pub proof fn lemma_ranked_items_subset(items: Seq<Item>, q: Seq<char>, cfg: SearchConfig)
    ensures
        forall|j: int|
            0 <= j < ranked_items(items, q, cfg).len() ==> items.contains(
                #[trigger] ranked_items(items, q, cfg)[j],
            ),
{
    let hays = hays_of(items, cfg.field as int);
    let pairs = ranked_pairs(hays, q, cfg.mode, cfg.scheme);
    let full = ranked_items(items, q, cfg);
    lemma_ranked_pairs_idx(hays, q, cfg.mode, cfg.scheme);
    assert forall|j: int| 0 <= j < full.len() implies items.contains(#[trigger] full[j]) by {
        assert(full[j] == items[pairs[j].1 as int]);
    }
}

/// Collects one string's characters.
pub fn str_to_chars(s: &str) -> (r: Vec<char>)
    ensures
        r@ == s@,
{
    let n = s.unicode_len();
    let mut v: Vec<char> = Vec::new();
    let mut i: usize = 0;
    while i < n
        invariant
            0 <= i <= n,
            n == s@.len(),
            v@ == s@.subrange(0, i as int),
        decreases n - i,
    {
        v.push(s.get_char(i));
        proof {
            assert(s@.subrange(0, i + 1) =~= s@.subrange(0, i as int).push(s@[i as int]));
        }
        i += 1;
    }
    proof {
        assert(s@.subrange(0, n as int) =~= s@);
    }
    v
}

/// The haystack of one item under the configured column selection.
fn extract_hay(item: &Item, field: usize) -> (r: Vec<char>)
    ensures
        r@ == item_hay(*item, field as int),
{
    if field == 1 {
        str_to_chars(item.item_type.as_str())
    } else if field == 2 {
        str_to_chars(item.name.as_str())
    } else if field == 3 {
        str_to_chars(item.data.as_str())
    } else {
        let raw = item.raw();
        str_to_chars(raw.as_str())
    }
}

/// Every keyed candidate's position lies inside the input.
proof fn lemma_keyed_prefix_idx(
    hays: Seq<Seq<char>>,
    q: Seq<char>,
    mode: crate::config::SearchMode,
    scheme: SearchScheme,
    n: int,
)
    ensures
        forall|k: int|
            0 <= k < keyed_prefix(hays, q, mode, scheme, n).len() ==> (#[trigger] keyed_prefix(
                hays,
                q,
                mode,
                scheme,
                n,
            )[k]).1 < n,
    decreases n,
{
    if n > 0 {
        lemma_keyed_prefix_idx(hays, q, mode, scheme, n - 1);
        assert forall|k: int|
            0 <= k < keyed_prefix(hays, q, mode, scheme, n).len() implies (#[trigger] keyed_prefix(
            hays,
            q,
            mode,
            scheme,
            n,
        )[k]).1 < n by {
            let prev = keyed_prefix(hays, q, mode, scheme, n - 1);
            if k < prev.len() {
                assert(keyed_prefix(hays, q, mode, scheme, n)[k] == prev[k]);
            }
        }
    }
}

/// Ranks the candidate list against the query: the empty query returns the
/// items unchanged in input order; otherwise the surviving candidates come
/// back ordered by the composite rank key.
pub fn filter_items(items: &Vec<Item>, query: &str, config: &SearchConfig) -> (r: Vec<Item>)
    ensures
        query@.len() == 0 ==> r@ == items@,
        query@.len() != 0 ==> r@ == ranked_items(items@, query@, *config),
{
    let n = items.len();
    if query.unicode_len() == 0 {
        let mut out: Vec<Item> = Vec::new();
        let mut i: usize = 0;
        while i < n
            invariant
                0 <= i <= n,
                n == items@.len(),
                out@ == items@.subrange(0, i as int),
            decreases n - i,
        {
            out.push(items[i].clone());
            proof {
                assert(items@.subrange(0, i + 1) =~= items@.subrange(0, i as int).push(
                    items@[i as int],
                ));
            }
            i += 1;
        }
        proof {
            assert(items@.subrange(0, n as int) =~= items@);
        }
        return out;
    }
    let q = str_to_chars(query);
    let ghost hays = hays_of(items@, config.field as int);
    let mut keyed: Vec<(u128, usize)> = Vec::new();
    let mut i: usize = 0;
    while i < n
        invariant
            0 <= i <= n,
            n == items@.len(),
            q@ == query@,
            q@.len() > 0,
            hays == hays_of(items@, config.field as int),
            keyed@ == keyed_prefix(hays, q@, config.mode, config.scheme, i as int),
        decreases n - i,
    {
        let hay = extract_hay(&items[i], config.field);
        proof {
            assert(hay@ == hays[i as int]);
        }
        match match_positions(&hay, &q, config.mode) {
            Some(p) => {
                let score = fuzzy::compute_score(p.0, p.1, q.len());
                let dist: u64;
                let len_c: u64;
                match config.scheme {
                    SearchScheme::Path => {
                        dist = fuzzy::path_dist_exec(&hay, p.0);
                        let hl = hay.len();
                        len_c = if hl as u64 > LANE_MAX {
                            LANE_MAX
                        } else {
                            hl as u64
                        };
                    },
                    SearchScheme::Plain => {
                        dist = 0;
                        len_c = 0;
                    },
                }
                let key = fuzzy::make_key(score, dist, len_c, i);
                keyed.push((key, i));
                proof {
                    let k_spec = key_of(hays[i as int], q@, config.mode, config.scheme, i as int);
                    assert(key as int == k_spec);
                    assert(key == k_spec as u128);
                }
            },
            None => {},
        }
        i += 1;
    }
    let sorted = fuzzy::sort_pairs(keyed);
    let ghost pairs = ranked_pairs(hays, q@, config.mode, config.scheme);
    proof {
        assert(sorted@ == pairs);
        lemma_ranked_pairs_idx(hays, q@, config.mode, config.scheme);
    }
    let m = sorted.len();
    let mut out: Vec<Item> = Vec::new();
    let mut j: usize = 0;
    while j < m
        invariant
            0 <= j <= m,
            m == pairs.len(),
            n == items@.len(),
            sorted@ == pairs,
            q@ == query@,
            hays == hays_of(items@, config.field as int),
            pairs == ranked_pairs(hays, q@, config.mode, config.scheme),
            forall|k: int| 0 <= k < pairs.len() ==> (#[trigger] pairs[k]).1 < n,
            out@ == ranked_items(items@, query@, *config).subrange(0, j as int),
        decreases m - j,
    {
        let idx = sorted[j].1;
        out.push(items[idx].clone());
        proof {
            let full = ranked_items(items@, query@, *config);
            assert(full[j as int] == items@[pairs[j as int].1 as int]);
            assert(full.subrange(0, j + 1) =~= full.subrange(0, j as int).push(full[j as int]));
        }
        j += 1;
    }
    proof {
        let full = ranked_items(items@, query@, *config);
        assert(full.subrange(0, m as int) =~= full);
    }
    out
}

} // verus!
