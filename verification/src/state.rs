use vstd::prelude::*;

use crate::types::{bytes_equal, Address, Match, MatchView};

verus! {

/// Whether some match in `ms` carries the id `id`.
pub open spec fn holds_id(ms: Seq<Match>, id: u64) -> bool {
    exists|i: int| #![trigger ms[i]] 0 <= i < ms.len() && ms[i].id == id
}

/// The position of a match with the id `id` in `ms`, where there is one.
pub open spec fn slot_of(ms: Seq<Match>, id: u64) -> int {
    choose|i: int| #![trigger ms[i]] 0 <= i < ms.len() && ms[i].id == id
}

/// The matches in `ms`, keyed by their ids.
pub open spec fn match_map(ms: Seq<Match>) -> Map<u64, MatchView> {
    Map::new(|id: u64| holds_id(ms, id), |id: u64| ms[slot_of(ms, id)]@)
}

/// No two matches in `ms` carry the same id.
pub open spec fn distinct_ids(ms: Seq<Match>) -> bool {
    forall|i: int, j: int|
        #![trigger ms[i], ms[j]]
        0 <= i < ms.len() && 0 <= j < ms.len() && i != j ==> ms[i].id != ms[j].id
}

/// The game ids in `g`, as a set of byte sequences.
pub open spec fn id_set(g: Seq<Vec<u8>>) -> Set<Seq<u8>> {
    Set::new(|x: Seq<u8>| exists|i: int| #![trigger g[i]] 0 <= i < g.len() && g[i]@ == x)
}

/// In a list of matches with distinct ids, the match at position `j` is the
/// one that the id map holds under its id.
pub proof fn lemma_slot(ms: Seq<Match>, j: int)
    requires
        distinct_ids(ms),
        0 <= j < ms.len(),
    ensures
        slot_of(ms, ms[j].id) == j,
        match_map(ms).contains_key(ms[j].id),
        match_map(ms)[ms[j].id] == ms[j]@,
{
    let id: u64 = ms[j].id;
    assert(holds_id(ms, id));
    let k: int = slot_of(ms, id);
    assert(0 <= k < ms.len() && ms[k].id == id);
    assert(k == j);
}

/// Replacing a match by one with the same id replaces it in the id map.
pub proof fn lemma_replace(ms: Seq<Match>, j: int, m: Match)
    requires
        distinct_ids(ms),
        0 <= j < ms.len(),
        m.id == ms[j].id,
    ensures
        distinct_ids(ms.update(j, m)),
        match_map(ms.update(j, m)) =~= match_map(ms).insert(m.id, m@),
{
    let ns: Seq<Match> = ms.update(j, m);
    assert forall|i: int, k: int|
        #![trigger ns[i], ns[k]]
        0 <= i < ns.len() && 0 <= k < ns.len() && i != k implies ns[i].id != ns[k].id by {
        assert(ms[i].id == ns[i].id);
        assert(ms[k].id == ns[k].id);
    }
    assert forall|id: u64| holds_id(ns, id) == holds_id(ms, id) by {
        if holds_id(ms, id) {
            let i: int = slot_of(ms, id);
            assert(ns[i].id == id);
        }
        if holds_id(ns, id) {
            let i: int = slot_of(ns, id);
            assert(ms[i].id == id);
        }
    }
    assert forall|id: u64| #[trigger] match_map(ns).contains_key(id) implies match_map(ns)[id] == match_map(
        ms,
    ).insert(m.id, m@)[id] by {
        let i: int = slot_of(ns, id);
        lemma_slot(ns, i);
        if id == m.id {
            assert(i == j);
        } else {
            lemma_slot(ms, i);
        }
    }
}

/// Appending a match with a fresh id adds it to the id map.
pub proof fn lemma_append(ms: Seq<Match>, m: Match)
    requires
        distinct_ids(ms),
        !holds_id(ms, m.id),
    ensures
        distinct_ids(ms.push(m)),
        match_map(ms.push(m)) =~= match_map(ms).insert(m.id, m@),
{
    let ns: Seq<Match> = ms.push(m);
    assert forall|i: int, k: int|
        #![trigger ns[i], ns[k]]
        0 <= i < ns.len() && 0 <= k < ns.len() && i != k implies ns[i].id != ns[k].id by {
        if i < ms.len() && k < ms.len() {
            assert(ms[i] == ns[i] && ms[k] == ns[k]);
        } else if i < ms.len() {
            assert(ms[i] == ns[i]);
        } else {
            assert(ms[k] == ns[k]);
        }
    }
    assert forall|id: u64| holds_id(ns, id) == (holds_id(ms, id) || id == m.id) by {
        if holds_id(ms, id) {
            let i: int = slot_of(ms, id);
            assert(ns[i] == ms[i]);
        }
        if id == m.id {
            assert(ns[ms.len() as int] == m);
        }
        if holds_id(ns, id) && id != m.id {
            let i: int = slot_of(ns, id);
            assert(ns[i] == ms[i]);
        }
    }
    assert forall|id: u64| #[trigger] match_map(ns).contains_key(id) implies match_map(ns)[id] == match_map(
        ms,
    ).insert(m.id, m@)[id] by {
        let i: int = slot_of(ns, id);
        lemma_slot(ns, i);
        if id != m.id {
            assert(ns[i] == ms[i]);
            lemma_slot(ms, i);
        }
    }
}

/// The position of the match with id `id` in `ms`, if there is one.
pub(crate) fn find_slot(ms: &Vec<Match>, id: u64) -> (r: Option<usize>)
    ensures
        match r {
            Some(j) => j < ms@.len() && ms@[j as int].id == id,
            None => !holds_id(ms@, id),
        },
{
    let n: usize = ms.len();
    let mut i: usize = 0;
    while i < n
        invariant
            n == ms@.len(),
            i <= n,
            forall|k: int| 0 <= k < i ==> #[trigger] ms@[k].id != id,
        decreases n - i,
    {
        if ms[i].id == id {
            return Some(i);
        }
        i = i + 1;
    }
    None
}

/// Whether `g` holds the byte string `x`.
pub(crate) fn contains_bytes(g: &Vec<Vec<u8>>, x: &Vec<u8>) -> (r: bool)
    ensures
        r == id_set(g@).contains(x@),
{
    let n: usize = g.len();
    let mut i: usize = 0;
    while i < n
        invariant
            n == g@.len(),
            i <= n,
            forall|k: int| 0 <= k < i ==> #[trigger] g@[k]@ != x@,
        decreases n - i,
    {
        if bytes_equal(&g[i], x) {
            return true;
        }
        i = i + 1;
    }
    assert(!id_set(g@).contains(x@));
    false
}

/// Adding a byte string to a list adds it to the set.
pub proof fn lemma_id_set_push(g: Seq<Vec<u8>>, x: Vec<u8>)
    ensures
        id_set(g.push(x)) =~= id_set(g).insert(x@),
{
    let ng: Seq<Vec<u8>> = g.push(x);
    assert forall|y: Seq<u8>| id_set(ng).contains(y) == id_set(g).insert(x@).contains(y) by {
        if id_set(g).contains(y) {
            let i: int = choose|i: int| #![trigger g[i]] 0 <= i < g.len() && g[i]@ == y;
            assert(ng[i] == g[i]);
        }
        if y == x@ {
            assert(ng[g.len() as int] == x);
        }
        if id_set(ng).contains(y) && y != x@ {
            let i: int = choose|i: int| #![trigger ng[i]] 0 <= i < ng.len() && ng[i]@ == y;
            assert(ng[i] == g[i]);
        }
    }
}

} // verus!
