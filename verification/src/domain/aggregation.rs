//! Deduplication and ranking of scrobbles.
//!
//! Scrobbles are grouped by exact track identity, the occurrences of each
//! group are counted, and the groups are ordered by play count, highest
//! first. No scrobble is lost or double-counted: the play counts of the
//! groups always sum to the number of input scrobbles.

use vstd::prelude::*;

use super::track::{id_key, scrobble_key, Scrobble, Track, TrackId};

verus! {

/// The identity keys of a scrobble sequence, in order.
pub open spec fn keys_of(scrobbles: Seq<Scrobble>) -> Seq<(Seq<char>, Seq<char>)> {
    scrobbles.map_values(|s: Scrobble| scrobble_key(s))
}

/// How many times `k` occurs in `keys`.
pub open spec fn count_key(keys: Seq<(Seq<char>, Seq<char>)>, k: (Seq<char>, Seq<char>)) -> nat
    decreases keys.len(),
{
    if keys.len() == 0 {
        0
    } else {
        count_key(keys.drop_last(), k) + (if keys.last() == k {
            1nat
        } else {
            0nat
        })
    }
}

/// How many distinct keys occur in `keys`.
pub open spec fn num_distinct_keys(keys: Seq<(Seq<char>, Seq<char>)>) -> nat
    decreases keys.len(),
{
    if keys.len() == 0 {
        0
    } else {
        num_distinct_keys(keys.drop_last()) + (if count_key(keys.drop_last(), keys.last()) > 0 {
            0nat
        } else {
            1nat
        })
    }
}

/// The sum of the play counts of a group sequence.
pub open spec fn sum_counts(groups: Seq<Track>) -> nat
    decreases groups.len(),
{
    if groups.len() == 0 {
        0
    } else {
        sum_counts(groups.drop_last()) + groups.last().play_count as nat
    }
}

/// No two groups share an identity key.
pub open spec fn distinct_group_keys(groups: Seq<Track>) -> bool {
    forall|i: int, j: int|
        0 <= i < j < groups.len() ==> id_key(groups[i].id) != id_key(groups[j].id)
}

/// Every group's play count is exactly the number of occurrences of its key.
pub open spec fn counts_match(groups: Seq<Track>, keys: Seq<(Seq<char>, Seq<char>)>) -> bool {
    forall|i: int|
        0 <= i < groups.len() ==> #[trigger] groups[i].play_count == count_key(
            keys,
            id_key(groups[i].id),
        )
}

/// Every key that occurs has a group.
pub open spec fn groups_cover(groups: Seq<Track>, keys: Seq<(Seq<char>, Seq<char>)>) -> bool {
    forall|j: int|
        #![trigger keys[j]]
        0 <= j < keys.len() ==> exists|i: int|
            0 <= i < groups.len() && id_key(#[trigger] groups[i].id) == keys[j]
}

/// `groups` is exactly the deduplicated aggregation of `keys`: one group per
/// distinct key, each counting its exact occurrences, none invented.
pub open spec fn groups_valid(groups: Seq<Track>, keys: Seq<(Seq<char>, Seq<char>)>) -> bool {
    &&& distinct_group_keys(groups)
    &&& counts_match(groups, keys)
    &&& groups_cover(groups, keys)
    &&& forall|i: int| 0 <= i < groups.len() ==> #[trigger] groups[i].play_count >= 1
    &&& groups.len() == num_distinct_keys(keys)
}

/// Groups are ordered by play count, highest first.
pub open spec fn sorted_by_count_desc(groups: Seq<Track>) -> bool {
    forall|i: int, j: int|
        0 <= i < j < groups.len() ==> groups[i].play_count >= groups[j].play_count
}

proof fn lemma_count_key_push(keys: Seq<(Seq<char>, Seq<char>)>, k0: (Seq<char>, Seq<char>), k: (
    Seq<char>,
    Seq<char>,
))
    ensures
        count_key(keys.push(k0), k) == count_key(keys, k) + (if k == k0 {
            1int
        } else {
            0int
        }),
{
    assert(keys.push(k0).drop_last() =~= keys);
    assert(keys.push(k0).last() == k0);
}

proof fn lemma_num_distinct_push(keys: Seq<(Seq<char>, Seq<char>)>, k0: (Seq<char>, Seq<char>))
    ensures
        num_distinct_keys(keys.push(k0)) == num_distinct_keys(keys) + (if count_key(keys, k0) > 0 {
            0int
        } else {
            1int
        }),
{
    assert(keys.push(k0).drop_last() =~= keys);
    assert(keys.push(k0).last() == k0);
}

pub(crate) proof fn lemma_count_key_pos(keys: Seq<(Seq<char>, Seq<char>)>, k: (Seq<char>, Seq<char>))
    requires
        count_key(keys, k) > 0,
    ensures
        exists|j: int| 0 <= j < keys.len() && keys[j] == k,
    decreases keys.len(),
{
    if keys.len() > 0 {
        if keys.last() == k {
            assert(keys[keys.len() - 1] == k);
        } else {
            lemma_count_key_pos(keys.drop_last(), k);
            let j = choose|j: int| 0 <= j < keys.drop_last().len() && keys.drop_last()[j] == k;
            assert(keys[j] == k);
        }
    }
}

proof fn lemma_play_count_le_sum(groups: Seq<Track>, j: int)
    requires
        0 <= j < groups.len(),
    ensures
        groups[j].play_count <= sum_counts(groups),
    decreases groups.len(),
{
    if j == groups.len() - 1 {
        assert(groups.last() == groups[j]);
    } else {
        lemma_play_count_le_sum(groups.drop_last(), j);
        assert(groups.drop_last()[j] == groups[j]);
    }
}

proof fn lemma_sum_counts_update(groups: Seq<Track>, j: int, t: Track)
    requires
        0 <= j < groups.len(),
    ensures
        sum_counts(groups.update(j, t)) == sum_counts(groups) - groups[j].play_count
            + t.play_count,
    decreases groups.len(),
{
    let updated = groups.update(j, t);
    if j == groups.len() - 1 {
        assert(updated.drop_last() =~= groups.drop_last());
        assert(updated.last() == t);
    } else {
        assert(updated.drop_last() =~= groups.drop_last().update(j, t));
        assert(updated.last() == groups.last());
        lemma_sum_counts_update(groups.drop_last(), j, t);
    }
}

proof fn lemma_sum_counts_remove(groups: Seq<Track>, j: int)
    requires
        0 <= j < groups.len(),
    ensures
        sum_counts(groups.remove(j)) == sum_counts(groups) - groups[j].play_count,
    decreases groups.len(),
{
    let removed = groups.remove(j);
    if j == groups.len() - 1 {
        assert(removed =~= groups.drop_last());
    } else {
        assert(removed.drop_last() =~= groups.drop_last().remove(j));
        assert(removed.last() == groups.last());
        lemma_sum_counts_remove(groups.drop_last(), j);
    }
}

proof fn lemma_sum_counts_permutation(a: Seq<Track>, b: Seq<Track>)
    requires
        a.to_multiset() == b.to_multiset(),
    ensures
        sum_counts(a) == sum_counts(b),
    decreases a.len(),
{
    broadcast use vstd::seq_lib::group_to_multiset_ensures;

    if a.len() == 0 {
        assert(b.to_multiset().len() == 0);
    } else {
        let t = a.last();
        assert(a.contains(t));
        assert(b.to_multiset().count(t) > 0);
        assert(b.contains(t));
        let k = choose|k: int| 0 <= k < b.len() && b[k] == t;
        assert(a.remove(a.len() - 1) =~= a.drop_last());
        assert(a.drop_last().to_multiset() == a.to_multiset().remove(t));
        assert(b.remove(k).to_multiset() == b.to_multiset().remove(t));
        lemma_sum_counts_permutation(a.drop_last(), b.remove(k));
        lemma_sum_counts_remove(b, k);
    }
}

/// Groups the scrobbles by exact track identity and counts each group's
/// occurrences. The play counts of the result sum to the number of input
/// scrobbles: no scrobble is lost or double-counted.
pub fn count_plays(scrobbles: &Vec<Scrobble>) -> (groups: Vec<Track>)
    ensures
        groups_valid(groups@, keys_of(scrobbles@)),
        sum_counts(groups@) == scrobbles@.len(),
{
    let mut groups: Vec<Track> = Vec::new();
    let mut i: usize = 0;
    proof {
        assert(keys_of(scrobbles@.take(0)) =~= Seq::<(Seq<char>, Seq<char>)>::empty());
    }
    while i < scrobbles.len()
        invariant
            i <= scrobbles@.len(),
            groups_valid(groups@, keys_of(scrobbles@.take(i as int))),
            sum_counts(groups@) == i,
        decreases scrobbles@.len() - i,
    {
        let ghost old_keys = keys_of(scrobbles@.take(i as int));
        let s = &scrobbles[i];
        let key_id = TrackId { artist: s.artist.clone(), title: s.title.clone() };
        let ghost k0 = id_key(key_id);
        proof {
            assert(keys_of(scrobbles@.take(i + 1)) =~= old_keys.push(k0));
            assert forall|k: (Seq<char>, Seq<char>)| true implies count_key(
                old_keys.push(k0),
                k,
            ) == count_key(old_keys, k) + (if k == k0 {
                1int
            } else {
                0int
            }) by {
                lemma_count_key_push(old_keys, k0, k);
            }
            lemma_num_distinct_push(old_keys, k0);
        }
        // Look for an existing group with this identity.
        let mut j: usize = 0;
        let mut found: bool = false;
        while j < groups.len() && !found
            invariant
                k0 == id_key(key_id),
                j <= groups@.len(),
                found ==> j < groups@.len() && id_key(groups@[j as int].id) == k0,
                !found ==> forall|m: int| 0 <= m < j ==> id_key(groups@[m].id) != k0,
            decreases groups@.len() - j + (if found {
                0int
            } else {
                1int
            }),
        {
            if groups[j].id == key_id {
                found = true;
            } else {
                j = j + 1;
            }
        }
        let ghost pre_groups = groups@;
        if found {
            let current = groups[j].play_count;
            proof {
                lemma_play_count_le_sum(groups@, j as int);
                if count_key(old_keys, k0) == 0 {
                    assert(groups@[j as int].play_count == count_key(old_keys, k0));
                    assert(false);
                }
            }
            let replacement = Track { id: key_id, play_count: current + 1 };
            proof {
                lemma_sum_counts_update(groups@, j as int, replacement);
            }
            groups.set(j, replacement);
        } else {
            proof {
                // The key is new: if it had occurred, a group would cover it.
                if count_key(old_keys, k0) > 0 {
                    lemma_count_key_pos(old_keys, k0);
                    let w = choose|w: int| 0 <= w < old_keys.len() && old_keys[w] == k0;
                    assert(exists|m: int|
                        0 <= m < groups@.len() && id_key(groups@[m].id) == old_keys[w]);
                    assert(false);
                }
                assert(groups@.push(Track { id: key_id, play_count: 1 }).drop_last() =~= groups@);
            }
            groups.push(Track { id: key_id, play_count: 1 });
        }
        proof {
            let new_keys = keys_of(scrobbles@.take(i + 1));
            let widx: int = if found {
                j as int
            } else {
                groups@.len() - 1
            };
            assert(0 <= widx < groups@.len() && id_key(groups@[widx].id) == k0);
            if !found {
                assert(j == pre_groups.len());
                assert(forall|m: int| 0 <= m < pre_groups.len() ==> id_key(pre_groups[m].id) != k0);
            }
            assert forall|m: int|
                0 <= m < groups@.len() && m != widx implies groups@[m] == pre_groups[m] && id_key(
                #[trigger] groups@[m].id,
            ) != k0 by {
                if found {
                    assert(id_key(pre_groups[j as int].id) == k0);
                }
            }
            assert forall|m: int| 0 <= m < groups@.len() implies #[trigger] groups@[m].play_count
                == count_key(new_keys, id_key(groups@[m].id)) by {
                if m != widx {
                    assert(groups@[m].play_count == count_key(old_keys, id_key(groups@[m].id)));
                }
            }
            assert forall|m: int| #![trigger new_keys[m]]
                0 <= m < new_keys.len() implies exists|g: int|
                0 <= g < groups@.len() && id_key(#[trigger] groups@[g].id) == new_keys[m] by {
                if m < old_keys.len() {
                    assert(new_keys[m] == old_keys[m]);
                    let g = choose|g: int|
                        0 <= g < pre_groups.len() && id_key(pre_groups[g].id) == old_keys[m];
                    if found && g == j {
                        assert(id_key(groups@[widx].id) == new_keys[m]);
                    } else {
                        assert(groups@[g] == pre_groups[g]);
                    }
                } else {
                    assert(new_keys[m] == k0);
                    assert(id_key(groups@[widx].id) == new_keys[m]);
                }
            }
            assert forall|m: int, n: int|
                0 <= m < n < groups@.len() implies id_key(groups@[m].id) != id_key(
                groups@[n].id,
            ) by {
                if m != widx && n != widx {
                    assert(groups@[m] == pre_groups[m] && groups@[n] == pre_groups[n]);
                }
            }
        }
        i = i + 1;
    }
    proof {
        assert(scrobbles@.take(scrobbles@.len() as int) =~= scrobbles@);
    }
    groups
}

/// Orders the groups by play count, highest first. The result holds exactly
/// the same groups (as a multiset) as the input.
pub fn sort_tracks_by_count(tracks: Vec<Track>) -> (r: Vec<Track>)
    ensures
        r@.to_multiset() == tracks@.to_multiset(),
        r@.len() == tracks@.len(),
        sorted_by_count_desc(r@),
{
    broadcast use vstd::seq_lib::group_to_multiset_ensures;

    let mut rest = tracks;
    let mut out: Vec<Track> = Vec::new();
    let ghost orig = rest@;
    while rest.len() > 0
        invariant
            out@.len() + rest@.len() == orig.len(),
            out@.to_multiset().add(rest@.to_multiset()) == orig.to_multiset(),
            sorted_by_count_desc(out@),
            forall|i: int, k: int|
                0 <= i < out@.len() && 0 <= k < rest@.len() ==> out@[i].play_count
                    >= rest@[k].play_count,
        decreases rest@.len(),
    {
        // Find the group with the highest remaining play count.
        let mut m: usize = 0;
        let mut j: usize = 1;
        while j < rest.len()
            invariant
                m < rest@.len(),
                j <= rest@.len(),
                forall|k: int| 0 <= k < j ==> rest@[m as int].play_count >= rest@[k].play_count,
            decreases rest@.len() - j,
        {
            if rest[j].play_count > rest[m].play_count {
                m = j;
            }
            j = j + 1;
        }
        let ghost before = rest@;
        let t = rest.remove(m);
        proof {
            broadcast use vstd::seq_lib::group_to_multiset_ensures;

            assert(before.remove(m as int).to_multiset() == before.to_multiset().remove(t));
            assert(out@.push(t).to_multiset() == out@.to_multiset().insert(t));
            assert(before.to_multiset().count(t) > 0) by {
                assert(before.contains(t));
            }
            assert(out@.to_multiset().insert(t).add(before.to_multiset().remove(t))
                =~= out@.to_multiset().add(before.to_multiset()));
        }
        out.push(t);
    }
    proof {
        assert(rest@.to_multiset().len() == 0);
        assert(out@.to_multiset().add(rest@.to_multiset()) =~= out@.to_multiset());
    }
    out
}

/// Aggregates the scrobbles of a run: groups by exact track identity, counts
/// occurrences, and orders the groups by play count, highest first. The
/// relative order of groups with equal counts is not specified.
pub fn aggregate_scrobbles(scrobbles: Vec<Scrobble>) -> (r: Vec<Track>)
    ensures
        groups_valid(r@, keys_of(scrobbles@)),
        sorted_by_count_desc(r@),
        sum_counts(r@) == scrobbles@.len(),
{
    broadcast use vstd::seq_lib::group_to_multiset_ensures;

    let groups = count_plays(&scrobbles);
    let ghost g0 = groups@;
    let ghost keys = keys_of(scrobbles@);
    let sorted = sort_tracks_by_count(groups);
    proof {
        lemma_sum_counts_permutation(sorted@, g0);
        lemma_multiset_equal_preserves_validity(g0, sorted@, keys);
    }
    sorted
}

/// A permutation of a valid group sequence is itself valid.
proof fn lemma_multiset_equal_preserves_validity(
    a: Seq<Track>,
    b: Seq<Track>,
    keys: Seq<(Seq<char>, Seq<char>)>,
)
    requires
        groups_valid(a, keys),
        b.to_multiset() == a.to_multiset(),
        b.len() == a.len(),
    ensures
        groups_valid(b, keys),
{
    broadcast use vstd::seq_lib::group_to_multiset_ensures;

    assert forall|i: int| 0 <= i < b.len() implies #[trigger] b[i].play_count == count_key(
        keys,
        id_key(b[i].id),
    ) && b[i].play_count >= 1 by {
        assert(b.contains(b[i]));
        assert(a.to_multiset().count(b[i]) > 0);
        assert(a.contains(b[i]));
        let w = choose|w: int| 0 <= w < a.len() && a[w] == b[i];
        assert(a[w].play_count == count_key(keys, id_key(a[w].id)));
    }
    assert forall|j: int| #![trigger keys[j]] 0 <= j < keys.len() implies exists|i: int|
        0 <= i < b.len() && id_key(#[trigger] b[i].id) == keys[j] by {
        let w = choose|w: int| 0 <= w < a.len() && id_key(a[w].id) == keys[j];
        assert(b.to_multiset().count(a[w]) > 0);
        assert(b.contains(a[w]));
        let v = choose|v: int| 0 <= v < b.len() && b[v] == a[w];
        assert(id_key(b[v].id) == keys[j]);
    }
    assert forall|i: int, j: int| 0 <= i < j < b.len() implies id_key(b[i].id) != id_key(
        b[j].id,
    ) by {
        if id_key(b[i].id) == id_key(b[j].id) {
            if b[i] == b[j] {
                // The same group value twice would need count two in `a`,
                // whose keys are distinct.
                let br = b.remove(i);
                assert(br.to_multiset() == b.to_multiset().remove(b[i]));
                assert(br[j - 1] == b[j]);
                assert(br.contains(b[j]));
                assert(br.to_multiset().count(b[j]) > 0);
                assert(a.to_multiset().count(b[i]) >= 2);
                let w1 = choose|w: int| 0 <= w < a.len() && a[w] == b[i];
                let ar = a.remove(w1);
                assert(ar.to_multiset() == a.to_multiset().remove(b[i]));
                assert(ar.to_multiset().count(b[i]) > 0);
                assert(ar.contains(b[i]));
                let w2 = choose|w: int| 0 <= w < ar.len() && ar[w] == b[i];
                if w2 < w1 {
                    assert(a[w2] == b[i]);
                    assert(id_key(a[w2].id) == id_key(a[w1].id));
                } else {
                    assert(a[w2 + 1] == b[i]);
                    assert(id_key(a[w2 + 1].id) == id_key(a[w1].id));
                }
                assert(false);
            } else {
                assert(a.to_multiset().count(b[i]) > 0);
                assert(a.contains(b[i]));
                assert(a.to_multiset().count(b[j]) > 0);
                assert(a.contains(b[j]));
                let w1 = choose|w: int| 0 <= w < a.len() && a[w] == b[i];
                let w2 = choose|w: int| 0 <= w < a.len() && a[w] == b[j];
                assert(w1 != w2);
                assert(false);
            }
        }
    }
}

/// Law: track identity is exact. Two identity keys that differ in any way —
/// case, leading or trailing whitespace, control characters — have two
/// distinct groups in any valid aggregation that saw both.
pub proof fn lemma_track_identity_exact(
    groups: Seq<Track>,
    keys: Seq<(Seq<char>, Seq<char>)>,
    a: TrackId,
    b: TrackId,
)
    requires
        groups_valid(groups, keys),
        id_key(a) != id_key(b),
        keys.contains(id_key(a)),
        keys.contains(id_key(b)),
    ensures
        exists|i: int, j: int|
            0 <= i < groups.len() && 0 <= j < groups.len() && i != j && id_key(groups[i].id)
                == id_key(a) && id_key(groups[j].id) == id_key(b),
{
    let ka = choose|k: int| 0 <= k < keys.len() && keys[k] == id_key(a);
    let kb = choose|k: int| 0 <= k < keys.len() && keys[k] == id_key(b);
    let i = choose|i: int| 0 <= i < groups.len() && id_key(groups[i].id) == keys[ka];
    let j = choose|j: int| 0 <= j < groups.len() && id_key(groups[j].id) == keys[kb];
    assert(i != j);
}

} // verus!
