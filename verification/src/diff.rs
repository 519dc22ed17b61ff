//! The snapshot differ: compares a previously persisted record set against a
//! freshly extracted one and yields the records that are new, changed, or no
//! longer active.

use vstd::prelude::*;

verus! {

use crate::purchase::{Purchase, PurchaseV, spec_equiv, STATUS_NOT_GO};

/// The record sequence at the mathematical level.
pub open spec fn views(s: Seq<Purchase>) -> Seq<PurchaseV> {
    s.map_values(|p: Purchase| p@)
}

/// Whether some record in `s` carries `key`.
pub open spec fn spec_has_key(s: Seq<PurchaseV>, key: Seq<char>) -> bool {
    exists|i: int| 0 <= i < s.len() && s[i].registry_number == key
}

/// Whether `olds` holds a record with `n`'s key that is also equivalent
/// to `n`.
pub open spec fn spec_has_match(olds: Seq<PurchaseV>, n: PurchaseV) -> bool {
    exists|i: int|
        0 <= i < olds.len() && olds[i].registry_number == n.registry_number && spec_equiv(
            olds[i],
            n,
        )
}

/// No two records share a registry number.
pub open spec fn spec_unique_keys(s: Seq<PurchaseV>) -> bool {
    forall|i: int, j: int|
        0 <= i < j < s.len() ==> s[i].registry_number != s[j].registry_number
}

/// The record re-emitted for a row that left the active set: the same data
/// under the inactive-status sentinel.
pub open spec fn spec_with_inactive_status(o: PurchaseV) -> PurchaseV {
    PurchaseV { status: STATUS_NOT_GO@, ..o }
}

/// The records of `news` that are new or changed relative to `olds`, in
/// scan order: a record is dropped only when `olds` holds an equivalent
/// record under the same key.
pub open spec fn spec_fresh_part(olds: Seq<PurchaseV>, news: Seq<PurchaseV>) -> Seq<PurchaseV>
    decreases news.len(),
{
    if news.len() == 0 {
        Seq::empty()
    } else {
        let prefix = spec_fresh_part(olds, news.drop_last());
        if spec_has_match(olds, news.last()) {
            prefix
        } else {
            prefix.push(news.last())
        }
    }
}

/// The records of `olds` whose key no longer appears in `news`, re-emitted
/// with the inactive-status sentinel, in their stored order.
pub open spec fn spec_stale_part(olds: Seq<PurchaseV>, news: Seq<PurchaseV>) -> Seq<PurchaseV>
    decreases olds.len(),
{
    if olds.len() == 0 {
        Seq::empty()
    } else {
        let prefix = spec_stale_part(olds.drop_last(), news);
        if spec_has_key(news, olds.last().registry_number) {
            prefix
        } else {
            prefix.push(spec_with_inactive_status(olds.last()))
        }
    }
}

/// The whole changeset: fresh records first, then the stale re-emissions.
pub open spec fn spec_changed(olds: Seq<PurchaseV>, news: Seq<PurchaseV>) -> Seq<PurchaseV> {
    spec_fresh_part(olds, news) + spec_stale_part(olds, news)
}

/// Index of the record carrying `key`, if any.
fn find_by_key(v: &Vec<Purchase>, key: &String) -> (r: Option<usize>)
    ensures
        match r {
            Some(i) => i < v@.len() && v@[i as int]@.registry_number == key@,
            None => !spec_has_key(views(v@), key@),
        },
{
    let mut i: usize = 0;
    while i < v.len()
        invariant
            0 <= i <= v@.len(),
            forall|j: int| 0 <= j < i ==> views(v@)[j].registry_number != key@,
        decreases v@.len() - i,
    {
        if v[i].registry_number.eq(key) {
            return Some(i);
        }
        i += 1;
    }
    None
}

/// Whether some record in `v` carries `key`.
fn has_key(v: &Vec<Purchase>, key: &String) -> (r: bool)
    ensures
        r == spec_has_key(views(v@), key@),
{
    match find_by_key(v, key) {
        Some(i) => {
            proof {
                assert(views(v@)[i as int].registry_number == key@);
            }
            true
        },
        None => false,
    }
}

/// Compares two record sets and returns the changeset: every new record
/// without an equivalent counterpart under the same key in `old`, followed
/// by every old record whose key vanished, re-emitted as inactive. The
/// registry number is the diff key and is unique within an extraction, so
/// both inputs are keyed uniquely.
pub fn changed(old: &Vec<Purchase>, new: &Vec<Purchase>) -> (res: Vec<Purchase>)
    requires
        spec_unique_keys(views(old@)),
        spec_unique_keys(views(new@)),
    ensures
        views(res@) == spec_changed(views(old@), views(new@)),
{
    let ghost ovs = views(old@);
    let ghost nvs = views(new@);
    let mut res: Vec<Purchase> = Vec::new();

    let mut k: usize = 0;
    while k < new.len()
        invariant
            0 <= k <= new@.len(),
            ovs == views(old@),
            nvs == views(new@),
            spec_unique_keys(ovs),
            views(res@) == spec_fresh_part(ovs, nvs.take(k as int)),
        decreases new@.len() - k,
    {
        let n = &new[k];
        let keep: bool;
        match find_by_key(old, &n.registry_number) {
            Some(i) => {
                keep = !old[i].eq(n);
                proof {
                    // a single key probe decides `spec_has_match`: keys in
                    // `old` are unique, so index i holds the only candidate
                    if keep {
                        assert forall|j: int|
                            0 <= j < ovs.len() && (#[trigger] ovs[j]).registry_number == nvs[k as int].registry_number implies !spec_equiv(ovs[j], nvs[k as int]) by {
                            if j < i as int {
                                assert(ovs[j].registry_number != ovs[i as int].registry_number);
                            } else if j > i as int {
                                assert(ovs[i as int].registry_number != ovs[j].registry_number);
                            }
                        };
                        assert(!spec_has_match(ovs, nvs[k as int]));
                    } else {
                        assert(ovs[i as int] == old@[i as int]@);
                        assert(nvs[k as int] == new@[k as int]@);
                        assert(spec_equiv(ovs[i as int], nvs[k as int]));
                        assert(spec_has_match(ovs, nvs[k as int]));
                    }
                }
            },
            None => {
                keep = true;
                proof {
                    assert(!spec_has_match(ovs, nvs[k as int])) by {
                        if spec_has_match(ovs, nvs[k as int]) {
                            let j = choose|j: int|
                                0 <= j < ovs.len() && ovs[j].registry_number == nvs[k as int].registry_number && spec_equiv(ovs[j], nvs[k as int]);
                            assert(spec_has_key(ovs, nvs[k as int].registry_number));
                        }
                    };
                }
            },
        }
        proof {
            assert(nvs.take(k + 1).drop_last() =~= nvs.take(k as int));
            assert(nvs.take(k + 1).last() == nvs[k as int]);
        }
        if keep {
            res.push(n.clone());
            proof {
                assert(views(res@) =~= spec_fresh_part(ovs, nvs.take(k + 1)));
            }
        } else {
            proof {
                assert(views(res@) =~= spec_fresh_part(ovs, nvs.take(k + 1)));
            }
        }
        k += 1;
    }
    proof {
        assert(nvs.take(new@.len() as int) =~= nvs);
    }

    let mut k: usize = 0;
    while k < old.len()
        invariant
            0 <= k <= old@.len(),
            ovs == views(old@),
            nvs == views(new@),
            views(res@) == spec_fresh_part(ovs, nvs) + spec_stale_part(ovs.take(k as int), nvs),
        decreases old@.len() - k,
    {
        proof {
            assert(ovs.take(k + 1).drop_last() =~= ovs.take(k as int));
            assert(ovs.take(k + 1).last() == ovs[k as int]);
        }
        if !has_key(new, &old[k].registry_number) {
            let mut p = old[k].clone();
            p.status = STATUS_NOT_GO.to_owned();
            proof {
                assert(p@ == spec_with_inactive_status(ovs[k as int]));
            }
            let ghost r0 = res@;
            let ghost pv = p@;
            res.push(p);
            proof {
                assert(!spec_has_key(nvs, ovs.take(k + 1).last().registry_number));
                assert(spec_stale_part(ovs.take(k + 1), nvs) == spec_stale_part(
                    ovs.take(k as int),
                    nvs,
                ).push(spec_with_inactive_status(ovs[k as int])));
                assert(res@ == r0.push(p));
                assert(views(res@) =~= views(r0).push(pv));
                assert(views(res@) =~= spec_fresh_part(ovs, nvs) + spec_stale_part(
                    ovs.take(k + 1),
                    nvs,
                ));
            }
        } else {
            proof {
                assert(views(res@) =~= spec_fresh_part(ovs, nvs) + spec_stale_part(
                    ovs.take(k + 1),
                    nvs,
                ));
            }
        }
        k += 1;
    }
    proof {
        assert(ovs.take(old@.len() as int) =~= ovs);
    }
    res
}

/// The first `i` records of `s`, indexed by key with the last occurrence
/// winning: the record at `i - 1` is kept exactly when its key does not
/// occur again later in `s`.
pub open spec fn spec_dedup_upto(s: Seq<PurchaseV>, i: int) -> Seq<PurchaseV>
    decreases i,
{
    if i <= 0 {
        Seq::empty()
    } else {
        let prefix = spec_dedup_upto(s, i - 1);
        if spec_has_key(s.skip(i), s[i - 1].registry_number) {
            prefix
        } else {
            prefix.push(s[i - 1])
        }
    }
}

/// `s` reduced to one record per registry number, the last occurrence of
/// each key winning, in order of the kept occurrences.
pub open spec fn spec_dedup_by_key(s: Seq<PurchaseV>) -> Seq<PurchaseV> {
    spec_dedup_upto(s, s.len() as int)
}

/// A key absent from the records at positions `i - 1` and later is absent
/// from those at `i` and later, and differs from the key at `i - 1`.
proof fn lemma_skip_key(s: Seq<PurchaseV>, i: int, key: Seq<char>)
    requires
        1 <= i <= s.len(),
        !spec_has_key(s.skip(i - 1), key),
    ensures
        !spec_has_key(s.skip(i), key),
        s[i - 1].registry_number != key,
{
    assert(s.skip(i - 1)[0] == s[i - 1]);
    if spec_has_key(s.skip(i), key) {
        let j = choose|j: int| 0 <= j < s.skip(i).len() && s.skip(i)[j].registry_number == key;
        assert(s.skip(i - 1)[j + 1] == s.skip(i)[j]);
        assert(spec_has_key(s.skip(i - 1), key));
    }
}

/// Keys in the dedup of a prefix are unique, and none of them occurs in the
/// rest of the sequence.
proof fn lemma_dedup_upto_unique(s: Seq<PurchaseV>, i: int)
    requires
        0 <= i <= s.len(),
    ensures
        spec_unique_keys(spec_dedup_upto(s, i)),
        forall|m: int|
            0 <= m < spec_dedup_upto(s, i).len() ==> !spec_has_key(
                s.skip(i),
                (#[trigger] spec_dedup_upto(s, i)[m]).registry_number,
            ),
    decreases i,
{
    if i > 0 {
        lemma_dedup_upto_unique(s, i - 1);
        let prev = spec_dedup_upto(s, i - 1);
        let cur = spec_dedup_upto(s, i);
        assert forall|m: int| 0 <= m < prev.len() implies !spec_has_key(
            s.skip(i),
            (#[trigger] prev[m]).registry_number,
        ) && s[i - 1].registry_number != prev[m].registry_number by {
            lemma_skip_key(s, i, prev[m].registry_number);
        };
    }
}

/// Whether some record at position `from` or later carries `key`.
fn has_key_from(v: &Vec<Purchase>, key: &String, from: usize) -> (r: bool)
    requires
        from <= v@.len(),
    ensures
        r == spec_has_key(views(v@).skip(from as int), key@),
{
    let mut i = from;
    while i < v.len()
        invariant
            from <= i <= v@.len(),
            forall|j: int| from <= j < i ==> views(v@)[j].registry_number != key@,
        decreases v@.len() - i,
    {
        if v[i].registry_number.eq(key) {
            proof {
                assert(views(v@).skip(from as int)[i - from] == views(v@)[i as int]);
            }
            return true;
        }
        i += 1;
    }
    proof {
        if spec_has_key(views(v@).skip(from as int), key@) {
            let j = choose|j: int|
                0 <= j < views(v@).skip(from as int).len() && views(v@).skip(from as int)[
                    j
                ].registry_number == key@;
            assert(views(v@).skip(from as int)[j] == views(v@)[j + from]);
        }
    }
    false
}

/// Indexes a snapshot by registry number: of records sharing a key the
/// last one wins, so the result is keyed uniquely and can feed `changed`.
pub fn dedup_by_key(v: &Vec<Purchase>) -> (res: Vec<Purchase>)
    ensures
        views(res@) == spec_dedup_by_key(views(v@)),
        spec_unique_keys(views(res@)),
{
    let ghost vs = views(v@);
    let mut res: Vec<Purchase> = Vec::new();
    let mut k: usize = 0;
    while k < v.len()
        invariant
            0 <= k <= v@.len(),
            vs == views(v@),
            views(res@) == spec_dedup_upto(vs, k as int),
        decreases v@.len() - k,
    {
        if !has_key_from(v, &v[k].registry_number, k + 1) {
            let ghost r0 = res@;
            let p = v[k].clone();
            let ghost pv = p@;
            res.push(p);
            proof {
                assert(views(res@) =~= views(r0).push(pv));
                assert(views(res@) =~= spec_dedup_upto(vs, k + 1));
            }
        } else {
            proof {
                assert(views(res@) =~= spec_dedup_upto(vs, k + 1));
            }
        }
        k += 1;
    }
    proof {
        lemma_dedup_upto_unique(vs, vs.len() as int);
        assert(views(res@) == spec_dedup_by_key(vs));
    }
    res
}

/// Compares the persisted snapshot against a fresh extraction — each first
/// indexed by registry number, the last record per key winning — and
/// returns the changeset to forward, or `None` when there is genuinely
/// nothing to report, so that a caller can tell "no changes" apart from an
/// empty payload.
pub fn active_state_compared(old: &Vec<Purchase>, new: &Vec<Purchase>) -> (res: Option<
    Vec<Purchase>,
>)
    ensures
        ({
            let delta = spec_changed(
                spec_dedup_by_key(views(old@)),
                spec_dedup_by_key(views(new@)),
            );
            match res {
                Some(v) => views(v@) == delta && delta.len() > 0,
                None => delta.len() == 0,
            }
        }),
{
    let old_unique = dedup_by_key(old);
    let new_unique = dedup_by_key(new);
    let result = changed(&old_unique, &new_unique);
    if result.len() == 0 {
        proof {
            assert(views(result@).len() == 0);
        }
        None
    } else {
        Some(result)
    }
}

/// A set diffed against itself yields nothing: every record matches itself
/// and every key is still present.
pub proof fn lemma_diff_idempotent(s: Seq<PurchaseV>)
    ensures
        spec_changed(s, s) == Seq::<PurchaseV>::empty(),
{
    lemma_fresh_all_matched(s, s);
    lemma_stale_all_present(s, s);
    assert(spec_changed(s, s) =~= Seq::<PurchaseV>::empty());
}

/// When every new record has an equivalent old counterpart, nothing is
/// fresh.
proof fn lemma_fresh_all_matched(olds: Seq<PurchaseV>, news: Seq<PurchaseV>)
    requires
        forall|i: int| 0 <= i < news.len() ==> spec_has_match(olds, #[trigger] news[i]),
    ensures
        spec_fresh_part(olds, news) == Seq::<PurchaseV>::empty(),
    decreases news.len(),
{
    if news.len() > 0 {
        lemma_fresh_all_matched(olds, news.drop_last());
    }
}

/// When every old key still appears among the new records, nothing is
/// stale.
proof fn lemma_stale_all_present(olds: Seq<PurchaseV>, news: Seq<PurchaseV>)
    requires
        forall|i: int|
            0 <= i < olds.len() ==> spec_has_key(news, (#[trigger] olds[i]).registry_number),
    ensures
        spec_stale_part(olds, news) == Seq::<PurchaseV>::empty(),
    decreases olds.len(),
{
    if olds.len() > 0 {
        lemma_stale_all_present(olds.drop_last(), news);
    }
}

} // verus!
