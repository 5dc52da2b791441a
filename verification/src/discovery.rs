//! Merging what the discovery sources report: one entry per device
//! identifier, in ascending order of the identifiers.

use crate::error::{YKeyErrorView, YKeyResult};
use crate::text::{
    lemma_text_lt_irreflexive, lemma_text_lt_total, lemma_text_lt_transitive, str_eq, str_lt,
    text_lt,
};
use crate::types::DeviceInfo;
use vstd::prelude::*;
use vstd::string::*;

verus! {

/// The identifiers stand in strictly ascending order; so no two entries have
/// the same identifier.
pub open spec fn ascending_ids(s: Seq<DeviceInfo>) -> bool {
    forall|i: int, j: int|
        #![trigger s[i], s[j]]
        0 <= i < j < s.len() ==> text_lt(s[i].id@, s[j].id@)
}

/// Whether some entry has the identifier.
pub open spec fn has_id(s: Seq<DeviceInfo>, id: Seq<char>) -> bool {
    exists|j: int| 0 <= j < s.len() && (#[trigger] s[j]).id@ == id
}

/// Whether the entry at `i` is the first one with its identifier.
pub open spec fn first_of_id(all: Seq<DeviceInfo>, i: int) -> bool {
    &&& 0 <= i < all.len()
    &&& forall|k: int| 0 <= k < i ==> (#[trigger] all[k]).id@ != all[i].id@
}

/// Whether `d` is, among the first `n` entries, the first one with its
/// identifier.
pub open spec fn first_among(all: Seq<DeviceInfo>, n: int, d: DeviceInfo) -> bool {
    exists|i: int| 0 <= i < n && first_of_id(all, i) && #[trigger] all[i] == d
}

/// Whether `out` is `all` without duplicates: in ascending order of the
/// identifiers, each entry of `out` the first entry of `all` with its
/// identifier, and each identifier of `all` in `out`.
pub open spec fn deduplicated(all: Seq<DeviceInfo>, out: Seq<DeviceInfo>) -> bool {
    &&& ascending_ids(out)
    &&& forall|j: int| 0 <= j < out.len() ==> first_among(all, all.len() as int, #[trigger] out[j])
    &&& forall|i: int| 0 <= i < all.len() ==> has_id(out, (#[trigger] all[i]).id@)
}

/// What the sources found, one source after the other. A source that failed
/// found nothing.
pub open spec fn found(results: Seq<YKeyResult<Vec<DeviceInfo>>>) -> Seq<DeviceInfo>
    decreases results.len(),
{
    if results.len() == 0 {
        Seq::empty()
    } else {
        found(results.drop_last()) + match results.last() {
            Ok(devices) => devices@,
            Err(_) => Seq::empty(),
        }
    }
}

/// The error of the first source that failed, if one did.
pub open spec fn first_failure(results: Seq<YKeyResult<Vec<DeviceInfo>>>) -> Option<YKeyErrorView>
    decreases results.len(),
{
    if results.len() == 0 {
        None
    } else {
        match first_failure(results.drop_last()) {
            Some(e) => Some(e),
            None => match results.last() {
                Ok(_) => None,
                Err(e) => Some(e@),
            },
        }
    }
}

/// In an ascending list each identifier stands once: two entries with the
/// same identifier are one entry.
pub proof fn lemma_ascending_ids_distinct(s: Seq<DeviceInfo>, i: int, j: int)
    requires
        ascending_ids(s),
        0 <= i < s.len(),
        0 <= j < s.len(),
        s[i].id@ == s[j].id@,
    ensures
        i == j,
{
    lemma_text_lt_irreflexive(s[i].id@);
    if i < j {
        assert(text_lt(s[i].id@, s[j].id@));
    } else if j < i {
        assert(text_lt(s[j].id@, s[i].id@));
    }
}

/// Whether `d` is an entry of `s`.
pub open spec fn occurs(s: Seq<DeviceInfo>, d: DeviceInfo) -> bool {
    exists|m: int| 0 <= m < s.len() && #[trigger] s[m] == d
}

/// Whether each entry of `a` is an entry of `b`.
pub open spec fn entries_within(a: Seq<DeviceInfo>, b: Seq<DeviceInfo>) -> bool {
    forall|j: int| 0 <= j < a.len() ==> occurs(b, #[trigger] a[j])
}

proof fn lemma_last_entries_agree(a: Seq<DeviceInfo>, b: Seq<DeviceInfo>)
    requires
        ascending_ids(a),
        ascending_ids(b),
        entries_within(a, b),
        entries_within(b, a),
        a.len() > 0,
    ensures
        b.len() > 0,
        a.last() == b.last(),
{
    let la = a.len() - 1;
    assert(occurs(b, a[la]));
    let m = choose|m: int| 0 <= m < b.len() && #[trigger] b[m] == a[la];
    let lb = b.len() - 1;
    if m < lb {
        assert(occurs(a, b[lb]));
        let p = choose|p: int| 0 <= p < a.len() && #[trigger] a[p] == b[lb];
        assert(text_lt(b[m].id@, b[lb].id@));
        lemma_text_lt_irreflexive(a[la].id@);
        if p < la {
            assert(text_lt(a[p].id@, a[la].id@));
            lemma_text_lt_transitive(a[la].id@, a[p].id@, a[la].id@);
        }
    }
}

proof fn lemma_entries_within_drop_last(a: Seq<DeviceInfo>, b: Seq<DeviceInfo>)
    requires
        ascending_ids(a),
        ascending_ids(b),
        entries_within(a, b),
        a.len() > 0,
        b.len() > 0,
        a.last() == b.last(),
    ensures
        entries_within(a.drop_last(), b.drop_last()),
{
    let la = a.len() - 1;
    let lb = b.len() - 1;
    assert forall|j: int| 0 <= j < a.drop_last().len() implies occurs(
        b.drop_last(),
        #[trigger] a.drop_last()[j],
    ) by {
        assert(occurs(b, a[j]));
        let m = choose|m: int| 0 <= m < b.len() && #[trigger] b[m] == a[j];
        assert(text_lt(a[j].id@, a[la].id@));
        lemma_text_lt_irreflexive(a[la].id@);
        assert(m < lb);
        assert(b.drop_last()[m] == a.drop_last()[j]);
    }
}

/// Two ascending lists with the same entries are the same list.
pub proof fn lemma_ascending_same_entries(a: Seq<DeviceInfo>, b: Seq<DeviceInfo>)
    requires
        ascending_ids(a),
        ascending_ids(b),
        entries_within(a, b),
        entries_within(b, a),
    ensures
        a == b,
    decreases a.len(),
{
    if a.len() == 0 {
        if b.len() > 0 {
            assert(occurs(a, b[0]));
        }
        assert(a =~= b);
    } else {
        lemma_last_entries_agree(a, b);
        lemma_entries_within_drop_last(a, b);
        lemma_entries_within_drop_last(b, a);
        lemma_ascending_prefix(a);
        lemma_ascending_prefix(b);
        lemma_ascending_same_entries(a.drop_last(), b.drop_last());
        assert(a =~= a.drop_last().push(a.last()));
        assert(b =~= b.drop_last().push(b.last()));
    }
}

proof fn lemma_deduplicated_within(all: Seq<DeviceInfo>, a: Seq<DeviceInfo>, b: Seq<DeviceInfo>)
    requires
        deduplicated(all, a),
        deduplicated(all, b),
    ensures
        entries_within(a, b),
{
    assert forall|j: int| 0 <= j < a.len() implies occurs(b, #[trigger] a[j]) by {
        assert(first_among(all, all.len() as int, a[j]));
        let i = choose|i: int|
            0 <= i < all.len() && first_of_id(all, i) && #[trigger] all[i] == a[j];
        assert(has_id(b, all[i].id@));
        let m = choose|m: int| 0 <= m < b.len() && (#[trigger] b[m]).id@ == all[i].id@;
        assert(first_among(all, all.len() as int, b[m]));
        let i2 = choose|i2: int|
            0 <= i2 < all.len() && first_of_id(all, i2) && #[trigger] all[i2] == b[m];
        if i2 < i {
            assert(all[i2].id@ != all[i].id@);
        } else if i < i2 {
            assert(all[i].id@ != all[i2].id@);
        }
        assert(b[m] == a[j]);
    }
}

/// What a scan reports has exactly one entry for each identifier that a
/// source reported, and each entry is an entry of a source.
pub proof fn lemma_scan_has_one_entry_per_id(all: Seq<DeviceInfo>, out: Seq<DeviceInfo>)
    requires
        deduplicated(all, out),
    ensures
        forall|id: Seq<char>| has_id(all, id) <==> has_id(out, id),
        forall|i: int, j: int|
            0 <= i < out.len() && 0 <= j < out.len() && (#[trigger] out[i]).id@ == (
            #[trigger] out[j]).id@ ==> i == j,
        entries_within(out, all),
{
    assert forall|id: Seq<char>| has_id(all, id) <==> has_id(out, id) by {
        if has_id(all, id) {
            let i = choose|i: int| 0 <= i < all.len() && (#[trigger] all[i]).id@ == id;
            assert(has_id(out, all[i].id@));
        }
        if has_id(out, id) {
            let j = choose|j: int| 0 <= j < out.len() && (#[trigger] out[j]).id@ == id;
            assert(first_among(all, all.len() as int, out[j]));
            let i = choose|i: int|
                0 <= i < all.len() && first_of_id(all, i) && #[trigger] all[i] == out[j];
            assert(all[i].id@ == id);
        }
    }
    assert forall|i: int, j: int|
        0 <= i < out.len() && 0 <= j < out.len() && (#[trigger] out[i]).id@ == (
        #[trigger] out[j]).id@ implies i == j by {
        lemma_ascending_ids_distinct(out, i, j);
    }
    assert forall|j: int| 0 <= j < out.len() implies occurs(all, #[trigger] out[j]) by {
        assert(first_among(all, all.len() as int, out[j]));
        let i = choose|i: int|
            0 <= i < all.len() && first_of_id(all, i) && #[trigger] all[i] == out[j];
        assert(all[i] == out[j]);
    }
}

/// Whether two lists have the same identifiers.
pub open spec fn same_ids(a: Seq<DeviceInfo>, b: Seq<DeviceInfo>) -> bool {
    forall|id: Seq<char>| has_id(a, id) <==> has_id(b, id)
}

proof fn lemma_ascending_prefix(s: Seq<DeviceInfo>)
    requires
        ascending_ids(s),
        s.len() > 0,
    ensures
        ascending_ids(s.drop_last()),
{
    assert forall|i: int, j: int| 0 <= i < j < s.drop_last().len() implies text_lt(
        (#[trigger] s.drop_last()[i]).id@,
        (#[trigger] s.drop_last()[j]).id@,
    ) by {
        assert(text_lt(s[i].id@, s[j].id@));
    }
}

proof fn lemma_last_ids_agree(a: Seq<DeviceInfo>, b: Seq<DeviceInfo>)
    requires
        ascending_ids(a),
        ascending_ids(b),
        same_ids(a, b),
        a.len() > 0,
    ensures
        b.len() > 0,
        a.last().id@ == b.last().id@,
        same_ids(a.drop_last(), b.drop_last()),
{
    let la = a.len() - 1;
    assert(has_id(a, a[la].id@));
    assert(has_id(b, a[la].id@));
    let m = choose|m: int| 0 <= m < b.len() && (#[trigger] b[m]).id@ == a[la].id@;
    let lb = b.len() - 1;
    lemma_text_lt_irreflexive(a[la].id@);
    if m < lb {
        assert(has_id(b, b[lb].id@));
        assert(has_id(a, b[lb].id@));
        let p = choose|p: int| 0 <= p < a.len() && (#[trigger] a[p]).id@ == b[lb].id@;
        assert(text_lt(b[m].id@, b[lb].id@));
        if p < la {
            assert(text_lt(a[p].id@, a[la].id@));
            lemma_text_lt_transitive(a[la].id@, a[p].id@, a[la].id@);
        }
    }
    assert forall|id: Seq<char>| has_id(a.drop_last(), id) <==> has_id(b.drop_last(), id) by {
        if has_id(a.drop_last(), id) {
            let i = choose|i: int| 0 <= i < a.drop_last().len() && (#[trigger] a.drop_last()[i]).id@ == id;
            assert(a[i].id@ == id);
            assert(text_lt(a[i].id@, a[la].id@));
            assert(has_id(a, id));
            let j = choose|j: int| 0 <= j < b.len() && (#[trigger] b[j]).id@ == id;
            assert(j != lb);
            assert(b.drop_last()[j].id@ == id);
        }
        if has_id(b.drop_last(), id) {
            let j = choose|j: int| 0 <= j < b.drop_last().len() && (#[trigger] b.drop_last()[j]).id@ == id;
            assert(b[j].id@ == id);
            assert(text_lt(b[j].id@, b[lb].id@));
            assert(has_id(b, id));
            let i = choose|i: int| 0 <= i < a.len() && (#[trigger] a[i]).id@ == id;
            assert(i != la);
            assert(a.drop_last()[i].id@ == id);
        }
    }
}

/// Two ascending lists with the same identifiers have them at the same
/// places.
pub proof fn lemma_ascending_same_ids(a: Seq<DeviceInfo>, b: Seq<DeviceInfo>)
    requires
        ascending_ids(a),
        ascending_ids(b),
        same_ids(a, b),
    ensures
        a.len() == b.len(),
        forall|i: int| 0 <= i < a.len() ==> (#[trigger] a[i]).id@ == b[i].id@,
    decreases a.len(),
{
    if a.len() == 0 {
        if b.len() > 0 {
            assert(has_id(b, b[0].id@));
            assert(has_id(a, b[0].id@));
        }
    } else {
        lemma_last_ids_agree(a, b);
        lemma_ascending_prefix(a);
        lemma_ascending_prefix(b);
        lemma_ascending_same_ids(a.drop_last(), b.drop_last());
        assert forall|i: int| 0 <= i < a.len() implies (#[trigger] a[i]).id@ == b[i].id@ by {
            if i < a.len() - 1 {
                assert(a.drop_last()[i].id@ == b.drop_last()[i].id@);
            }
        }
    }
}

/// Which identifiers a scan reports, and in which order, does not depend on
/// the order in which the sources are asked or in which a source lists its
/// devices: two inputs with the same identifiers give results with the same
/// identifiers at the same places.
pub proof fn lemma_scan_order_is_fixed(
    a: Seq<DeviceInfo>,
    b: Seq<DeviceInfo>,
    x: Seq<DeviceInfo>,
    y: Seq<DeviceInfo>,
)
    requires
        same_ids(a, b),
        deduplicated(a, x),
        deduplicated(b, y),
    ensures
        x.len() == y.len(),
        forall|i: int| 0 <= i < x.len() ==> (#[trigger] x[i]).id@ == y[i].id@,
{
    lemma_scan_has_one_entry_per_id(a, x);
    lemma_scan_has_one_entry_per_id(b, y);
    lemma_ascending_same_ids(x, y);
}

/// The result of removing duplicates is determined by the input: two lists
/// that are both `all` without duplicates are the same list.
pub proof fn lemma_deduplicated_unique(all: Seq<DeviceInfo>, a: Seq<DeviceInfo>, b: Seq<DeviceInfo>)
    requires
        deduplicated(all, a),
        deduplicated(all, b),
    ensures
        a == b,
{
    lemma_deduplicated_within(all, a, b);
    lemma_deduplicated_within(all, b, a);
    lemma_ascending_same_entries(a, b);
}

/// Whether `out` is the two ascending lists merged into one: in ascending
/// order, with every entry of `left`, and with the entries of `right` whose
/// identifier `left` does not have.
pub open spec fn merged(left: Seq<DeviceInfo>, right: Seq<DeviceInfo>, out: Seq<DeviceInfo>) -> bool {
    &&& ascending_ids(out)
    &&& forall|k: int|
        0 <= k < out.len() ==> occurs(left, #[trigger] out[k]) || (occurs(right, out[k]) && !has_id(
            left,
            out[k].id@,
        ))
    &&& forall|i: int| 0 <= i < left.len() ==> occurs(out, #[trigger] left[i])
    &&& forall|j: int| 0 <= j < right.len() ==> has_id(out, (#[trigger] right[j]).id@)
}

/// The identifiers stand in strictly descending order.
spec fn descending_ids(s: Seq<DeviceInfo>) -> bool {
    forall|i: int, j: int|
        #![trigger s[i], s[j]]
        0 <= i < j < s.len() ==> text_lt(s[j].id@, s[i].id@)
}

/// Every identifier among the first `n` entries of `low` is below every
/// identifier of `high`.
spec fn all_below(low: Seq<DeviceInfo>, n: int, high: Seq<DeviceInfo>) -> bool {
    forall|i: int, k: int|
        #![trigger low[i], high[k]]
        0 <= i < n && 0 <= k < high.len() ==> text_lt(low[i].id@, high[k].id@)
}

/// Whether one of the first `n` entries has the identifier.
spec fn has_id_before(s: Seq<DeviceInfo>, n: int, id: Seq<char>) -> bool {
    exists|i: int| 0 <= i < n && (#[trigger] s[i]).id@ == id
}

/// The state of a merge that works from the ends of the two lists towards
/// their fronts: `a` entries of `left` and `b` entries of `right` are still
/// to come, and `done` holds what is merged so far, the greatest identifier
/// first.
spec fn merging(
    left: Seq<DeviceInfo>,
    right: Seq<DeviceInfo>,
    a: int,
    b: int,
    done: Seq<DeviceInfo>,
) -> bool {
    &&& 0 <= a <= left.len()
    &&& 0 <= b <= right.len()
    &&& descending_ids(done)
    &&& all_below(left, a, done)
    &&& all_below(right, b, done)
    &&& forall|k: int|
        0 <= k < done.len() ==> occurs(left, #[trigger] done[k]) || (occurs(right, done[k])
            && !has_id(left, done[k].id@))
    &&& forall|i: int| a <= i < left.len() ==> occurs(done, #[trigger] left[i])
    &&& forall|j: int|
        b <= j < right.len() ==> has_id(done, (#[trigger] right[j]).id@) || has_id_before(
            left,
            a,
            right[j].id@,
        )
}

/// The last entry of `right` that is still to come goes to the merged
/// entries, if its identifier is above all of `left` that is still to come.
proof fn lemma_merge_takes_right(
    left: Seq<DeviceInfo>,
    right: Seq<DeviceInfo>,
    a: int,
    b: int,
    done: Seq<DeviceInfo>,
)
    requires
        ascending_ids(left),
        ascending_ids(right),
        merging(left, right, a, b, done),
        b > 0,
        a == 0 || text_lt(left[a - 1].id@, right[b - 1].id@),
    ensures
        merging(left, right, a, b - 1, done.push(right[b - 1])),
{
    let x = right[b - 1];
    let after = done.push(x);
    let n = done.len() as int;
    lemma_text_lt_irreflexive(x.id@);
    assert forall|i: int| 0 <= i < a implies text_lt((#[trigger] left[i]).id@, x.id@) by {
        if i < a - 1 {
            assert(text_lt(left[i].id@, left[a - 1].id@));
            lemma_text_lt_transitive(left[i].id@, left[a - 1].id@, x.id@);
        }
    }
    assert forall|i: int| 0 <= i < left.len() implies (#[trigger] left[i]).id@ != x.id@ by {
        if i >= a {
            assert(occurs(done, left[i]));
            let k = choose|k: int| 0 <= k < done.len() && #[trigger] done[k] == left[i];
            assert(text_lt(right[b - 1].id@, done[k].id@));
        }
    }
    assert(!has_id(left, x.id@));
    assert(occurs(right, x));
    assert forall|i: int, j: int| 0 <= i < j < after.len() implies text_lt(
        (#[trigger] after[j]).id@,
        (#[trigger] after[i]).id@,
    ) by {
        if j == n {
            assert(text_lt(right[b - 1].id@, done[i].id@));
        } else {
            assert(text_lt(done[j].id@, done[i].id@));
        }
    }
    assert forall|i: int, k: int| 0 <= i < a && 0 <= k < after.len() implies text_lt(
        (#[trigger] left[i]).id@,
        (#[trigger] after[k]).id@,
    ) by {
        if k < n {
            assert(text_lt(left[i].id@, done[k].id@));
        }
    }
    assert forall|j: int, k: int| 0 <= j < b - 1 && 0 <= k < after.len() implies text_lt(
        (#[trigger] right[j]).id@,
        (#[trigger] after[k]).id@,
    ) by {
        if k < n {
            assert(text_lt(right[j].id@, done[k].id@));
        } else {
            assert(text_lt(right[j].id@, right[b - 1].id@));
        }
    }
    assert forall|k: int| 0 <= k < after.len() implies occurs(left, #[trigger] after[k]) || (occurs(
        right,
        after[k],
    ) && !has_id(left, after[k].id@)) by {
        if k < n {
            assert(after[k] == done[k]);
        }
    }
    assert forall|i: int| a <= i < left.len() implies occurs(after, #[trigger] left[i]) by {
        assert(occurs(done, left[i]));
        let k = choose|k: int| 0 <= k < done.len() && #[trigger] done[k] == left[i];
        assert(after[k] == left[i]);
    }
    assert forall|j: int| b - 1 <= j < right.len() implies has_id(after, (#[trigger] right[j]).id@)
        || has_id_before(left, a, right[j].id@) by {
        if j == b - 1 {
            assert(after[n].id@ == right[j].id@);
        } else if has_id(done, right[j].id@) {
            let k = choose|k: int| 0 <= k < done.len() && (#[trigger] done[k]).id@ == right[j].id@;
            assert(after[k].id@ == right[j].id@);
        }
    }
}

/// The last entry of `left` that is still to come goes to the merged
/// entries, if its identifier is above all of `right` that is still to
/// come.
proof fn lemma_merge_takes_left(
    left: Seq<DeviceInfo>,
    right: Seq<DeviceInfo>,
    a: int,
    b: int,
    done: Seq<DeviceInfo>,
)
    requires
        ascending_ids(left),
        ascending_ids(right),
        merging(left, right, a, b, done),
        a > 0,
        b == 0 || text_lt(right[b - 1].id@, left[a - 1].id@),
    ensures
        merging(left, right, a - 1, b, done.push(left[a - 1])),
{
    let x = left[a - 1];
    let after = done.push(x);
    let n = done.len() as int;
    assert(occurs(left, x));
    assert forall|i: int, j: int| 0 <= i < j < after.len() implies text_lt(
        (#[trigger] after[j]).id@,
        (#[trigger] after[i]).id@,
    ) by {
        if j == n {
            assert(text_lt(left[a - 1].id@, done[i].id@));
        } else {
            assert(text_lt(done[j].id@, done[i].id@));
        }
    }
    assert forall|i: int, k: int| 0 <= i < a - 1 && 0 <= k < after.len() implies text_lt(
        (#[trigger] left[i]).id@,
        (#[trigger] after[k]).id@,
    ) by {
        if k < n {
            assert(text_lt(left[i].id@, done[k].id@));
        } else {
            assert(text_lt(left[i].id@, left[a - 1].id@));
        }
    }
    assert forall|j: int, k: int| 0 <= j < b && 0 <= k < after.len() implies text_lt(
        (#[trigger] right[j]).id@,
        (#[trigger] after[k]).id@,
    ) by {
        if k < n {
            assert(text_lt(right[j].id@, done[k].id@));
        } else if j < b - 1 {
            assert(text_lt(right[j].id@, right[b - 1].id@));
            lemma_text_lt_transitive(right[j].id@, right[b - 1].id@, x.id@);
        }
    }
    assert forall|k: int| 0 <= k < after.len() implies occurs(left, #[trigger] after[k]) || (occurs(
        right,
        after[k],
    ) && !has_id(left, after[k].id@)) by {
        if k < n {
            assert(after[k] == done[k]);
        }
    }
    assert forall|i: int| a - 1 <= i < left.len() implies occurs(after, #[trigger] left[i]) by {
        if i == a - 1 {
            assert(after[n] == left[i]);
        } else {
            assert(occurs(done, left[i]));
            let k = choose|k: int| 0 <= k < done.len() && #[trigger] done[k] == left[i];
            assert(after[k] == left[i]);
        }
    }
    assert forall|j: int| b <= j < right.len() implies has_id(after, (#[trigger] right[j]).id@)
        || has_id_before(left, a - 1, right[j].id@) by {
        if has_id(done, right[j].id@) {
            let k = choose|k: int| 0 <= k < done.len() && (#[trigger] done[k]).id@ == right[j].id@;
            assert(after[k].id@ == right[j].id@);
        } else {
            let i = choose|i: int| 0 <= i < a && (#[trigger] left[i]).id@ == right[j].id@;
            if i == a - 1 {
                assert(after[n].id@ == right[j].id@);
            }
        }
    }
}

/// The last entry of `right` that is still to come is left out, if the last
/// entry of `left` that is still to come has the same identifier.
proof fn lemma_merge_drops_right(
    left: Seq<DeviceInfo>,
    right: Seq<DeviceInfo>,
    a: int,
    b: int,
    done: Seq<DeviceInfo>,
)
    requires
        merging(left, right, a, b, done),
        a > 0,
        b > 0,
        left[a - 1].id@ == right[b - 1].id@,
    ensures
        merging(left, right, a, b - 1, done),
{
    assert forall|j: int, k: int| 0 <= j < b - 1 && 0 <= k < done.len() implies text_lt(
        (#[trigger] right[j]).id@,
        (#[trigger] done[k]).id@,
    ) by {
        assert(text_lt(right[j].id@, done[k].id@));
    }
    assert forall|j: int| b - 1 <= j < right.len() implies has_id(done, (#[trigger] right[j]).id@)
        || has_id_before(left, a, right[j].id@) by {
        if j == b - 1 {
            assert(left[a - 1].id@ == right[j].id@);
        }
    }
}

/// When nothing is still to come, the merged entries in the opposite order
/// are the two lists merged.
proof fn lemma_merge_is_done(left: Seq<DeviceInfo>, right: Seq<DeviceInfo>, done: Seq<DeviceInfo>)
    requires
        merging(left, right, 0, 0, done),
    ensures
        merged(left, right, done.reverse()),
{
    let out = done.reverse();
    let n = done.len() as int;
    assert forall|i: int, j: int| 0 <= i < j < out.len() implies text_lt(
        (#[trigger] out[i]).id@,
        (#[trigger] out[j]).id@,
    ) by {
        assert(text_lt(done[n - 1 - i].id@, done[n - 1 - j].id@));
    }
    assert forall|k: int| 0 <= k < out.len() implies occurs(left, #[trigger] out[k]) || (occurs(
        right,
        out[k],
    ) && !has_id(left, out[k].id@)) by {
        assert(out[k] == done[n - 1 - k]);
    }
    assert forall|i: int| 0 <= i < left.len() implies occurs(out, #[trigger] left[i]) by {
        assert(occurs(done, left[i]));
        let k = choose|k: int| 0 <= k < done.len() && #[trigger] done[k] == left[i];
        assert(out[n - 1 - k] == left[i]);
    }
    assert forall|j: int| 0 <= j < right.len() implies has_id(out, (#[trigger] right[j]).id@) by {
        assert(!has_id_before(left, 0, right[j].id@));
        let k = choose|k: int| 0 <= k < done.len() && (#[trigger] done[k]).id@ == right[j].id@;
        assert(out[n - 1 - k].id@ == right[j].id@);
    }
}

/// Merging the results for two stretches of a list gives the result for the
/// two stretches taken together.
proof fn lemma_merged_is_deduplicated(
    a: Seq<DeviceInfo>,
    b: Seq<DeviceInfo>,
    left: Seq<DeviceInfo>,
    right: Seq<DeviceInfo>,
    out: Seq<DeviceInfo>,
)
    requires
        deduplicated(a, left),
        deduplicated(b, right),
        merged(left, right, out),
    ensures
        deduplicated(a + b, out),
{
    let all = a + b;
    assert forall|k: int| 0 <= k < out.len() implies first_among(
        all,
        all.len() as int,
        #[trigger] out[k],
    ) by {
        if occurs(left, out[k]) {
            let m = choose|m: int| 0 <= m < left.len() && #[trigger] left[m] == out[k];
            assert(first_among(a, a.len() as int, left[m]));
            let i = choose|i: int| 0 <= i < a.len() && first_of_id(a, i) && #[trigger] a[i] == left[m];
            assert(all[i] == a[i]);
            assert forall|t: int| 0 <= t < i implies (#[trigger] all[t]).id@ != all[i].id@ by {
                assert(all[t] == a[t]);
            }
            assert(first_of_id(all, i));
        } else {
            let m = choose|m: int| 0 <= m < right.len() && #[trigger] right[m] == out[k];
            assert(first_among(b, b.len() as int, right[m]));
            let i = choose|i: int| 0 <= i < b.len() && first_of_id(b, i) && #[trigger] b[i] == right[m];
            let p = a.len() + i;
            assert(all[p] == b[i]);
            assert forall|t: int| 0 <= t < p implies (#[trigger] all[t]).id@ != all[p].id@ by {
                if t < a.len() {
                    assert(all[t] == a[t]);
                    assert(has_id(left, a[t].id@));
                } else {
                    assert(all[t] == b[t - a.len()]);
                }
            }
            assert(first_of_id(all, p));
        }
    }
    assert forall|i: int| 0 <= i < all.len() implies has_id(out, (#[trigger] all[i]).id@) by {
        if i < a.len() {
            assert(all[i] == a[i]);
            assert(has_id(left, a[i].id@));
            let m = choose|m: int| 0 <= m < left.len() && (#[trigger] left[m]).id@ == a[i].id@;
            assert(occurs(out, left[m]));
            let k = choose|k: int| 0 <= k < out.len() && #[trigger] out[k] == left[m];
            assert(out[k].id@ == all[i].id@);
        } else {
            assert(all[i] == b[i - a.len()]);
            assert(has_id(right, b[i - a.len()].id@));
            let m = choose|m: int|
                0 <= m < right.len() && (#[trigger] right[m]).id@ == b[i - a.len()].id@;
            assert(has_id(out, right[m].id@));
        }
    }
}

/// The entries in the opposite order.
fn reversed(mut items: Vec<DeviceInfo>) -> (out: Vec<DeviceInfo>)
    ensures
        out@ == items@.reverse(),
{
    let ghost given = items@;
    let mut out: Vec<DeviceInfo> = Vec::new();
    while items.len() > 0
        invariant
            items@.len() <= given.len(),
            items@ == given.take(items@.len() as int),
            out@.len() == given.len() - items@.len(),
            forall|k: int| 0 <= k < out@.len() ==> out@[k] == given[given.len() - 1 - k],
        decreases items@.len(),
    {
        let ghost n = items@.len();
        match items.pop() {
            Some(x) => {
                assert(x == given[n - 1]);
                out.push(x);
                assert(items@ =~= given.take(n - 1));
            },
            None => {},
        }
    }
    assert(out@ =~= given.reverse());
    out
}

/// Merges two ascending lists into one ascending list. Of two entries with
/// the same identifier, one from each list, the one of `left` stays.
fn merge_unique(left: Vec<DeviceInfo>, right: Vec<DeviceInfo>) -> (out: Vec<DeviceInfo>)
    requires
        ascending_ids(left@),
        ascending_ids(right@),
    ensures
        merged(left@, right@, out@),
{
    let ghost l0 = left@;
    let ghost r0 = right@;
    let mut l = left;
    let mut r = right;
    let mut done: Vec<DeviceInfo> = Vec::new();
    assert(l@ =~= l0.take(l@.len() as int));
    assert(r@ =~= r0.take(r@.len() as int));
    while l.len() > 0 || r.len() > 0
        invariant
            ascending_ids(l0),
            ascending_ids(r0),
            l@.len() <= l0.len(),
            r@.len() <= r0.len(),
            l@ == l0.take(l@.len() as int),
            r@ == r0.take(r@.len() as int),
            merging(l0, r0, l@.len() as int, r@.len() as int, done@),
        decreases l@.len() + r@.len(),
    {
        let ghost a = l@.len() as int;
        let ghost b = r@.len() as int;
        // 0: both lists end in the same identifier; 1: take from the left; 2: from the right
        let choice: u8 = if r.len() == 0 {
            1
        } else if l.len() == 0 {
            2
        } else {
            let li: usize = l.len() - 1;
            let ri: usize = r.len() - 1;
            assert(l@[li as int] == l0[a - 1]);
            assert(r@[ri as int] == r0[b - 1]);
            if str_lt(l[li].id.as_str(), r[ri].id.as_str()) {
                2
            } else if str_lt(r[ri].id.as_str(), l[li].id.as_str()) {
                1
            } else {
                proof {
                    lemma_text_lt_total(l0[a - 1].id@, r0[b - 1].id@);
                }
                0
            }
        };
        if choice == 2 {
            proof {
                lemma_merge_takes_right(l0, r0, a, b, done@);
            }
            match r.pop() {
                Some(x) => {
                    assert(x == r0[b - 1]);
                    assert(r@ =~= r0.take(b - 1));
                    done.push(x);
                },
                None => {},
            }
        } else if choice == 1 {
            proof {
                lemma_merge_takes_left(l0, r0, a, b, done@);
            }
            match l.pop() {
                Some(x) => {
                    assert(x == l0[a - 1]);
                    assert(l@ =~= l0.take(a - 1));
                    done.push(x);
                },
                None => {},
            }
        } else {
            proof {
                lemma_merge_drops_right(l0, r0, a, b, done@);
            }
            match r.pop() {
                Some(_) => {
                    assert(r@ =~= r0.take(b - 1));
                },
                None => {},
            }
        }
    }
    proof {
        lemma_merge_is_done(l0, r0, done@);
    }
    reversed(done)
}

/// Removes duplicates: the result holds, in ascending order of the
/// identifiers, the first entry of `all` for each identifier. The list is
/// halved, each half is done by itself, and the two results are merged.
pub fn dedup_by_id(all: Vec<DeviceInfo>) -> (out: Vec<DeviceInfo>)
    ensures
        deduplicated(all@, out@),
    decreases all@.len(),
{
    if all.len() <= 1 {
        proof {
            if all@.len() == 1 {
                assert(first_of_id(all@, 0));
                assert(first_among(all@, 1, all@[0]));
            }
        }
        return all;
    }
    let mut left_half = all;
    let mid: usize = left_half.len() / 2;
    let right_half = left_half.split_off(mid);
    proof {
        assert(all@ =~= left_half@ + right_half@);
    }
    let ghost a = left_half@;
    let ghost b = right_half@;
    let left = dedup_by_id(left_half);
    let right = dedup_by_id(right_half);
    let out = merge_unique(left, right);
    proof {
        lemma_merged_is_deduplicated(a, b, left@, right@, out@);
    }
    out
}

proof fn lemma_first_failure_stays(results: Seq<YKeyResult<Vec<DeviceInfo>>>, k: int, n: int)
    requires
        0 <= k < n <= results.len(),
        first_failure(results.take(k)) is None,
        results[k] is Err,
    ensures
        first_failure(results.take(n)) == Some(results[k]->Err_0@),
    decreases n,
{
    assert(results.take(n).drop_last() =~= results.take(n - 1));
    if n - 1 > k {
        lemma_first_failure_stays(results, k, n - 1);
    }
}

/// Merges what the sources report. If a source failed, the error of the
/// first that did comes back; otherwise everything found, one entry per
/// identifier: the first one met, the sources taken in their order and each
/// source's entries in theirs, and the entries in ascending order of the
/// identifiers.
pub fn merge_scans(results: Vec<YKeyResult<Vec<DeviceInfo>>>) -> (r: YKeyResult<Vec<DeviceInfo>>)
    ensures
        match r {
            Ok(out) => first_failure(results@) is None && deduplicated(found(results@), out@),
            Err(e) => first_failure(results@) == Some(e@),
        },
{
    let mut all: Vec<DeviceInfo> = Vec::new();
    let ghost results_seq = results@;
    for result in it: results
        invariant
            it.seq() == results_seq,
            first_failure(results_seq.take(it.index() as int)) is None,
            all@ == found(results_seq.take(it.index() as int)),
    {
        let ghost k = it.index() as int;
        assert(results_seq.take(k + 1).drop_last() =~= results_seq.take(k));
        match result {
            Ok(mut devices) => {
                all.append(&mut devices);
            },
            Err(e) => {
                proof {
                    lemma_first_failure_stays(results_seq, k, results_seq.len() as int);
                    assert(results_seq.take(results_seq.len() as int) =~= results_seq);
                }
                return Err(e);
            },
        }
    }
    assert(results_seq.take(results_seq.len() as int) =~= results_seq);
    Ok(dedup_by_id(all))
}

/// Whether the entry at `i` is the first one with the identifier.
pub open spec fn is_first_with_id(s: Seq<DeviceInfo>, id: Seq<char>, i: int) -> bool {
    &&& 0 <= i < s.len()
    &&& s[i].id@ == id
    &&& forall|k: int| 0 <= k < i ==> (#[trigger] s[k]).id@ != id
}

/// The place of the first entry with the identifier, where there is one.
pub open spec fn first_with_id(s: Seq<DeviceInfo>, id: Seq<char>) -> int {
    choose|i: int| is_first_with_id(s, id, i)
}

/// The first entry with an identifier has one place only.
pub proof fn lemma_first_with_id(s: Seq<DeviceInfo>, id: Seq<char>, i: int)
    requires
        is_first_with_id(s, id, i),
    ensures
        has_id(s, id),
        first_with_id(s, id) == i,
{
    let j = first_with_id(s, id);
    assert(is_first_with_id(s, id, j));
    if j < i {
        assert(s[j].id@ != id);
    } else if i < j {
        assert(s[i].id@ != id);
    }
}

/// The place of the first entry with the identifier, if there is one.
pub fn find_device(devices: &Vec<DeviceInfo>, device_id: &str) -> (r: Option<usize>)
    ensures
        match r {
            Some(i) => has_id(devices@, device_id@) && i == first_with_id(devices@, device_id@)
                && is_first_with_id(devices@, device_id@, i as int),
            None => !has_id(devices@, device_id@),
        },
{
    let mut i: usize = 0;
    while i < devices.len()
        invariant
            i <= devices@.len(),
            forall|k: int| 0 <= k < i ==> (#[trigger] devices@[k]).id@ != device_id@,
        decreases devices@.len() - i,
    {
        if str_eq(devices[i].id.as_str(), device_id) {
            proof {
                lemma_first_with_id(devices@, device_id@, i as int);
            }
            return Some(i);
        }
        i = i + 1;
    }
    None
}

/// Whether a device with the identifier is among those found.
pub fn is_device_available(devices: &Vec<DeviceInfo>, device_id: &str) -> (r: bool)
    ensures
        r == has_id(devices@, device_id@),
{
    find_device(devices, device_id).is_some()
}

} // verus!
