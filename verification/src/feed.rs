//! The feed table as mathematics: rows newest first, one row per address,
//! and what an upsert and a read do to them.

use crate::types::Moment;
use vstd::prelude::*;

verus! {

/// The content of one status row.
pub struct StatusView {
    pub uri: Seq<char>,
    pub author_did: Seq<char>,
    pub status: Seq<char>,
    pub created_at: Moment,
    pub indexed_at: Moment,
}

/// No two rows share an address.
pub open spec fn unique_uris(rows: Seq<StatusView>) -> bool {
    forall|i: int, j: int| 0 <= i < j < rows.len() ==> rows[i].uri != rows[j].uri
}

/// No row is indexed earlier than a row behind it.
pub open spec fn newest_first(rows: Seq<StatusView>) -> bool {
    forall|i: int, j: int|
        0 <= i < j < rows.len() ==> !(#[trigger] rows[i]).indexed_at.before(
            (#[trigger] rows[j]).indexed_at,
        )
}

/// The invariant of a feed table.
pub open spec fn well_formed(rows: Seq<StatusView>) -> bool {
    unique_uris(rows) && newest_first(rows)
}

/// Some row has the address `uri`.
pub open spec fn has_uri(rows: Seq<StatusView>, uri: Seq<char>) -> bool {
    exists|i: int| 0 <= i < rows.len() && (#[trigger] rows[i]).uri == uri
}

/// The rows of `rows` are pairwise indexed at different instants.
pub open spec fn distinct_instants(rows: Seq<StatusView>) -> bool {
    forall|i: int, j: int|
        0 <= i < j < rows.len() ==> (#[trigger] rows[i]).indexed_at.before(
            (#[trigger] rows[j]).indexed_at,
        ) || rows[j].indexed_at.before(rows[i].indexed_at)
}

/// Each row is indexed later than the row behind it.
pub open spec fn strictly_newest_first(rows: Seq<StatusView>) -> bool {
    forall|i: int, j: int|
        0 <= i < j < rows.len() ==> (#[trigger] rows[j]).indexed_at.before(
            (#[trigger] rows[i]).indexed_at,
        )
}

/// The test "has another address than `uri`".
pub open spec fn other_uri(uri: Seq<char>) -> spec_fn(StatusView) -> bool {
    |r: StatusView| r.uri != uri
}

/// The test "has the address `uri`".
pub open spec fn same_uri(uri: Seq<char>) -> spec_fn(StatusView) -> bool {
    |r: StatusView| r.uri == uri
}

/// The test "is indexed later than `at`".
pub open spec fn newer_than(at: Moment) -> spec_fn(StatusView) -> bool {
    |r: StatusView| at.before(r.indexed_at)
}

/// The test "is by `author`", which every row passes where no author is asked for.
pub open spec fn by_author(author: Option<Seq<char>>) -> spec_fn(StatusView) -> bool {
    |r: StatusView|
        match author {
            Some(a) => r.author_did == a,
            None => true,
        }
}

/// The rows with another address than `uri`, in their order.
pub open spec fn without(rows: Seq<StatusView>, uri: Seq<char>) -> Seq<StatusView> {
    rows.filter(other_uri(uri))
}

/// How many rows have the address `uri`.
pub open spec fn count_of(rows: Seq<StatusView>, uri: Seq<char>) -> nat {
    rows.filter(same_uri(uri)).len()
}

/// Where a row indexed at `at` goes: behind the rows that are newer.
pub open spec fn slot(rows: Seq<StatusView>, at: Moment) -> int {
    rows.filter(newer_than(at)).len() as int
}

/// The table after `row` was written: the row that had its address is gone,
/// and `row` stands behind the rows that are newer than it.
pub open spec fn upsert(rows: Seq<StatusView>, row: StatusView) -> Seq<StatusView> {
    let rest = without(rows, row.uri);
    rest.insert(slot(rest, row.indexed_at), row)
}

/// The table after each row of `writes` was written to `rows`, first to last.
pub open spec fn upsert_all(rows: Seq<StatusView>, writes: Seq<StatusView>) -> Seq<StatusView>
    decreases writes.len(),
{
    if writes.len() == 0 {
        rows
    } else {
        upsert(upsert_all(rows, writes.drop_last()), writes.last())
    }
}

/// The first `count` rows of `rows`, all of them where there are fewer.
pub open spec fn first_rows(rows: Seq<StatusView>, count: nat) -> Seq<StatusView> {
    if count < rows.len() {
        rows.take(count as int)
    } else {
        rows
    }
}

/// What a read gives: of the rows by `author` (of all rows where none is
/// asked for), the first `count` in the table's order.
pub open spec fn feed(rows: Seq<StatusView>, author: Option<Seq<char>>, count: nat) -> Seq<
    StatusView,
> {
    first_rows(rows.filter(by_author(author)), count)
}

/// A test that every row passes keeps every row.
proof fn lemma_filter_keeps_all(rows: Seq<StatusView>, pred: spec_fn(StatusView) -> bool)
    requires
        forall|i: int| 0 <= i < rows.len() ==> pred(#[trigger] rows[i]),
    ensures
        rows.filter(pred) == rows,
    decreases rows.len(),
{
    reveal(Seq::filter);
    if rows.len() > 0 {
        lemma_filter_keeps_all(rows.drop_last(), pred);
        assert(rows.drop_last().push(rows.last()) =~= rows);
    }
}

/// A test that no row passes keeps no row.
proof fn lemma_filter_keeps_none(rows: Seq<StatusView>, pred: spec_fn(StatusView) -> bool)
    requires
        forall|i: int| 0 <= i < rows.len() ==> !pred(#[trigger] rows[i]),
    ensures
        rows.filter(pred) == Seq::<StatusView>::empty(),
    decreases rows.len(),
{
    reveal(Seq::filter);
    if rows.len() > 0 {
        lemma_filter_keeps_none(rows.drop_last(), pred);
    } else {
        assert(rows =~= Seq::<StatusView>::empty());
    }
}

/// A test that only the row at `k` fails removes that row.
proof fn lemma_filter_drops_one(
    rows: Seq<StatusView>,
    pred: spec_fn(StatusView) -> bool,
    k: int,
)
    requires
        0 <= k < rows.len(),
        !pred(rows[k]),
        forall|i: int| 0 <= i < rows.len() && i != k ==> pred(#[trigger] rows[i]),
    ensures
        rows.filter(pred) == rows.remove(k),
{
    let head = rows.subrange(0, k);
    let mid = seq![rows[k]];
    let tail = rows.subrange(k + 1, rows.len() as int);
    assert(rows =~= head + mid + tail);
    Seq::filter_distributes_over_add(head + mid, tail, pred);
    Seq::filter_distributes_over_add(head, mid, pred);
    lemma_filter_keeps_all(head, pred);
    lemma_filter_keeps_all(tail, pred);
    lemma_filter_keeps_none(mid, pred);
    assert(head + Seq::<StatusView>::empty() + tail =~= rows.remove(k));
}

/// A test that exactly the first `k` rows pass keeps those.
proof fn lemma_filter_keeps_front(
    rows: Seq<StatusView>,
    pred: spec_fn(StatusView) -> bool,
    k: int,
)
    requires
        0 <= k <= rows.len(),
        forall|i: int| 0 <= i < k ==> pred(#[trigger] rows[i]),
        forall|i: int| k <= i < rows.len() ==> !pred(#[trigger] rows[i]),
    ensures
        rows.filter(pred) == rows.take(k),
{
    let head = rows.take(k);
    let tail = rows.skip(k);
    assert(rows =~= head + tail);
    Seq::filter_distributes_over_add(head, tail, pred);
    lemma_filter_keeps_all(head, pred);
    lemma_filter_keeps_none(tail, pred);
    assert(head + Seq::<StatusView>::empty() =~= head);
}

/// Taking the row of an address away from a table that has none leaves it as it is.
proof fn lemma_without_absent(rows: Seq<StatusView>, uri: Seq<char>)
    requires
        !has_uri(rows, uri),
    ensures
        without(rows, uri) == rows,
{
    lemma_filter_keeps_all(rows, other_uri(uri));
}

/// In a table of unique addresses, taking the row of an address away removes
/// the one row that has it.
proof fn lemma_without_at(rows: Seq<StatusView>, uri: Seq<char>, k: int)
    requires
        unique_uris(rows),
        0 <= k < rows.len(),
        rows[k].uri == uri,
    ensures
        without(rows, uri) == rows.remove(k),
{
    lemma_filter_drops_one(rows, other_uri(uri), k);
}

/// In a table that is newest first, the slot of an instant is the first
/// position whose row is not newer.
proof fn lemma_slot_at(rows: Seq<StatusView>, at: Moment, k: int)
    requires
        newest_first(rows),
        0 <= k <= rows.len(),
        forall|i: int| 0 <= i < k ==> at.before((#[trigger] rows[i]).indexed_at),
        k < rows.len() ==> !at.before(rows[k].indexed_at),
    ensures
        slot(rows, at) == k,
{
    assert forall|i: int| k <= i < rows.len() implies !newer_than(at)(#[trigger] rows[i]) by {
        if i > k {
            assert(!rows[k].indexed_at.before(rows[i].indexed_at));
        }
    }
    lemma_filter_keeps_front(rows, newer_than(at), k);
}

/// What `without` leaves: no row of the address, and every other row in its order.
proof fn lemma_without_properties(rows: Seq<StatusView>, uri: Seq<char>)
    requires
        well_formed(rows),
    ensures
        well_formed(without(rows, uri)),
        !has_uri(without(rows, uri), uri),
        without(rows, uri).len() <= rows.len(),
        forall|u: Seq<char>| u != uri ==> (has_uri(without(rows, uri), u) <==> has_uri(rows, u)),
        forall|i: int|
            0 <= i < without(rows, uri).len() ==> rows.contains(#[trigger] without(rows, uri)[i]),
        forall|i: int|
            0 <= i < rows.len() && rows[i].uri != uri ==> without(rows, uri).contains(
                #[trigger] rows[i],
            ),
{
    let rest = without(rows, uri);
    if has_uri(rows, uri) {
        let k = choose|k: int| 0 <= k < rows.len() && (#[trigger] rows[k]).uri == uri;
        lemma_without_at(rows, uri, k);
        assert forall|i: int| 0 <= i < rest.len() implies rows.contains(#[trigger] rest[i]) by {
            if i < k {
                assert(rest[i] == rows[i]);
            } else {
                assert(rest[i] == rows[i + 1]);
            }
        }
        assert forall|i: int| 0 <= i < rows.len() && rows[i].uri != uri implies rest.contains(
            #[trigger] rows[i],
        ) by {
            if i < k {
                assert(rest[i] == rows[i]);
            } else {
                assert(rest[i - 1] == rows[i]);
            }
        }
        assert forall|i: int, j: int| 0 <= i < j < rest.len() implies rest[i].uri != rest[j].uri
            && !(#[trigger] rest[i]).indexed_at.before((#[trigger] rest[j]).indexed_at) by {
            let a = if i < k { i } else { i + 1 };
            let b = if j < k { j } else { j + 1 };
            assert(rest[i] == rows[a] && rest[j] == rows[b]);
        }
        assert(!has_uri(rest, uri)) by {
            if has_uri(rest, uri) {
                let i = choose|i: int| 0 <= i < rest.len() && (#[trigger] rest[i]).uri == uri;
                let a = if i < k { i } else { i + 1 };
                assert(rest[i] == rows[a]);
            }
        }
        assert forall|u: Seq<char>| u != uri implies (has_uri(rest, u) <==> has_uri(rows, u)) by {
            if has_uri(rest, u) {
                let i = choose|i: int| 0 <= i < rest.len() && (#[trigger] rest[i]).uri == u;
                let a = if i < k { i } else { i + 1 };
                assert(rows[a].uri == u);
            }
            if has_uri(rows, u) {
                let a = choose|a: int| 0 <= a < rows.len() && (#[trigger] rows[a]).uri == u;
                let i = if a < k { a } else { a - 1 };
                assert(rest[i].uri == u);
            }
        }
    } else {
        lemma_without_absent(rows, uri);
        assert forall|i: int| 0 <= i < rest.len() implies rows.contains(#[trigger] rest[i]) by {
            assert(rest[i] == rows[i]);
        }
        assert forall|i: int| 0 <= i < rows.len() && rows[i].uri != uri implies rest.contains(
            #[trigger] rows[i],
        ) by {
            assert(rest[i] == rows[i]);
        }
    }
}

/// The boundary between the rows that are newer than `at` and the rest.
proof fn lemma_slot_bounds(rows: Seq<StatusView>, at: Moment)
    requires
        newest_first(rows),
    ensures
        0 <= slot(rows, at) <= rows.len(),
        forall|i: int| 0 <= i < slot(rows, at) ==> at.before((#[trigger] rows[i]).indexed_at),
        forall|i: int|
            slot(rows, at) <= i < rows.len() ==> !at.before((#[trigger] rows[i]).indexed_at),
{
    let k = first_not_newer(rows, at, 0);
    lemma_first_not_newer(rows, at, 0);
    lemma_slot_at(rows, at, k);
    assert forall|i: int| k <= i < rows.len() implies !at.before(
        (#[trigger] rows[i]).indexed_at,
    ) by {
        if i > k {
            assert(!rows[k].indexed_at.before(rows[i].indexed_at));
        }
    }
}

/// The first position from `from` on whose row is not newer than `at`.
spec fn first_not_newer(rows: Seq<StatusView>, at: Moment, from: int) -> int
    decreases rows.len() - from,
{
    if 0 <= from < rows.len() && at.before(rows[from].indexed_at) {
        first_not_newer(rows, at, from + 1)
    } else {
        from
    }
}

/// `first_not_newer` finds what its name says.
proof fn lemma_first_not_newer(rows: Seq<StatusView>, at: Moment, from: int)
    requires
        0 <= from <= rows.len(),
    ensures
        from <= first_not_newer(rows, at, from) <= rows.len(),
        forall|i: int|
            from <= i < first_not_newer(rows, at, from) ==> at.before(
                (#[trigger] rows[i]).indexed_at,
            ),
        first_not_newer(rows, at, from) < rows.len() ==> !at.before(
            rows[first_not_newer(rows, at, from)].indexed_at,
        ),
    decreases rows.len() - from,
{
    if from < rows.len() && at.before(rows[from].indexed_at) {
        lemma_first_not_newer(rows, at, from + 1);
    }
}

/// `front` stands in `rows` at a position before one of `back`.
spec fn in_order(rows: Seq<StatusView>, front: StatusView, back: StatusView) -> bool {
    exists|a: int, b: int|
        0 <= a < b < rows.len() && #[trigger] rows[a] == front && #[trigger] rows[b] == back
}

/// A filter keeps rows of the table, in the table's order.
proof fn lemma_filter_order(rows: Seq<StatusView>, pred: spec_fn(StatusView) -> bool)
    ensures
        forall|i: int|
            0 <= i < rows.filter(pred).len() ==> pred(#[trigger] rows.filter(pred)[i])
                && rows.contains(rows.filter(pred)[i]),
        forall|i: int, j: int|
            0 <= i < j < rows.filter(pred).len() ==> in_order(
                rows,
                #[trigger] rows.filter(pred)[i],
                #[trigger] rows.filter(pred)[j],
            ),
    decreases rows.len(),
{
    reveal(Seq::filter);
    let kept = rows.filter(pred);
    if rows.len() > 0 {
        let init = rows.drop_last();
        let last = rows.len() - 1;
        lemma_filter_order(init, pred);
        let sub = init.filter(pred);
        assert forall|i: int| 0 <= i < kept.len() implies pred(#[trigger] kept[i])
            && rows.contains(kept[i]) by {
            if i < sub.len() {
                assert(init.contains(sub[i]));
                let a = choose|a: int| 0 <= a < init.len() && init[a] == sub[i];
                assert(rows[a] == kept[i]);
            } else {
                assert(rows[last] == kept[i]);
            }
        }
        assert forall|i: int, j: int| 0 <= i < j < kept.len() implies in_order(
            rows,
            #[trigger] kept[i],
            #[trigger] kept[j],
        ) by {
            if j < sub.len() {
                assert(in_order(init, sub[i], sub[j]));
                let (a, b) = choose|a: int, b: int|
                    0 <= a < b < init.len() && #[trigger] init[a] == sub[i] && #[trigger] init[b]
                        == sub[j];
                assert(rows[a] == kept[i] && rows[b] == kept[j]);
            } else {
                assert(init.contains(sub[i]));
                let a = choose|a: int| 0 <= a < init.len() && init[a] == sub[i];
                assert(rows[a] == kept[i] && rows[last] == kept[j]);
            }
        }
    }
}

/// What a read gives, said row by row: at most `count` rows of the table, all
/// by the author asked for, in the table's order, and none left out that
/// stands in front of one that was taken.
pub proof fn feed_properties(rows: Seq<StatusView>, author: Option<Seq<char>>, count: nat)
    requires
        well_formed(rows),
    ensures
        feed(rows, author, count).len() <= count,
        feed(rows, author, count).len() <= rows.len(),
        well_formed(feed(rows, author, count)),
        forall|i: int|
            0 <= i < feed(rows, author, count).len() ==> by_author(author)(
                #[trigger] feed(rows, author, count)[i],
            ) && rows.contains(feed(rows, author, count)[i]),
        author is None ==> feed(rows, author, count) == first_rows(rows, count),
        feed(rows, author, count).len() < count ==> forall|i: int|
            0 <= i < rows.len() && by_author(author)(rows[i]) ==> feed(
                rows,
                author,
                count,
            ).contains(#[trigger] rows[i]),
        forall|i: int, j: int|
            #![trigger rows[i], feed(rows, author, count)[j]]
            0 <= i < rows.len() && by_author(author)(rows[i]) && 0 <= j < feed(
                rows,
                author,
                count,
            ).len() && !feed(rows, author, count).contains(rows[i]) ==> !feed(
                rows,
                author,
                count,
            )[j].indexed_at.before(rows[i].indexed_at),
{
    let pred = by_author(author);
    let kept = rows.filter(pred);
    let out = feed(rows, author, count);
    lemma_filter_order(rows, pred);
    rows.lemma_filter_len(pred);
    assert forall|i: int, j: int| 0 <= i < j < out.len() implies out[i].uri != out[j].uri && !(
    #[trigger] out[i]).indexed_at.before((#[trigger] out[j]).indexed_at) by {
        assert(out[i] == kept[i] && out[j] == kept[j]);
        assert(in_order(rows, kept[i], kept[j]));
        let (a, b) = choose|a: int, b: int|
            0 <= a < b < rows.len() && #[trigger] rows[a] == kept[i] && #[trigger] rows[b]
                == kept[j];
    }
    assert forall|i: int| 0 <= i < out.len() implies pred(#[trigger] out[i]) && rows.contains(
        out[i],
    ) by {
        assert(out[i] == kept[i]);
    }
    if author is None {
        lemma_filter_keeps_all(rows, pred);
    }
    if out.len() < count {
        assert(out == kept);
        assert forall|i: int| 0 <= i < rows.len() && pred(rows[i]) implies out.contains(
            #[trigger] rows[i],
        ) by {
            rows.lemma_filter_contains(pred, i);
        }
    }
    assert forall|i: int, j: int|
        #![trigger rows[i], out[j]]
        0 <= i < rows.len() && pred(rows[i]) && 0 <= j < out.len() && !out.contains(
            rows[i],
        ) implies !out[j].indexed_at.before(rows[i].indexed_at) by {
        rows.lemma_filter_contains(pred, i);
        let m = choose|m: int| 0 <= m < kept.len() && kept[m] == rows[i];
        if m < out.len() {
            assert(out[m] == rows[i]);
        } else {
            assert(out[j] == kept[j]);
            assert(in_order(rows, kept[j], kept[m]));
            let (a, b) = choose|a: int, b: int|
                0 <= a < b < rows.len() && #[trigger] rows[a] == kept[j] && #[trigger] rows[b]
                    == kept[m];
        }
    }
}

/// What a write leaves: a well-formed table that holds `row`, holds no other
/// row of its address, and holds every other row that was there, and no more.
pub proof fn upsert_properties(rows: Seq<StatusView>, row: StatusView)
    requires
        well_formed(rows),
    ensures
        well_formed(upsert(rows, row)),
        upsert(rows, row).contains(row),
        count_of(upsert(rows, row), row.uri) == 1,
        has_uri(rows, row.uri) ==> upsert(rows, row).len() == rows.len(),
        !has_uri(rows, row.uri) ==> upsert(rows, row).len() == rows.len() + 1,
        forall|i: int|
            0 <= i < upsert(rows, row).len() && (#[trigger] upsert(rows, row)[i]).uri == row.uri
                ==> upsert(rows, row)[i] == row,
        forall|i: int|
            0 <= i < upsert(rows, row).len() && (#[trigger] upsert(rows, row)[i]).uri != row.uri
                ==> rows.contains(upsert(rows, row)[i]),
        forall|i: int|
            0 <= i < rows.len() && rows[i].uri != row.uri ==> upsert(rows, row).contains(
                #[trigger] rows[i],
            ),
        without(upsert(rows, row), row.uri) == without(rows, row.uri),
{
    let rest = without(rows, row.uri);
    let k = slot(rest, row.indexed_at);
    let after = upsert(rows, row);
    lemma_without_properties(rows, row.uri);
    lemma_slot_bounds(rest, row.indexed_at);
    assert(after.len() == rest.len() + 1);
    assert(after[k] == row);
    assert forall|i: int| 0 <= i < after.len() && i != k implies (#[trigger] after[i]).uri
        != row.uri && rest.contains(after[i]) by {
        let a = if i < k { i } else { i - 1 };
        assert(after[i] == rest[a]);
    }
    assert forall|i: int, j: int| 0 <= i < j < after.len() implies after[i].uri != after[j].uri
        && !(#[trigger] after[i]).indexed_at.before((#[trigger] after[j]).indexed_at) by {
        let a = if i < k { i } else { i - 1 };
        let b = if j < k { j } else { j - 1 };
        if i != k {
            assert(after[i] == rest[a]);
        }
        if j != k {
            assert(after[j] == rest[b]);
        }
    }
    assert forall|i: int| 0 <= i < after.len() && (#[trigger] after[i]).uri
        != row.uri implies rows.contains(after[i]) by {
        assert(rest.contains(after[i]));
        let a = choose|a: int| 0 <= a < rest.len() && rest[a] == after[i];
        assert(rows.contains(rest[a]));
    }
    assert forall|i: int| 0 <= i < rows.len() && rows[i].uri != row.uri implies after.contains(
        #[trigger] rows[i],
    ) by {
        assert(rest.contains(rows[i]));
        let a = choose|a: int| 0 <= a < rest.len() && rest[a] == rows[i];
        let b = if a < k { a } else { a + 1 };
        assert(after[b] == rest[a]);
    }
    lemma_filter_drops_one(after, other_uri(row.uri), k);
    assert(after.remove(k) =~= rest);
    lemma_count_one(after, row.uri, k);
    if has_uri(rows, row.uri) {
        let h = choose|h: int| 0 <= h < rows.len() && (#[trigger] rows[h]).uri == row.uri;
        lemma_without_at(rows, row.uri, h);
    } else {
        lemma_without_absent(rows, row.uri);
    }
}

/// How many rows of other addresses are newer than `row`.
pub open spec fn newer_rows(rows: Seq<StatusView>, row: StatusView) -> int {
    slot(without(rows, row.uri), row.indexed_at)
}

/// Where a written row stands: at the index that is the number of rows of
/// other addresses that are newer than it. Every row in front of it is newer,
/// and no row behind it is.
pub proof fn upsert_places_the_row(rows: Seq<StatusView>, row: StatusView)
    requires
        well_formed(rows),
    ensures
        0 <= newer_rows(rows, row) < upsert(rows, row).len(),
        newer_rows(rows, row) <= rows.len(),
        upsert(rows, row)[newer_rows(rows, row)] == row,
        forall|i: int|
            0 <= i < newer_rows(rows, row) ==> row.indexed_at.before(
                (#[trigger] upsert(rows, row)[i]).indexed_at,
            ),
        forall|i: int|
            newer_rows(rows, row) < i < upsert(rows, row).len() ==> !row.indexed_at.before(
                (#[trigger] upsert(rows, row)[i]).indexed_at,
            ),
{
    let rest = without(rows, row.uri);
    let k = slot(rest, row.indexed_at);
    let after = upsert(rows, row);
    lemma_without_properties(rows, row.uri);
    lemma_slot_bounds(rest, row.indexed_at);
    assert forall|i: int| 0 <= i < k implies row.indexed_at.before(
        (#[trigger] after[i]).indexed_at,
    ) by {
        assert(after[i] == rest[i]);
    }
    assert forall|i: int| k < i < after.len() implies !row.indexed_at.before(
        (#[trigger] after[i]).indexed_at,
    ) by {
        assert(after[i] == rest[i - 1]);
    }
}

/// A written row is read at once. Where fewer than `count` rows of other
/// addresses are newer than it, a read of `count` rows holds it, whether the
/// read asks for all authors or for its own; a read of all authors holds it
/// at the index that is the number of those newer rows.
pub proof fn a_written_row_is_read(
    rows: Seq<StatusView>,
    row: StatusView,
    author: Option<Seq<char>>,
    count: nat,
)
    requires
        well_formed(rows),
        by_author(author)(row),
        newer_rows(rows, row) < count,
    ensures
        feed(upsert(rows, row), author, count).contains(row),
        author is None ==> newer_rows(rows, row) < feed(upsert(rows, row), author, count).len()
            && feed(upsert(rows, row), author, count)[newer_rows(rows, row)] == row,
{
    let after = upsert(rows, row);
    let k = newer_rows(rows, row);
    let pred = by_author(author);
    upsert_places_the_row(rows, row);
    let head = after.take(k);
    let mid = seq![row];
    let tail = after.skip(k + 1);
    assert(after =~= head + mid + tail);
    Seq::filter_distributes_over_add(head + mid, tail, pred);
    Seq::filter_distributes_over_add(head, mid, pred);
    lemma_filter_keeps_all(mid, pred);
    head.lemma_filter_len(pred);
    let kept = after.filter(pred);
    let at = head.filter(pred).len() as int;
    assert(kept == head.filter(pred) + mid + tail.filter(pred));
    assert(kept[at] == row);
    assert(at <= k);
    let read = feed(after, author, count);
    assert(read[at] == row);
    if author is None {
        lemma_filter_keeps_all(head, pred);
    }
}

/// The newest write is read first. Where no row of another address is newer
/// than the written row, a read of all authors begins with it, and a read of
/// one row of its author gives it.
pub proof fn the_newest_write_is_read_first(rows: Seq<StatusView>, row: StatusView, count: nat)
    requires
        well_formed(rows),
        newer_rows(rows, row) == 0,
        count >= 1,
    ensures
        feed(upsert(rows, row), None, count)[0] == row,
        feed(upsert(rows, row), Some(row.author_did), 1) == seq![row],
{
    a_written_row_is_read(rows, row, None, count);
    a_written_row_is_read(rows, row, Some(row.author_did), 1);
    let own = feed(upsert(rows, row), Some(row.author_did), 1);
    assert(own.len() <= 1);
    assert(own =~= seq![row]);
}

/// Where only the row at `k` has the address, the address counts once.
proof fn lemma_count_one(rows: Seq<StatusView>, uri: Seq<char>, k: int)
    requires
        0 <= k < rows.len(),
        rows[k].uri == uri,
        forall|i: int| 0 <= i < rows.len() && i != k ==> (#[trigger] rows[i]).uri != uri,
    ensures
        count_of(rows, uri) == 1,
{
    let pred = same_uri(uri);
    let head = rows.subrange(0, k);
    let mid = seq![rows[k]];
    let tail = rows.subrange(k + 1, rows.len() as int);
    assert(rows =~= head + mid + tail);
    Seq::filter_distributes_over_add(head + mid, tail, pred);
    Seq::filter_distributes_over_add(head, mid, pred);
    lemma_filter_keeps_none(head, pred);
    lemma_filter_keeps_all(mid, pred);
    lemma_filter_keeps_none(tail, pred);
}

/// Last write wins: after two writes to one address the table is what the
/// second write alone would have left, so it holds exactly one row of that
/// address, and that row is the second one.
pub proof fn upsert_twice_keeps_the_later(
    rows: Seq<StatusView>,
    first: StatusView,
    second: StatusView,
)
    requires
        well_formed(rows),
        first.uri == second.uri,
    ensures
        upsert(upsert(rows, first), second) == upsert(rows, second),
        count_of(upsert(upsert(rows, first), second), second.uri) == 1,
        upsert(upsert(rows, first), second).contains(second),
        forall|i: int|
            0 <= i < upsert(upsert(rows, first), second).len() && (#[trigger] upsert(
                upsert(rows, first),
                second,
            )[i]).uri == second.uri ==> upsert(upsert(rows, first), second)[i] == second,
{
    upsert_properties(rows, first);
    upsert_properties(upsert(rows, first), second);
}

/// A write that repeats the payload of an earlier write to the same address
/// at a later instant leaves one row of that address: the payload both
/// agreed on, indexed at the later write's instant.
pub proof fn dual_write_converges(rows: Seq<StatusView>, local: StatusView, network: StatusView)
    requires
        well_formed(rows),
        local.uri == network.uri,
        local.author_did == network.author_did,
        local.status == network.status,
        local.created_at == network.created_at,
        local.indexed_at.before(network.indexed_at),
    ensures
        count_of(upsert(upsert(rows, local), network), local.uri) == 1,
        forall|i: int|
            0 <= i < upsert(upsert(rows, local), network).len() && (#[trigger] upsert(
                upsert(rows, local),
                network,
            )[i]).uri == local.uri ==> {
                let row = upsert(upsert(rows, local), network)[i];
                &&& row.author_did == local.author_did
                &&& row.status == local.status
                &&& row.created_at == local.created_at
                &&& row.indexed_at == network.indexed_at
                &&& local.indexed_at.before(row.indexed_at)
            },
        has_uri(upsert(upsert(rows, local), network), local.uri),
{
    upsert_twice_keeps_the_later(rows, local, network);
    let after = upsert(upsert(rows, local), network);
    let k = choose|k: int| 0 <= k < after.len() && after[k] == network;
    assert(after[k].uri == local.uri);
}

/// Writes keep a table well formed, and every row of the table after them was
/// there before or is one of the writes.
pub proof fn upsert_all_properties(rows: Seq<StatusView>, writes: Seq<StatusView>)
    requires
        well_formed(rows),
    ensures
        well_formed(upsert_all(rows, writes)),
        forall|i: int|
            0 <= i < upsert_all(rows, writes).len() ==> rows.contains(
                #[trigger] upsert_all(rows, writes)[i],
            ) || writes.contains(upsert_all(rows, writes)[i]),
    decreases writes.len(),
{
    if writes.len() > 0 {
        let before = upsert_all(rows, writes.drop_last());
        let after = upsert_all(rows, writes);
        upsert_all_properties(rows, writes.drop_last());
        upsert_properties(before, writes.last());
        assert forall|i: int| 0 <= i < after.len() implies rows.contains(#[trigger] after[i])
            || writes.contains(after[i]) by {
            if after[i].uri == writes.last().uri {
                assert(writes[writes.len() - 1] == after[i]);
            } else {
                assert(before.contains(after[i]));
                let a = choose|a: int| 0 <= a < before.len() && before[a] == after[i];
                if !rows.contains(before[a]) {
                    assert(writes.drop_last().contains(before[a]));
                    let b = choose|b: int|
                        0 <= b < writes.drop_last().len() && writes.drop_last()[b] == before[a];
                    assert(writes[b] == after[i]);
                }
            }
        }
    }
}

/// Feed ordering: after statuses indexed at pairwise different instants were
/// written to an empty table, a read of all authors gives the first `count`
/// rows of the table, each indexed later than the one behind it.
pub proof fn feed_of_distinct_instants_strictly_decreases(writes: Seq<StatusView>, count: nat)
    requires
        distinct_instants(writes),
    ensures
        feed(upsert_all(Seq::empty(), writes), None, count) == first_rows(
            upsert_all(Seq::empty(), writes),
            count,
        ),
        strictly_newest_first(upsert_all(Seq::empty(), writes)),
        strictly_newest_first(feed(upsert_all(Seq::empty(), writes), None, count)),
        feed(upsert_all(Seq::empty(), writes), None, count).len() == if count < upsert_all(
            Seq::empty(),
            writes,
        ).len() {
            count
        } else {
            upsert_all(Seq::empty(), writes).len()
        },
{
    let rows = upsert_all(Seq::empty(), writes);
    let out = feed(rows, None, count);
    upsert_all_properties(Seq::empty(), writes);
    feed_properties(rows, None, count);
    assert forall|i: int, j: int| 0 <= i < j < rows.len() implies (#[trigger] rows[j])
        .indexed_at.before((#[trigger] rows[i]).indexed_at) by {
        assert(writes.contains(rows[i]) && writes.contains(rows[j]));
        let a = choose|a: int| 0 <= a < writes.len() && writes[a] == rows[i];
        let b = choose|b: int| 0 <= b < writes.len() && writes[b] == rows[j];
        assert(rows[i].uri != rows[j].uri);
        assert(a != b);
        if a < b {
            assert(writes[a].indexed_at.before(writes[b].indexed_at) || writes[b]
                .indexed_at.before(writes[a].indexed_at));
        } else {
            assert(writes[b].indexed_at.before(writes[a].indexed_at) || writes[a]
                .indexed_at.before(writes[b].indexed_at));
        }
    }
    assert forall|i: int, j: int| 0 <= i < j < out.len() implies (#[trigger] out[j])
        .indexed_at.before((#[trigger] out[i]).indexed_at) by {
        assert(out[i] == rows[i] && out[j] == rows[j]);
    }
}

/// Writes to pairwise different addresses, none of them in the table before,
/// add one row each: every write is in the table after them.
pub proof fn upsert_all_keeps_every_address(rows: Seq<StatusView>, writes: Seq<StatusView>)
    requires
        well_formed(rows),
        unique_uris(writes),
        forall|k: int| 0 <= k < writes.len() ==> !has_uri(rows, (#[trigger] writes[k]).uri),
    ensures
        upsert_all(rows, writes).len() == rows.len() + writes.len(),
        forall|k: int|
            0 <= k < writes.len() ==> upsert_all(rows, writes).contains(#[trigger] writes[k]),
    decreases writes.len(),
{
    if writes.len() > 0 {
        let init = writes.drop_last();
        let last = writes.last();
        let before = upsert_all(rows, init);
        let after = upsert_all(rows, writes);
        assert forall|k: int| 0 <= k < init.len() implies !has_uri(
            rows,
            (#[trigger] init[k]).uri,
        ) by {
            assert(init[k] == writes[k]);
        }
        upsert_all_keeps_every_address(rows, init);
        upsert_all_properties(rows, init);
        upsert_properties(before, last);
        assert(!has_uri(before, last.uri)) by {
            if has_uri(before, last.uri) {
                let i = choose|i: int| 0 <= i < before.len() && (#[trigger] before[i]).uri
                    == last.uri;
                if rows.contains(before[i]) {
                    let a = choose|a: int| 0 <= a < rows.len() && rows[a] == before[i];
                    assert(rows[a].uri == writes[writes.len() - 1].uri);
                } else {
                    let b = choose|b: int| 0 <= b < init.len() && init[b] == before[i];
                    assert(writes[b].uri == writes[writes.len() - 1].uri);
                }
            }
        }
        assert forall|k: int| 0 <= k < writes.len() implies after.contains(
            #[trigger] writes[k],
        ) by {
            if k < init.len() {
                assert(before.contains(init[k]));
                let a = choose|a: int| 0 <= a < before.len() && before[a] == init[k];
                assert(before[a].uri != last.uri);
            }
        }
    }
}

/// A write done in two steps: the row at position `at`, the one that has the
/// address of `row` if any has, is taken out, and `row` is put in at
/// position `to`, the first whose row is not newer.
pub proof fn upsert_in_steps(rows: Seq<StatusView>, row: StatusView, at: int, to: int)
    requires
        well_formed(rows),
        0 <= at <= rows.len(),
        at < rows.len() ==> rows[at].uri == row.uri,
        forall|j: int| 0 <= j < at ==> (#[trigger] rows[j]).uri != row.uri,
        0 <= to <= taken_out(rows, at).len(),
        forall|j: int|
            0 <= j < to ==> row.indexed_at.before((#[trigger] taken_out(rows, at)[j]).indexed_at),
        to < taken_out(rows, at).len() ==> !row.indexed_at.before(
            taken_out(rows, at)[to].indexed_at,
        ),
    ensures
        taken_out(rows, at).insert(to, row) == upsert(rows, row),
        well_formed(upsert(rows, row)),
{
    if at < rows.len() {
        lemma_without_at(rows, row.uri, at);
    } else {
        assert(!has_uri(rows, row.uri));
        lemma_without_absent(rows, row.uri);
    }
    lemma_without_properties(rows, row.uri);
    lemma_slot_at(without(rows, row.uri), row.indexed_at, to);
    upsert_properties(rows, row);
}

/// `rows` without the row at position `at`, if there is one.
pub open spec fn taken_out(rows: Seq<StatusView>, at: int) -> Seq<StatusView> {
    if 0 <= at < rows.len() {
        rows.remove(at)
    } else {
        rows
    }
}

} // verus!
