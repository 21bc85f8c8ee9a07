//! The aggregation of the order book into ranked price levels.
//!
//! Open orders are grouped by market, side and price; the sizes that remain
//! open are summed per group; the groups of one side of one market are ranked
//! by price, the lowest ask first and the highest bid first; and the ten best
//! of each side are kept. This is what the periodic query asks of the
//! database, stated here so that it can be checked and used without one.

use vstd::prelude::*;
use vstd::string::StringExecFns;
use crate::decimal::{decimal, push_decimal, signed_decimal};
use crate::dispatch::{Delivery, Message, Publish};
use crate::level::{level_topic, LevelError, PriceLevel, LEVELS_PER_SIDE};

verus! {

/// A side of the order book.
#[derive(Clone, Copy, Debug, PartialEq, Eq, Structural)]
pub enum Side {
    Ask,
    Bid,
}

/// An order that is open on the book.
#[derive(Clone, Copy, Debug, PartialEq, Eq, Structural)]
pub struct OpenOrder {
    pub market_id: u128,
    pub side: Side,
    pub price: u128,
    pub remaining_size: u128,
}

/// What identifies a price level: a market, a side of its book and a price.
#[derive(Clone, Copy, Debug, PartialEq, Eq, Structural)]
pub struct LevelKey {
    pub market_id: u128,
    pub side: Side,
    pub price: u128,
}

/// One price level of the aggregation: the size that remains open at a price
/// and the rank of the price on its side of the market, from 1 for the best.
#[derive(Clone, Copy, Debug, PartialEq, Eq, Structural)]
pub struct PriceLevelRow {
    pub market_id: u128,
    pub side: Side,
    pub price: u128,
    pub amount: u128,
    pub rank: u64,
}

/// The place of a side in the order of the rows: asks come before bids.
pub open spec fn side_index(side: Side) -> int {
    match side {
        Side::Ask => 0,
        Side::Bid => 1,
    }
}

/// Whether the price `p` is better than `q` on the given side: lower for an
/// ask, higher for a bid.
pub open spec fn better(side: Side, p: u128, q: u128) -> bool {
    match side {
        Side::Ask => p < q,
        Side::Bid => p > q,
    }
}

/// Whether two levels are on the same side of the same market.
pub open spec fn same_book(a: LevelKey, b: LevelKey) -> bool {
    a.market_id == b.market_id && a.side == b.side
}

/// The order of the rows: by market, asks before bids, the better price
/// first.
pub open spec fn precedes(a: LevelKey, b: LevelKey) -> bool {
    ||| a.market_id < b.market_id
    ||| a.market_id == b.market_id && side_index(a.side) < side_index(b.side)
    ||| same_book(a, b) && better(a.side, a.price, b.price)
}

impl OpenOrder {
    /// The level that the order rests at.
    pub open spec fn key_spec(self) -> LevelKey {
        LevelKey { market_id: self.market_id, side: self.side, price: self.price }
    }

    /// The level that the order rests at.
    pub fn key(&self) -> (k: LevelKey)
        ensures
            k == self.key_spec(),
    {
        LevelKey { market_id: self.market_id, side: self.side, price: self.price }
    }
}

impl PriceLevelRow {
    /// The level that the row describes.
    pub open spec fn key_spec(self) -> LevelKey {
        LevelKey { market_id: self.market_id, side: self.side, price: self.price }
    }
}

/// Whether some order rests at the level.
pub open spec fn quoted(orders: Seq<OpenOrder>, key: LevelKey) -> bool {
    exists|j: int| 0 <= j < orders.len() && (#[trigger] orders[j]).key_spec() == key
}

/// The sum of the sizes that remain open at the level.
pub open spec fn depth(orders: Seq<OpenOrder>, key: LevelKey) -> nat
    decreases orders.len(),
{
    if orders.len() == 0 {
        0
    } else {
        depth(orders.drop_last(), key) + if orders.last().key_spec() == key {
            orders.last().remaining_size as nat
        } else {
            0
        }
    }
}

/// Whether a row describes the level.
pub open spec fn listed(rows: Seq<PriceLevelRow>, key: LevelKey) -> bool {
    exists|a: int| 0 <= a < rows.len() && (#[trigger] rows[a]).key_spec() == key
}

/// Whether the level has no row because ten better prices of its book have
/// one: the row of rank 10 of the book has a better price.
pub open spec fn crowded_out(rows: Seq<PriceLevelRow>, key: LevelKey) -> bool {
    exists|a: int|
        0 <= a < rows.len() && same_book((#[trigger] rows[a]).key_spec(), key) && rows[a].rank
            == 10 && better(key.side, rows[a].price, key.price)
}

/// Whether the rows stand in their order, none twice.
pub open spec fn rows_sorted(rows: Seq<PriceLevelRow>) -> bool {
    forall|a: int, b: int|
        0 <= a < b < rows.len() ==> precedes(
            (#[trigger] rows[a]).key_spec(),
            (#[trigger] rows[b]).key_spec(),
        )
}

/// Whether `row` is numbered as the row that follows `prev`: one more in
/// the same book, 1 in another.
pub open spec fn numbered_after(prev: PriceLevelRow, row: PriceLevelRow) -> bool {
    row.rank == if same_book(prev.key_spec(), row.key_spec()) {
        prev.rank + 1
    } else {
        1
    }
}

/// Whether the rows are numbered from 1 within each book, up to 10.
pub open spec fn rows_ranked(rows: Seq<PriceLevelRow>) -> bool {
    &&& forall|a: int| 0 <= a < rows.len() ==> 1 <= (#[trigger] rows[a]).rank <= 10
    &&& rows.len() > 0 ==> rows[0].rank == 1
    &&& forall|a: int, b: int|
        0 <= a && b == a + 1 && b < rows.len() ==> numbered_after(
            #[trigger] rows[a],
            #[trigger] rows[b],
        )
}

/// Whether `rows` is the aggregation of `orders`: the rows stand in their
/// order; each describes a level at which an order rests, with the sum of
/// the sizes; the rows of a book are numbered from 1 up to 10 at most; and a
/// level without a row is worse than the ten of its book that have one.
pub open spec fn is_top_of_book(orders: Seq<OpenOrder>, rows: Seq<PriceLevelRow>) -> bool {
    &&& rows_sorted(rows)
    &&& rows_ranked(rows)
    &&& forall|a: int|
        0 <= a < rows.len() ==> quoted(orders, (#[trigger] rows[a]).key_spec()) && rows[a].amount
            == depth(orders, rows[a].key_spec())
    &&& forall|key: LevelKey| #[trigger]
        quoted(orders, key) ==> listed(rows, key) || crowded_out(rows, key)
}

/// Whether the total size of some level is beyond 128 bits.
pub open spec fn overflows(orders: Seq<OpenOrder>) -> bool {
    exists|key: LevelKey| #[trigger] depth(orders, key) > u128::MAX
}

/// A level with its size, before it is ranked.
struct Level {
    key: LevelKey,
    amount: u128,
}

/// Whether a level of the list has the key.
spec fn held(levels: Seq<Level>, key: LevelKey) -> bool {
    exists|a: int| 0 <= a < levels.len() && (#[trigger] levels[a]).key == key
}

/// Whether the levels stand in their order, none twice.
spec fn levels_sorted(levels: Seq<Level>) -> bool {
    forall|a: int, b: int|
        0 <= a < b < levels.len() ==> precedes((#[trigger] levels[a]).key, (#[trigger] levels[b]).key)
}

/// Whether `levels` are the levels of `orders` with their sizes.
spec fn summarizes(levels: Seq<Level>, orders: Seq<OpenOrder>) -> bool {
    &&& levels_sorted(levels)
    &&& forall|a: int|
        0 <= a < levels.len() ==> quoted(orders, (#[trigger] levels[a]).key) && levels[a].amount
            == depth(orders, levels[a].key)
    &&& forall|j: int| 0 <= j < orders.len() ==> held(levels, (#[trigger] orders[j]).key_spec())
}

/// One more order adds its size to its own level and to no other.
proof fn lemma_depth_push(orders: Seq<OpenOrder>, order: OpenOrder, key: LevelKey)
    ensures
        depth(orders.push(order), key) == depth(orders, key) + if order.key_spec() == key {
            order.remaining_size as nat
        } else {
            0
        },
{
    assert(orders.push(order).drop_last() =~= orders);
}

/// A level at which no order rests has no size.
proof fn lemma_depth_unquoted(orders: Seq<OpenOrder>, key: LevelKey)
    requires
        !quoted(orders, key),
    ensures
        depth(orders, key) == 0,
    decreases orders.len(),
{
    if orders.len() > 0 {
        let rest = orders.drop_last();
        assert(orders[orders.len() - 1].key_spec() != key);
        assert(!quoted(rest, key)) by {
            if quoted(rest, key) {
                let j = choose|j: int| 0 <= j < rest.len() && (#[trigger] rest[j]).key_spec() == key;
                assert(orders[j].key_spec() == key);
            }
        }
        lemma_depth_unquoted(rest, key);
    }
}

/// The size of a level among the first orders is no more than among all.
proof fn lemma_depth_prefix(orders: Seq<OpenOrder>, n: int, key: LevelKey)
    requires
        0 <= n <= orders.len(),
    ensures
        depth(orders.subrange(0, n), key) <= depth(orders, key),
    decreases orders.len() - n,
{
    if n == orders.len() {
        assert(orders.subrange(0, n) =~= orders);
    } else {
        lemma_depth_prefix(orders, n + 1, key);
        assert(orders.subrange(0, n + 1).drop_last() =~= orders.subrange(0, n));
    }
}

/// Whether `a` comes before `b` in the order of the rows.
fn comes_before(a: &LevelKey, b: &LevelKey) -> (r: bool)
    ensures
        r == precedes(*a, *b),
{
    if a.market_id != b.market_id {
        return a.market_id < b.market_id;
    }
    match (a.side, b.side) {
        (Side::Ask, Side::Bid) => true,
        (Side::Bid, Side::Ask) => false,
        (Side::Ask, Side::Ask) => a.price < b.price,
        (Side::Bid, Side::Bid) => a.price > b.price,
    }
}

/// Whether two levels are on the same side of the same market.
fn in_same_book(a: &LevelKey, b: &LevelKey) -> (r: bool)
    ensures
        r == same_book(*a, *b),
{
    a.market_id == b.market_id && match (a.side, b.side) {
        (Side::Ask, Side::Ask) => true,
        (Side::Bid, Side::Bid) => true,
        _ => false,
    }
}

/// Adds one order to the levels of those before it.
fn add_order(levels: &mut Vec<Level>, order: &OpenOrder, Ghost(before): Ghost<Seq<OpenOrder>>) -> (r:
    Result<(), LevelError>)
    requires
        summarizes(old(levels)@, before),
    ensures
        match r {
            Ok(_) => summarizes(final(levels)@, before.push(*order)),
            Err(e) => e == LevelError::TotalSizeTooBig && depth(
                before.push(*order),
                order.key_spec(),
            ) > u128::MAX,
        },
{
    let key = order.key();
    let ghost old_levels = levels@;
    let ghost after = before.push(*order);
    let mut i: usize = 0;
    while i < levels.len() && comes_before(&levels[i].key, &key)
        invariant
            0 <= i <= levels@.len(),
            levels@ == old_levels,
            forall|a: int| 0 <= a < i ==> precedes((#[trigger] levels@[a]).key, key),
        decreases levels@.len() - i,
    {
        i = i + 1;
    }
    proof {
        lemma_depth_push(before, *order, key);
        assert forall|k: LevelKey| quoted(before, k) implies quoted(after, k) by {
            let j = choose|j: int| 0 <= j < before.len() && (#[trigger] before[j]).key_spec() == k;
            assert(after[j].key_spec() == k);
        }
        assert(after[before.len() as int].key_spec() == key);
    }
    let found = i < levels.len() && !comes_before(&key, &levels[i].key);
    if found {
        assert(old_levels[i as int].key == key);
        let sum = match levels[i].amount.checked_add(order.remaining_size) {
            Some(sum) => sum,
            None => {
                return Err(LevelError::TotalSizeTooBig);
            },
        };
        levels.set(i, Level { key, amount: sum });
        proof {
            let new_levels = levels@;
            assert forall|a: int, b: int| 0 <= a < b < new_levels.len() implies precedes(
                (#[trigger] new_levels[a]).key,
                (#[trigger] new_levels[b]).key,
            ) by {
                assert(new_levels[a].key == old_levels[a].key);
                assert(new_levels[b].key == old_levels[b].key);
            }
            assert forall|a: int| 0 <= a < new_levels.len() implies quoted(
                after,
                (#[trigger] new_levels[a]).key,
            ) && new_levels[a].amount == depth(after, new_levels[a].key) by {
                let k = new_levels[a].key;
                assert(k == old_levels[a].key);
                lemma_depth_push(before, *order, k);
                if a != i as int {
                    assert(new_levels[a] == old_levels[a]);
                    if a < i as int {
                        assert(precedes(old_levels[a].key, old_levels[i as int].key));
                    } else {
                        assert(precedes(old_levels[i as int].key, old_levels[a].key));
                    }
                }
            }
            assert forall|j: int| 0 <= j < after.len() implies held(
                new_levels,
                (#[trigger] after[j]).key_spec(),
            ) by {
                if j < before.len() {
                    assert(after[j] == before[j]);
                    let a = choose|a: int|
                        0 <= a < old_levels.len() && (#[trigger] old_levels[a]).key
                            == before[j].key_spec();
                    assert(new_levels[a].key == before[j].key_spec());
                } else {
                    assert(new_levels[i as int].key == key);
                }
            }
        }
        Ok(())
    } else {
        levels.insert(i, Level { key, amount: order.remaining_size });
        proof {
            let new_levels = levels@;
            assert forall|b: int| i <= b < old_levels.len() implies precedes(
                key,
                (#[trigger] old_levels[b]).key,
            ) by {
                assert(!precedes(old_levels[i as int].key, key));
                if b > i {
                    assert(precedes(old_levels[i as int].key, old_levels[b].key));
                }
            }
            assert(!held(old_levels, key)) by {
                if held(old_levels, key) {
                    let a = choose|a: int|
                        0 <= a < old_levels.len() && (#[trigger] old_levels[a]).key == key;
                    if a < i {
                        assert(precedes(old_levels[a].key, key));
                    } else {
                        assert(precedes(key, old_levels[a].key));
                    }
                }
            }
            assert(!quoted(before, key)) by {
                if quoted(before, key) {
                    let j = choose|j: int|
                        0 <= j < before.len() && (#[trigger] before[j]).key_spec() == key;
                    assert(held(old_levels, before[j].key_spec()));
                }
            }
            lemma_depth_unquoted(before, key);
            assert forall|a: int, b: int| 0 <= a < b < new_levels.len() implies precedes(
                (#[trigger] new_levels[a]).key,
                (#[trigger] new_levels[b]).key,
            ) by {
                let oa = if a < i { a } else { a - 1 };
                let ob = if b < i { b } else { b - 1 };
                if a != i as int {
                    assert(new_levels[a] == old_levels[oa]);
                }
                if b != i as int {
                    assert(new_levels[b] == old_levels[ob]);
                }
                if a != i as int && b != i as int {
                    assert(precedes(old_levels[oa].key, old_levels[ob].key));
                }
            }
            assert forall|a: int| 0 <= a < new_levels.len() implies quoted(
                after,
                (#[trigger] new_levels[a]).key,
            ) && new_levels[a].amount == depth(after, new_levels[a].key) by {
                let k = new_levels[a].key;
                lemma_depth_push(before, *order, k);
                if a != i as int {
                    let oa = if a < i { a } else { a - 1 };
                    assert(new_levels[a] == old_levels[oa]);
                    assert(held(old_levels, k));
                }
            }
            assert forall|j: int| 0 <= j < after.len() implies held(
                new_levels,
                (#[trigger] after[j]).key_spec(),
            ) by {
                if j < before.len() {
                    assert(after[j] == before[j]);
                    let a = choose|a: int|
                        0 <= a < old_levels.len() && (#[trigger] old_levels[a]).key
                            == before[j].key_spec();
                    let na = if a < i { a } else { a + 1 };
                    assert(new_levels[na] == old_levels[a]);
                } else {
                    assert(new_levels[i as int].key == key);
                }
            }
        }
        Ok(())
    }
}

/// The levels of the orders with their sizes, in the order of the rows.
fn collect_levels(orders: &Vec<OpenOrder>) -> (r: Result<Vec<Level>, LevelError>)
    ensures
        match r {
            Ok(levels) => summarizes(levels@, orders@) && !overflows(orders@),
            Err(e) => e == LevelError::TotalSizeTooBig && overflows(orders@),
        },
{
    let mut levels: Vec<Level> = Vec::new();
    let mut j: usize = 0;
    assert(orders@.subrange(0, 0) =~= Seq::<OpenOrder>::empty());
    while j < orders.len()
        invariant
            0 <= j <= orders@.len(),
            summarizes(levels@, orders@.subrange(0, j as int)),
        decreases orders@.len() - j,
    {
        let ghost before = orders@.subrange(0, j as int);
        proof {
            assert(before.push(orders@[j as int]) =~= orders@.subrange(0, j as int + 1));
        }
        match add_order(&mut levels, &orders[j], Ghost(before)) {
            Ok(_) => {},
            Err(e) => {
                proof {
                    lemma_depth_prefix(orders@, j as int + 1, orders@[j as int].key_spec());
                }
                return Err(e);
            },
        }
        j = j + 1;
    }
    proof {
        assert(orders@.subrange(0, orders@.len() as int) =~= orders@);
        assert forall|key: LevelKey| depth(orders@, key) <= u128::MAX by {
            if quoted(orders@, key) {
                let j = choose|j: int|
                    0 <= j < orders@.len() && (#[trigger] orders@[j]).key_spec() == key;
                assert(held(levels@, orders@[j].key_spec()));
                let a = choose|a: int| 0 <= a < levels@.len() && (#[trigger] levels@[a]).key == key;
                assert(levels@[a].amount == depth(orders@, key));
            } else {
                lemma_depth_unquoted(orders@, key);
            }
        }
    }
    Ok(levels)
}

/// Whether the rows are what ranking the levels gives: each row is a level
/// with its size, in the same order, and each level has a row or is crowded
/// out.
spec fn ranks(levels: Seq<Level>, rows: Seq<PriceLevelRow>) -> bool {
    &&& rows_sorted(rows)
    &&& rows_ranked(rows)
    &&& forall|a: int|
        0 <= a < rows.len() ==> exists|j: int|
            0 <= j < levels.len() && (#[trigger] levels[j]).key == (#[trigger] rows[a]).key_spec()
                && levels[j].amount == rows[a].amount
    &&& forall|j: int|
        0 <= j < levels.len() ==> listed(rows, (#[trigger] levels[j]).key) || crowded_out(
            rows,
            levels[j].key,
        )
}

/// What holds while the levels are ranked, after the first `i` of them:
/// `rank` is the rank of the last of them in its book, `source` says which
/// level each row was made from, and `witness` says for each level which row
/// describes it or crowds it out.
#[verifier::opaque]
spec fn ranking(
    levels: Seq<Level>,
    i: int,
    rows: Seq<PriceLevelRow>,
    rank: int,
    source: Seq<int>,
    witness: Seq<int>,
) -> bool {
    &&& 0 <= i <= levels.len()
    &&& levels_sorted(levels)
    &&& rows_ranked(rows)
    &&& source.len() == rows.len()
    &&& forall|a: int|
        0 <= a < rows.len() ==> 0 <= (#[trigger] source[a]) < i && rows[a].key_spec()
            == levels[source[a]].key && rows[a].amount == levels[source[a]].amount
    &&& forall|a: int, b: int|
        0 <= a < b < rows.len() ==> (#[trigger] source[a]) < (#[trigger] source[b])
    &&& 0 <= rank <= i
    &&& i > 0 ==> rank >= 1
    &&& i > 0 && rank <= 10 ==> rows.len() > 0 && source[rows.len() - 1] == i - 1 && rows[rows.len()
        - 1].rank == rank
    &&& i > 0 && rank > 10 ==> rows.len() > 0 && rows[rows.len() - 1].rank == 10 && same_book(
        rows[rows.len() - 1].key_spec(),
        levels[i - 1].key,
    )
    &&& witness.len() == i
    &&& forall|j: int| 0 <= j < i ==> describes(rows, #[trigger] witness[j], levels[j].key)
}

/// Whether the row at `a` describes the level or crowds it out.
spec fn describes(rows: Seq<PriceLevelRow>, a: int, key: LevelKey) -> bool {
    &&& 0 <= a < rows.len()
    &&& rows[a].key_spec() == key || (same_book(rows[a].key_spec(), key) && rows[a].rank == 10
        && better(key.side, rows[a].price, key.price))
}

/// The row of a level with a rank.
spec fn row_of(level: Level, rank: int) -> PriceLevelRow {
    PriceLevelRow {
        market_id: level.key.market_id,
        side: level.key.side,
        price: level.key.price,
        amount: level.amount,
        rank: rank as u64,
    }
}

/// The rank of the level at `i`, given the rank of the one before.
spec fn next_rank(levels: Seq<Level>, i: int, rank: int) -> int {
    if i > 0 && same_book(levels[i - 1].key, levels[i].key) {
        rank + 1
    } else {
        1
    }
}

/// Before any level is looked at, nothing is listed.
proof fn lemma_ranking_start(levels: Seq<Level>)
    requires
        levels_sorted(levels),
    ensures
        ranking(levels, 0, Seq::empty(), 0, Seq::empty(), Seq::empty()),
{
    reveal(ranking);
}

/// The order of the levels is transitive, and it tells books apart.
proof fn lemma_between(a: LevelKey, b: LevelKey, c: LevelKey)
    requires
        precedes(a, b) || a == b,
        precedes(b, c),
    ensures
        precedes(a, c),
        same_book(a, c) ==> same_book(b, c) && better(c.side, a.price, c.price),
{
}

/// A level among the ten best of its book gets a row.
proof fn lemma_ranking_push(
    levels: Seq<Level>,
    i: int,
    rows: Seq<PriceLevelRow>,
    rank: int,
    source: Seq<int>,
    witness: Seq<int>,
)
    requires
        ranking(levels, i, rows, rank, source, witness),
        i < levels.len(),
        next_rank(levels, i, rank) <= 10,
    ensures
        ranking(
            levels,
            i + 1,
            rows.push(row_of(levels[i], next_rank(levels, i, rank))),
            next_rank(levels, i, rank),
            source.push(i),
            witness.push(rows.len() as int),
        ),
{
    reveal(ranking);
    let new_rank = next_rank(levels, i, rank);
    let row = row_of(levels[i], new_rank);
    let new_rows = rows.push(row);
    let new_source = source.push(i);
    let new_witness = witness.push(rows.len() as int);
    let n = rows.len() as int;
    assert(new_rows[n] == row);
    assert(row.key_spec() == levels[i].key);
    assert forall|a: int| 0 <= a < new_rows.len() implies 1 <= (#[trigger] new_rows[a]).rank
        <= 10 by {
        if a < n {
            assert(new_rows[a] == rows[a]);
        }
    }
    if n > 0 {
        assert(new_rows[0] == rows[0]);
    }
    assert forall|a: int, b: int| 0 <= a && b == a + 1 && b < new_rows.len() implies numbered_after(
        #[trigger] new_rows[a],
        #[trigger] new_rows[b],
    ) by {
        assert(new_rows[a] == rows[a]);
        if b < n {
            assert(new_rows[b] == rows[b]);
            assert(numbered_after(rows[a], rows[b]));
        } else {
            let s = source[n - 1];
            assert(rows[n - 1].key_spec() == levels[s].key);
            assert(0 <= s < i);
            if s < i - 1 {
                assert(precedes(levels[s].key, levels[i - 1].key));
            }
            assert(precedes(levels[i - 1].key, levels[i].key));
            lemma_between(levels[s].key, levels[i - 1].key, levels[i].key);
        }
    }
    assert forall|a: int| 0 <= a < new_rows.len() implies 0 <= (#[trigger] new_source[a]) < i + 1
        && new_rows[a].key_spec() == levels[new_source[a]].key && new_rows[a].amount
        == levels[new_source[a]].amount by {
        if a < n {
            assert(new_rows[a] == rows[a]);
            assert(new_source[a] == source[a]);
        }
    }
    assert forall|a: int, b: int| 0 <= a < b < new_rows.len() implies (#[trigger] new_source[a]) < (
    #[trigger] new_source[b]) by {
        assert(new_source[a] == source[a]);
        if b < n {
            assert(new_source[b] == source[b]);
        }
    }
    assert forall|j: int| 0 <= j < i + 1 implies describes(
        new_rows,
        #[trigger] new_witness[j],
        levels[j].key,
    ) by {
        if j < i {
            assert(new_witness[j] == witness[j]);
            assert(describes(rows, witness[j], levels[j].key));
            assert(new_rows[witness[j]] == rows[witness[j]]);
        }
    }
}

/// A level beyond the ten best of its book is crowded out by the tenth.
proof fn lemma_ranking_skip(
    levels: Seq<Level>,
    i: int,
    rows: Seq<PriceLevelRow>,
    rank: int,
    source: Seq<int>,
    witness: Seq<int>,
)
    requires
        ranking(levels, i, rows, rank, source, witness),
        i < levels.len(),
        next_rank(levels, i, rank) > 10,
    ensures
        rows.len() > 0,
        ranking(
            levels,
            i + 1,
            rows,
            next_rank(levels, i, rank),
            source,
            witness.push(rows.len() - 1),
        ),
{
    reveal(ranking);
    let n = rows.len() as int;
    let new_witness = witness.push(n - 1);
    assert(i > 0 && same_book(levels[i - 1].key, levels[i].key));
    assert(rank >= 10);
    assert(n > 0);
    let s = source[n - 1];
    assert(rows[n - 1].key_spec() == levels[s].key);
    assert(0 <= s < i);
    if s < i - 1 {
        assert(precedes(levels[s].key, levels[i - 1].key));
    }
    assert(precedes(levels[i - 1].key, levels[i].key));
    lemma_between(levels[s].key, levels[i - 1].key, levels[i].key);
    assert(rows[n - 1].rank == 10);
    assert(same_book(rows[n - 1].key_spec(), levels[i].key));
    assert(describes(rows, n - 1, levels[i].key));
    assert forall|j: int| 0 <= j < i + 1 implies describes(
        rows,
        #[trigger] new_witness[j],
        levels[j].key,
    ) by {
        if j < i {
            assert(new_witness[j] == witness[j]);
        }
    }
    assert forall|a: int| 0 <= a < rows.len() implies 0 <= (#[trigger] source[a]) < i + 1
        && rows[a].key_spec() == levels[source[a]].key && rows[a].amount
        == levels[source[a]].amount by {}
}

/// When every level has been looked at, the rows are their ranking.
proof fn lemma_ranking_done(
    levels: Seq<Level>,
    rows: Seq<PriceLevelRow>,
    rank: int,
    source: Seq<int>,
    witness: Seq<int>,
)
    requires
        ranking(levels, levels.len() as int, rows, rank, source, witness),
    ensures
        ranks(levels, rows),
{
    reveal(ranking);
    assert forall|a: int, b: int| 0 <= a < b < rows.len() implies precedes(
        (#[trigger] rows[a]).key_spec(),
        (#[trigger] rows[b]).key_spec(),
    ) by {
        assert(source[a] < source[b]);
        assert(precedes(levels[source[a]].key, levels[source[b]].key));
    }
    assert forall|a: int| 0 <= a < rows.len() implies exists|j: int|
        0 <= j < levels.len() && (#[trigger] levels[j]).key == (#[trigger] rows[a]).key_spec()
            && levels[j].amount == rows[a].amount by {
        let j = source[a];
        assert(levels[j].key == rows[a].key_spec());
    }
    assert forall|j: int| 0 <= j < levels.len() implies listed(rows, (#[trigger] levels[j]).key)
        || crowded_out(rows, levels[j].key) by {
        let a = witness[j];
        assert(describes(rows, a, levels[j].key));
        if rows[a].key_spec() == levels[j].key {
            assert(listed(rows, levels[j].key));
        } else {
            assert(crowded_out(rows, levels[j].key));
        }
    }
}

/// Numbers the levels of each book from the best price on and keeps the ten
/// best.
fn rank_levels(levels: &Vec<Level>) -> (rows: Vec<PriceLevelRow>)
    requires
        levels_sorted(levels@),
    ensures
        ranks(levels@, rows@),
{
    let mut rows: Vec<PriceLevelRow> = Vec::new();
    let mut rank: u64 = 0;
    let mut i: usize = 0;
    let ghost mut source: Seq<int> = Seq::empty();
    let ghost mut witness: Seq<int> = Seq::empty();
    proof {
        lemma_ranking_start(levels@);
    }
    while i < levels.len()
        invariant
            0 <= i <= levels@.len(),
            rank <= i,
            ranking(levels@, i as int, rows@, rank as int, source, witness),
        decreases levels@.len() - i,
    {
        let level = &levels[i];
        let follows = i > 0 && in_same_book(&levels[i - 1].key, &level.key);
        let ghost old_rank = rank as int;
        rank = if follows {
            rank + 1
        } else {
            1
        };
        assert(rank == next_rank(levels@, i as int, old_rank));
        if rank <= LEVELS_PER_SIDE {
            proof {
                lemma_ranking_push(levels@, i as int, rows@, old_rank, source, witness);
                source = source.push(i as int);
                witness = witness.push(rows@.len() as int);
            }
            rows.push(
                PriceLevelRow {
                    market_id: level.key.market_id,
                    side: level.key.side,
                    price: level.key.price,
                    amount: level.amount,
                    rank,
                },
            );
        } else {
            proof {
                lemma_ranking_skip(levels@, i as int, rows@, old_rank, source, witness);
                witness = witness.push(rows@.len() - 1);
            }
        }
        i = i + 1;
    }
    proof {
        lemma_ranking_done(levels@, rows@, rank as int, source, witness);
    }
    rows
}

/// The ranking of the levels of the orders is the aggregation of the orders.
proof fn lemma_top_of_book(orders: Seq<OpenOrder>, levels: Seq<Level>, rows: Seq<PriceLevelRow>)
    requires
        summarizes(levels, orders),
        ranks(levels, rows),
    ensures
        is_top_of_book(orders, rows),
{
    assert forall|a: int| 0 <= a < rows.len() implies quoted(orders, (#[trigger] rows[a]).key_spec())
        && rows[a].amount == depth(orders, rows[a].key_spec()) by {
        let j = choose|j: int|
            0 <= j < levels.len() && (#[trigger] levels[j]).key == rows[a].key_spec()
                && levels[j].amount == rows[a].amount;
        assert(quoted(orders, levels[j].key));
    }
    assert forall|key: LevelKey| #[trigger] quoted(orders, key) implies listed(rows, key)
        || crowded_out(rows, key) by {
        let j = choose|j: int| 0 <= j < orders.len() && (#[trigger] orders[j]).key_spec() == key;
        assert(held(levels, orders[j].key_spec()));
        let a = choose|a: int| 0 <= a < levels.len() && (#[trigger] levels[a]).key == key;
        assert(listed(rows, levels[a].key) || crowded_out(rows, levels[a].key));
    }
}

/// Aggregates the open orders into ranked price levels: per market and side
/// the ten best prices, each with the sum of the sizes that remain open at
/// it, asks from the lowest price up and bids from the highest down.
///
/// Fails where the sizes at one price sum to more than 128 bits hold.
pub fn price_levels(orders: &Vec<OpenOrder>) -> (r: Result<Vec<PriceLevelRow>, LevelError>)
    ensures
        match r {
            Ok(rows) => !overflows(orders@) && is_top_of_book(orders@, rows@),
            Err(e) => e == LevelError::TotalSizeTooBig && overflows(orders@),
        },
{
    let levels = match collect_levels(orders) {
        Ok(levels) => levels,
        Err(e) => {
            return Err(e);
        },
    };
    let rows = rank_levels(&levels);
    proof {
        lemma_top_of_book(orders@, levels@, rows@);
    }
    Ok(rows)
}

/// Within one book the ranks count the rows.
proof fn lemma_rank_counts(rows: Seq<PriceLevelRow>, c: int, a: int)
    requires
        rows_sorted(rows),
        rows_ranked(rows),
        0 <= c <= a < rows.len(),
        same_book(rows[c].key_spec(), rows[a].key_spec()),
    ensures
        rows[a].rank == rows[c].rank + (a - c),
    decreases a - c,
{
    if c < a {
        if c < a - 1 {
            assert(precedes(rows[c].key_spec(), rows[a - 1].key_spec()));
        }
        assert(precedes(rows[a - 1].key_spec(), rows[a].key_spec()));
        lemma_between(rows[c].key_spec(), rows[a - 1].key_spec(), rows[a].key_spec());
        lemma_rank_counts(rows, c, a - 1);
        assert(numbered_after(rows[a - 1], rows[a]));
    }
}

/// Where two aggregations of the same orders agree on their first `n` rows
/// and the one has a further row, the other has one too, for the same level
/// or one that comes before it.
proof fn lemma_next_row_bounded(
    orders: Seq<OpenOrder>,
    x: Seq<PriceLevelRow>,
    y: Seq<PriceLevelRow>,
    n: int,
)
    requires
        is_top_of_book(orders, x),
        is_top_of_book(orders, y),
        0 <= n < x.len(),
        n <= y.len(),
        forall|a: int| 0 <= a < n ==> x[a] == y[a],
    ensures
        n < y.len(),
        y[n].key_spec() == x[n].key_spec() || precedes(y[n].key_spec(), x[n].key_spec()),
{
    let key = x[n].key_spec();
    assert(quoted(orders, key));
    if listed(y, key) {
        let b = choose|b: int| 0 <= b < y.len() && (#[trigger] y[b]).key_spec() == key;
        if b < n {
            assert(x[b] == y[b]);
            assert(precedes(x[b].key_spec(), x[n].key_spec()));
            assert(false);
        }
        if n < b {
            assert(precedes(y[n].key_spec(), y[b].key_spec()));
        }
    } else {
        assert(crowded_out(y, key));
        let c = choose|c: int|
            0 <= c < y.len() && same_book((#[trigger] y[c]).key_spec(), key) && y[c].rank == 10
                && better(key.side, y[c].price, key.price);
        assert(precedes(y[c].key_spec(), key));
        if c < n {
            assert(x[c] == y[c]);
            lemma_rank_counts(x, c, n);
            assert(false);
        }
        if n < c {
            assert(precedes(y[n].key_spec(), y[c].key_spec()));
            lemma_between(y[n].key_spec(), y[c].key_spec(), key);
        }
    }
}

/// Two aggregations of the same orders agree on as many rows as the first
/// has.
proof fn lemma_rows_agree(
    orders: Seq<OpenOrder>,
    x: Seq<PriceLevelRow>,
    y: Seq<PriceLevelRow>,
    n: int,
)
    requires
        is_top_of_book(orders, x),
        is_top_of_book(orders, y),
        0 <= n <= x.len(),
    ensures
        n <= y.len(),
        forall|a: int| 0 <= a < n ==> x[a] == y[a],
    decreases n,
{
    if n > 0 {
        let m = n - 1;
        lemma_rows_agree(orders, x, y, m);
        lemma_next_row_bounded(orders, x, y, m);
        lemma_next_row_bounded(orders, y, x, m);
        assert(x[m].key_spec() == y[m].key_spec());
        assert(x[m].amount == depth(orders, x[m].key_spec()));
        assert(y[m].amount == depth(orders, y[m].key_spec()));
        if m > 0 {
            assert(x[m - 1] == y[m - 1]);
            assert(numbered_after(x[m - 1], x[m]));
            assert(numbered_after(y[m - 1], y[m]));
        }
        assert(x[m] == y[m]);
    }
}

/// The orders decide their aggregation: no two lists of rows are the
/// aggregation of the same orders.
pub proof fn lemma_top_of_book_unique(
    orders: Seq<OpenOrder>,
    x: Seq<PriceLevelRow>,
    y: Seq<PriceLevelRow>,
)
    requires
        is_top_of_book(orders, x),
        is_top_of_book(orders, y),
    ensures
        x == y,
{
    lemma_rows_agree(orders, x, y, x.len() as int);
    lemma_rows_agree(orders, y, x, y.len() as int);
    assert(x =~= y);
}

/// The row of rank 1 of a book has the best price at which an order of the
/// book rests.
pub proof fn lemma_best_level_is_first(orders: Seq<OpenOrder>, rows: Seq<PriceLevelRow>, a: int)
    requires
        is_top_of_book(orders, rows),
        0 <= a < rows.len(),
        rows[a].rank == 1,
    ensures
        forall|key: LevelKey| #[trigger]
            quoted(orders, key) && same_book(key, rows[a].key_spec()) ==> key
                == rows[a].key_spec() || better(key.side, rows[a].price, key.price),
{
    assert forall|key: LevelKey| #[trigger]
        quoted(orders, key) && same_book(key, rows[a].key_spec()) implies key
        == rows[a].key_spec() || better(key.side, rows[a].price, key.price) by {
        if listed(rows, key) {
            let b = choose|b: int| 0 <= b < rows.len() && (#[trigger] rows[b]).key_spec() == key;
            if b < a {
                lemma_rank_counts(rows, b, a);
            } else if a < b {
                assert(precedes(rows[a].key_spec(), rows[b].key_spec()));
            }
        } else {
            let c = choose|c: int|
                0 <= c < rows.len() && same_book((#[trigger] rows[c]).key_spec(), key)
                    && rows[c].rank == 10 && better(key.side, rows[c].price, key.price);
            if c < a {
                lemma_rank_counts(rows, c, a);
            } else if a < c {
                assert(precedes(rows[a].key_spec(), rows[c].key_spec()));
            }
        }
    }
}

impl Side {
    /// The name of the side in a topic.
    pub open spec fn name_spec(self) -> Seq<char> {
        match self {
            Side::Ask => "ask"@,
            Side::Bid => "bid"@,
        }
    }

    /// The name of the side in a topic: `ask` or `bid`.
    pub fn name(&self) -> (s: &'static str)
        ensures
            s@ == self.name_spec(),
    {
        match self {
            Side::Ask => "ask",
            Side::Bid => "bid",
        }
    }
}

impl PriceLevelRow {
    /// The message of the row: price and amount under
    /// `levels/{market}/{side}/{rank}`.
    pub open spec fn message(self) -> Message {
        Message {
            topic: level_topic(
                decimal(self.market_id as nat),
                self.side.name_spec(),
                self.rank as int,
            ),
            payload: PriceLevel { price: self.price, amount: self.amount }.payload_spec(),
        }
    }

    /// Builds the message that is published for the row.
    pub fn publish(&self) -> (p: Publish)
        ensures
            p@ == self.message(),
            p.delivery == Delivery::AtLeastOnce,
            !p.retain,
    {
        let mut topic = String::from_str("levels/");
        push_decimal(&mut topic, self.market_id);
        topic.append("/");
        topic.append(self.side.name());
        topic.append("/");
        push_decimal(&mut topic, self.rank as u128);
        assert(decimal(self.rank as nat) == signed_decimal(self.rank as int));
        let level = PriceLevel { price: self.price, amount: self.amount };
        Publish { topic, payload: level.payload(), delivery: Delivery::AtLeastOnce, retain: false }
    }
}

} // verus!
