//! Per-symbol orchestration: from retrieved quotes to a report row.
//!
//! The retrieval of quotes is an external collaborator; this module
//! takes the retrieved quotes as plain values, sorts them ascending by
//! timestamp, projects them to a closing-price series, runs the four
//! signals over it, and assembles one report row — or none at all when
//! the series is empty.

use vstd::prelude::*;

use crate::fp::POS_ZERO_BITS;
use crate::signals::fold_max_bits;
use crate::signals::fold_min_bits;
use crate::signals::max;
use crate::signals::min;
use crate::signals::n_window_sma;
use crate::signals::price_diff;
use crate::signals::price_diff_spec;
use crate::signals::sma_spec;

verus! {

broadcast use vstd::seq_lib::group_to_multiset_ensures;

/// The window width of the moving average that a report row carries.
pub const SMA_WINDOW: usize = 30;

/// One retrieved quote: the period's timestamp and the adjusted closing
/// price, as a binary64 bit pattern.
#[derive(Clone, Copy)]
pub struct Quote {
    pub timestamp: u64,
    pub adjclose: u64,
}

/// A sequence of quotes ascending by timestamp.
pub open spec fn sorted_by_timestamp(s: Seq<Quote>) -> bool {
    forall|i: int, j: int| 0 <= i < j < s.len() ==> s[i].timestamp <= s[j].timestamp
}

/// The closing prices of a quote sequence, in the same order.
pub open spec fn projected(s: Seq<Quote>) -> Seq<u64> {
    s.map_values(|q: Quote| q.adjclose)
}

/// `q` placed into the sorted sequence `s` after every element whose
/// timestamp is at or below its own: the stable insertion.
pub open spec fn insert_sorted(s: Seq<Quote>, q: Quote) -> Seq<Quote>
    decreases s.len(),
{
    if s.len() == 0 {
        seq![q]
    } else if s.first().timestamp <= q.timestamp {
        seq![s.first()] + insert_sorted(s.drop_first(), q)
    } else {
        seq![q] + s
    }
}

/// The stable sort of a quote sequence, ascending by timestamp: each
/// quote inserted in turn after its equals.
pub open spec fn sort_spec(s: Seq<Quote>) -> Seq<Quote>
    decreases s.len(),
{
    if s.len() == 0 {
        Seq::empty()
    } else {
        insert_sorted(sort_spec(s.drop_last()), s.last())
    }
}

/// Inserting at the first position whose timestamp exceeds the new
/// quote's is exactly the stable insertion.
proof fn lemma_insert_sorted_at(s: Seq<Quote>, q: Quote, pos: int)
    requires
        0 <= pos <= s.len(),
        forall|k: int| 0 <= k < pos ==> s[k].timestamp <= q.timestamp,
        pos == s.len() || s[pos].timestamp > q.timestamp,
    ensures
        insert_sorted(s, q) == s.insert(pos, q),
    decreases s.len(),
{
    if pos == 0 {
        assert(insert_sorted(s, q) =~= s.insert(0, q));
    } else {
        let rest = s.drop_first();
        assert forall|k: int| 0 <= k < pos - 1 implies rest[k].timestamp <= q.timestamp by {
            assert(rest[k] == s[k + 1]);
        }
        lemma_insert_sorted_at(rest, q, pos - 1);
        assert(insert_sorted(s, q) == seq![s.first()] + rest.insert(pos - 1, q));
        assert(seq![s.first()] + rest.insert(pos - 1, q) =~= s.insert(pos, q));
    }
}

/// Stable insertion sort of the retrieved quotes, ascending by
/// timestamp.
pub fn sort_quotes(quotes: &Vec<Quote>) -> (r: Vec<Quote>)
    ensures
        r@ == sort_spec(quotes@),
        sorted_by_timestamp(r@),
        r@.to_multiset() == quotes@.to_multiset(),
        r@.len() == quotes@.len(),
{
    let mut out: Vec<Quote> = Vec::new();
    let mut idx: usize = 0;
    while idx < quotes.len()
        invariant
            0 <= idx <= quotes@.len(),
            out@.len() == idx,
            sorted_by_timestamp(out@),
            out@ == sort_spec(quotes@.take(idx as int)),
            out@.to_multiset() == quotes@.take(idx as int).to_multiset(),
        decreases quotes@.len() - idx,
    {
        let q = quotes[idx];
        let mut pos: usize = 0;
        while pos < out.len() && out[pos].timestamp <= q.timestamp
            invariant
                0 <= pos <= out@.len(),
                forall|k: int| 0 <= k < pos ==> out@[k].timestamp <= q.timestamp,
            decreases out@.len() - pos,
        {
            pos += 1;
        }
        let ghost prev = out@;
        out.insert(pos, q);
        proof {
            assert(quotes@.take(idx as int + 1) =~= quotes@.take(idx as int).push(quotes@[idx as int]));
            assert(quotes@.take(idx as int + 1).drop_last() =~= quotes@.take(idx as int));
            assert(out@ == prev.insert(pos as int, q));
            lemma_insert_sorted_at(prev, q, pos as int);
            assert(out@ == sort_spec(quotes@.take(idx as int + 1)));
            assert forall|a: int, b: int| 0 <= a < b < out@.len() implies out@[a].timestamp
                <= out@[b].timestamp by {
                assert(forall|k: int| 0 <= k < pos ==> out@[k] == prev[k]);
                assert(out@[pos as int] == q);
                assert(forall|k: int| pos < k < out@.len() ==> out@[k] == prev[k - 1]);
            }
        }
        idx += 1;
    }
    proof {
        assert(quotes@.take(quotes@.len() as int) =~= quotes@);
    }
    out
}

/// The closing prices of the given quotes, in order.
fn closing_prices(quotes: &Vec<Quote>) -> (r: Vec<u64>)
    ensures
        r@ == projected(quotes@),
{
    let mut r: Vec<u64> = Vec::new();
    let mut i: usize = 0;
    while i < quotes.len()
        invariant
            0 <= i <= quotes@.len(),
            r@ == projected(quotes@.take(i as int)),
        decreases quotes@.len() - i,
    {
        proof {
            assert(quotes@.take(i as int + 1) =~= quotes@.take(i as int).push(quotes@[i as int]));
            assert(projected(quotes@.take(i as int + 1)) =~= projected(
                quotes@.take(i as int),
            ).push(quotes@[i as int].adjclose));
        }
        r.push(quotes[i].adjclose);
        i += 1;
    }
    proof {
        assert(quotes@.take(quotes@.len() as int) =~= quotes@);
    }
    r
}

/// Sort the retrieved quotes ascending by timestamp, then extract the
/// closing prices: the series handed to the signals.
pub fn closing_series(quotes: &Vec<Quote>) -> (r: Vec<u64>)
    ensures
        r@ == projected(sort_spec(quotes@)),
        r@.len() == quotes@.len(),
        sorted_by_timestamp(sort_spec(quotes@)),
        sort_spec(quotes@).to_multiset() == quotes@.to_multiset(),
{
    let sorted = sort_quotes(quotes);
    closing_prices(&sorted)
}

/// One line of the report: the symbol, the period start it was
/// requested for, the last raw price, the relative change between the
/// first and last price, the extrema, and the latest moving-average
/// value.
pub struct Row {
    pub symbol: String,
    pub period_start: i64,
    pub price: u64,
    pub pct_change: u64,
    pub min: u64,
    pub max: u64,
    pub sma: u64,
}

/// The latest moving-average value of a series: the last element of the
/// windowed simple moving average, or zero when that sequence is empty
/// or absent.
pub open spec fn sma_last_spec(s: Seq<u64>) -> u64 {
    match sma_spec(SMA_WINDOW, s) {
        Some(v) => if v.len() > 0 {
            v.last()
        } else {
            POS_ZERO_BITS
        },
        None => POS_ZERO_BITS,
    }
}

/// The row assembled for a symbol from a non-empty series: the last
/// raw price, the relative component of the price difference, the
/// extrema, and the latest moving-average value.
pub open spec fn row_spec(symbol: String, period_start: i64, closes: Seq<u64>) -> Row {
    Row {
        symbol,
        period_start,
        price: closes.last(),
        pct_change: price_diff_spec(closes).unwrap().1,
        min: fold_min_bits(closes),
        max: fold_max_bits(closes),
        sma: sma_last_spec(closes),
    }
}

/// Assemble the report row for one symbol from its closing-price
/// series, or omit the symbol entirely when the series is empty.
pub fn row_for_symbol(symbol: String, period_start: i64, closes: &Vec<u64>) -> (r: Option<Row>)
    ensures
        (r is Some <==> closes@.len() > 0),
        (r matches Some(row) ==> row == row_spec(symbol, period_start, closes@)),
{
    if closes.len() == 0 {
        return None;
    }
    let period_max = max(closes).unwrap();
    let period_min = min(closes).unwrap();
    let last_price = closes[closes.len() - 1];
    let pct_change = price_diff(closes).unwrap().1;
    let sma = match n_window_sma(SMA_WINDOW, closes) {
        Some(v) => if v.len() > 0 {
            v[v.len() - 1]
        } else {
            POS_ZERO_BITS
        },
        None => POS_ZERO_BITS,
    };
    Some(
        Row {
            symbol,
            period_start,
            price: last_price,
            pct_change,
            min: period_min,
            max: period_max,
            sma,
        },
    )
}

/// The rows of a whole report, in request order: one row per symbol
/// with a non-empty series, and none at all for a symbol whose series
/// is empty.
pub open spec fn rows_spec(inputs: Seq<(String, Vec<u64>)>, period_start: i64) -> Seq<Row>
    decreases inputs.len(),
{
    if inputs.len() == 0 {
        Seq::empty()
    } else {
        let rest = rows_spec(inputs.drop_last(), period_start);
        if inputs.last().1@.len() > 0 {
            rest.push(row_spec(inputs.last().0, period_start, inputs.last().1@))
        } else {
            rest
        }
    }
}

/// Assemble the report for a list of symbols and their closing-price
/// series: rows come in the order the symbols were requested, a symbol
/// with an empty series contributes no row, and no symbol affects
/// another's row.
pub fn report_rows(inputs: Vec<(String, Vec<u64>)>, period_start: i64) -> (rows: Vec<Row>)
    ensures
        rows@ == rows_spec(inputs@, period_start),
{
    let ghost all = inputs@;
    let mut pending = inputs;
    let mut rows: Vec<Row> = Vec::new();
    let ghost done: int = 0;
    while pending.len() > 0
        invariant
            0 <= done <= all.len(),
            pending@ == all.skip(done),
            rows@ == rows_spec(all.take(done), period_start),
        decreases pending@.len(),
    {
        let ghost before = pending@;
        let (symbol, closes) = pending.remove(0);
        proof {
            assert(all.take(done + 1).drop_last() =~= all.take(done));
            assert(all.take(done + 1).last() == all[done]);
            assert(before.remove(0) =~= all.skip(done + 1));
        }
        if let Some(row) = row_for_symbol(symbol, period_start, &closes) {
            rows.push(row);
        }
        proof {
            done = done + 1;
        }
    }
    proof {
        assert(all.take(all.len() as int) =~= all);
    }
    rows
}

} // verus!
