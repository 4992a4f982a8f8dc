//! What is written to and read from the database: price texts of crawl
//! results, and the ranked prices placed into the articles' store slots.
use vstd::prelude::*;

use crate::crawler::{kr_suffix, price_sep, unit_price, CrawlResult, Decimal};
use crate::model::{ButikPrice, Commodity};
use crate::text::{
    decimal, is_digit, lemma_decimal_digits, lemma_field_len_at, lemma_field_len_no_sep,
    lemma_zero_pad_digits, parse_unsigned, push_decimal, strip_suffixes, string_of, trim, trim_end,
    trim_start, zero_pad,
};

verus! {

// ---------------------------------------------------------------------
// Price texts
// ---------------------------------------------------------------------

/// The text a price is stored as: the kronor, a point, and the öre in at
/// least two digits (`"24.05"`).
pub open spec fn price_text(d: Decimal) -> Seq<char> {
    decimal(d.0 as nat) + seq!['.'] + zero_pad(decimal(d.1 as nat), 2)
}

/// The stored text of a price.
pub fn format_price(d: Decimal) -> (s: String)
    ensures
        s@ == price_text(d),
{
    let mut v: Vec<char> = Vec::new();
    push_decimal(&mut v, d.0 as u32);
    v.push('.');
    let ghost before_ore = v@;
    proof {
        lemma_decimal_digits(d.1 as nat);
        if d.1 >= 10 {
            lemma_decimal_digits((d.1 / 10) as nat);
            assert(decimal(d.1 as nat).len() >= 2);
        } else {
            assert(decimal(d.1 as nat).len() == 1);
            assert(zero_pad(decimal(d.1 as nat), 2) == zero_pad(
                seq!['0'] + decimal(d.1 as nat),
                2,
            ));
            assert((seq!['0'] + decimal(d.1 as nat)).len() == 2);
        }
    }
    if d.1 < 10 {
        v.push('0');
    }
    push_decimal(&mut v, d.1 as u32);
    assert(v@ =~= price_text(d));
    string_of(&v)
}

/// A price text reads back as the price it was written from.
pub proof fn lemma_price_text_roundtrip(d: Decimal)
    ensures
        unit_price(price_text(d)) == Some(d),
{
    let kr = decimal(d.0 as nat);
    let ore = zero_pad(decimal(d.1 as nat), 2);
    let t = price_text(d);
    lemma_decimal_digits(d.0 as nat);
    lemma_decimal_digits(d.1 as nat);
    lemma_zero_pad_digits(decimal(d.1 as nat), 2);
    assert(t =~= kr + seq!['.'] + ore);
    // The text ends in a digit, so no `kr` is cut and no space trimmed.
    assert(t.last() == ore.last());
    assert(is_digit(ore[ore.len() - 1]));
    assert(t.subrange(t.len() - 2, t.len() as int)[1] == t.last());
    assert(t.subrange(t.len() - 2, t.len() as int) != kr_suffix());
    assert(strip_suffixes(t, kr_suffix()) == t);
    assert(t[0] == kr[0]);
    assert(is_digit(kr[0]));
    assert(trim_start(t) == t);
    assert(trim_end(t) == t);
    assert(trim(strip_suffixes(t, kr_suffix())) == t);
    // The first field is the kronor, the second the öre.
    assert forall|j: int| 0 <= j < kr.len() implies !(price_sep())(#[trigger] t[j]) by {
        assert(t[j] == kr[j]);
        assert(is_digit(kr[j]));
    }
    assert(t[kr.len() as int] == '.');
    lemma_field_len_at(t, price_sep(), kr.len());
    assert(t.take(kr.len() as int) =~= kr);
    assert(parse_unsigned(kr, 0xFFFF) == Some(d.0 as u32));
    let rest = t.skip(kr.len() + 1 as int);
    assert(rest =~= ore);
    assert forall|j: int| 0 <= j < ore.len() implies !(price_sep())(#[trigger] ore[j]) by {
        assert(is_digit(ore[j]));
    }
    lemma_field_len_no_sep(ore, price_sep());
    assert(ore.take(ore.len() as int) =~= ore);
    assert(parse_unsigned(ore, 0xFF) == Some(d.1 as u32));
}

/// What is stored for one crawl result.
pub struct RecordRow {
    pub id: u64,
    pub price: String,
    /// Stored only where the result has a member price.
    pub member_price: Option<String>,
}

/// The record of a crawl result: its id and the stored texts of its
/// prices.
pub fn record_row(result: &CrawlResult) -> (r: RecordRow)
    ensures
        r.id == result.id,
        r.price@ == price_text(result.price),
        match result.member_price {
            Some(m) => r.member_price matches Some(s) && s@ == price_text(m),
            None => r.member_price is None,
        },
{
    let member_price = match result.member_price {
        Some(m) => Some(format_price(m)),
        None => None,
    };
    RecordRow { id: result.id, price: format_price(result.price), member_price }
}

// ---------------------------------------------------------------------
// Ranked prices
// ---------------------------------------------------------------------

/// A store's cheapest price of an article, ranked among the stores. Ids
/// count from 1; an article's id is its position among the articles.
#[derive(Debug, Clone, Copy)]
pub struct RankedPrice<P> {
    pub butik_id: u32,
    pub commodity_id: u32,
    pub price: P,
    pub rank: u32,
}

/// The price slots of a list of articles.
pub open spec fn price_table<P>(commodities: Seq<Commodity<P>>) -> Seq<Seq<Option<ButikPrice<P>>>> {
    commodities.map_values(|c: Commodity<P>| c.butik_prices@)
}

/// Row `r` names a slot of `table`.
pub open spec fn fits<P>(table: Seq<Seq<Option<ButikPrice<P>>>>, r: RankedPrice<P>) -> bool {
    &&& 1 <= r.commodity_id <= table.len()
    &&& 1 <= r.butik_id <= table[r.commodity_id - 1].len()
}

/// The slot entry that row `r` makes: its price, and its rank cut to 16
/// bits.
pub open spec fn entry<P>(r: RankedPrice<P>) -> Option<ButikPrice<P>> {
    Some(ButikPrice { rank: r.rank as u16, price: r.price })
}

/// `table` with the slot that row `r` names holding `r`'s entry.
pub open spec fn place<P>(
    table: Seq<Seq<Option<ButikPrice<P>>>>,
    r: RankedPrice<P>,
) -> Seq<Seq<Option<ButikPrice<P>>>> {
    let c = r.commodity_id - 1;
    let b = r.butik_id - 1;
    table.update(c, table[c].update(b, entry(r)))
}

/// `table` with the rows placed one after the other.
pub open spec fn place_all<P>(
    table: Seq<Seq<Option<ButikPrice<P>>>>,
    rows: Seq<RankedPrice<P>>,
) -> Seq<Seq<Option<ButikPrice<P>>>>
    decreases rows.len(),
{
    if rows.len() == 0 {
        table
    } else {
        place(place_all(table, rows.drop_last()), rows.last())
    }
}

/// Every row names a slot of `table`.
pub open spec fn all_fit<P>(
    table: Seq<Seq<Option<ButikPrice<P>>>>,
    rows: Seq<RankedPrice<P>>,
) -> bool {
    forall|i: int| 0 <= i < rows.len() ==> fits(table, #[trigger] rows[i])
}

/// Placing a row keeps the shape of the table.
pub proof fn lemma_place_shape<P>(table: Seq<Seq<Option<ButikPrice<P>>>>, r: RankedPrice<P>)
    requires
        fits(table, r),
    ensures
        place(table, r).len() == table.len(),
        forall|c: int|
            0 <= c < table.len() ==> #[trigger] place(table, r)[c].len() == table[c].len(),
{
}

/// Placing rows that fit keeps the shape of the table.
pub proof fn lemma_place_all_shape<P>(
    table: Seq<Seq<Option<ButikPrice<P>>>>,
    rows: Seq<RankedPrice<P>>,
)
    requires
        all_fit(table, rows),
    ensures
        place_all(table, rows).len() == table.len(),
        forall|c: int|
            0 <= c < table.len() ==> #[trigger] place_all(table, rows)[c].len() == table[c].len(),
    decreases rows.len(),
{
    if rows.len() > 0 {
        assert(all_fit(table, rows.drop_last())) by {
            assert forall|i: int| 0 <= i < rows.drop_last().len() implies fits(
                table,
                #[trigger] rows.drop_last()[i],
            ) by {
                assert(rows.drop_last()[i] == rows[i]);
            }
        }
        lemma_place_all_shape(table, rows.drop_last());
        assert(fits(table, rows[rows.len() - 1]));
        lemma_place_shape(place_all(table, rows.drop_last()), rows.last());
    }
}

/// Whether every row names a slot of the articles.
fn rows_fit<P: Copy>(commodities: &Vec<Commodity<P>>, rows: &Vec<RankedPrice<P>>) -> (r: bool)
    ensures
        r == all_fit(price_table(commodities@), rows@),
{
    let ghost table = price_table(commodities@);
    let mut i: usize = 0;
    while i < rows.len()
        invariant
            i <= rows.len(),
            table == price_table(commodities@),
            forall|j: int| 0 <= j < i ==> fits(table, #[trigger] rows@[j]),
        decreases rows.len() - i,
    {
        let row = rows[i];
        if row.commodity_id < 1 || row.commodity_id as usize > commodities.len() {
            return false;
        }
        let c = (row.commodity_id - 1) as usize;
        if row.butik_id < 1 || row.butik_id as usize > commodities[c].butik_prices.len() {
            return false;
        }
        i = i + 1;
    }
    true
}

/// Places each ranked price into the slot of its article and store, in
/// order, so that the last row for a slot is the one that stays; a row's
/// rank is cut to 16 bits. Where some row names no slot (an id of 0 or
/// past the last article or store), nothing changes and the result is
/// `false`.
pub fn place_ranked_prices<P: Copy>(
    commodities: &mut Vec<Commodity<P>>,
    rows: &Vec<RankedPrice<P>>,
) -> (ok: bool)
    ensures
        ok == all_fit(price_table(old(commodities)@), rows@),
        ok ==> price_table(final(commodities)@) == place_all(
            price_table(old(commodities)@),
            rows@,
        ),
        !ok ==> final(commodities)@ == old(commodities)@,
        final(commodities).len() == old(commodities).len(),
        forall|c: int|
            0 <= c < old(commodities).len() ==> {
                &&& (#[trigger] final(commodities)@[c]).id == old(commodities)@[c].id
                &&& final(commodities)@[c].name == old(commodities)@[c].name
                &&& final(commodities)@[c].unit == old(commodities)@[c].unit
            },
{
    if !rows_fit(commodities, rows) {
        return false;
    }
    let ghost start = commodities@;
    let ghost table = price_table(commodities@);
    let mut i: usize = 0;
    while i < rows.len()
        invariant
            i <= rows.len(),
            table == price_table(start),
            all_fit(table, rows@),
            commodities.len() == start.len(),
            price_table(commodities@) == place_all(table, rows@.take(i as int)),
            forall|c: int|
                0 <= c < start.len() ==> {
                    &&& (#[trigger] commodities@[c]).id == start[c].id
                    &&& commodities@[c].name == start[c].name
                    &&& commodities@[c].unit == start[c].unit
                },
        decreases rows.len() - i,
    {
        let row = rows[i];
        proof {
            assert(rows@.take(i + 1).drop_last() =~= rows@.take(i as int));
            assert(rows@.take(i + 1).last() == row);
            assert(all_fit(table, rows@.take(i as int))) by {
                assert forall|j: int| 0 <= j < rows@.take(i as int).len() implies fits(
                    table,
                    #[trigger] rows@.take(i as int)[j],
                ) by {
                    assert(rows@.take(i as int)[j] == rows@[j]);
                }
            }
            lemma_place_all_shape(table, rows@.take(i as int));
            assert(fits(table, rows@[i as int]));
        }
        let c = (row.commodity_id - 1) as usize;
        let b = (row.butik_id - 1) as usize;
        let ghost before = commodities@;
        proof {
            assert(price_table(commodities@)[c as int] == commodities@[c as int].butik_prices@);
            assert(place_all(table, rows@.take(i as int))[c as int].len() == table[c as int].len());
        }
        commodities[c].butik_prices[b] = Some(ButikPrice { rank: row.rank as u16, price: row.price });
        proof {
            assert(price_table(commodities@) =~= place(price_table(before), row));
        }
        i = i + 1;
    }
    assert(rows@.take(rows.len() as int) =~= rows@);
    true
}

/// After placing, a slot holds the entry of the last row that names it,
/// and keeps what it held where no row names it.
pub proof fn lemma_place_all_last_wins<P>(
    table: Seq<Seq<Option<ButikPrice<P>>>>,
    rows: Seq<RankedPrice<P>>,
    c: int,
    b: int,
)
    requires
        all_fit(table, rows),
        0 <= c < table.len(),
        0 <= b < table[c].len(),
    ensures
        place_all(table, rows)[c][b] == (if exists|i: int|
            0 <= i < rows.len() && names(#[trigger] rows[i], c, b) {
            entry(rows[last_naming(rows, c, b)])
        } else {
            table[c][b]
        }),
    decreases rows.len(),
{
    if rows.len() > 0 {
        let init = rows.drop_last();
        assert(all_fit(table, init)) by {
            assert forall|i: int| 0 <= i < init.len() implies fits(table, #[trigger] init[i]) by {
                assert(init[i] == rows[i]);
            }
        }
        lemma_place_all_last_wins(table, init, c, b);
        lemma_place_all_shape(table, init);
        assert(fits(table, rows[rows.len() - 1]));
        let l = rows.last();
        if names(l, c, b) {
            assert(names(rows[rows.len() - 1], c, b));
            assert(last_naming(rows, c, b) == rows.len() - 1);
        } else {
            assert(last_naming(rows, c, b) == last_naming(init, c, b));
            if exists|i: int| 0 <= i < rows.len() && names(#[trigger] rows[i], c, b) {
                let i = choose|i: int| 0 <= i < rows.len() && names(#[trigger] rows[i], c, b);
                assert(init[i] == rows[i]);
                lemma_last_naming(init, c, b);
                assert(init[last_naming(init, c, b)] == rows[last_naming(init, c, b)]);
            } else {
                assert forall|i: int| 0 <= i < init.len() implies !names(#[trigger] init[i], c, b) by {
                    assert(init[i] == rows[i]);
                }
            }
        }
    }
}

/// Row `r` names slot `b` of article `c` (counted from 0).
pub open spec fn names<P>(r: RankedPrice<P>, c: int, b: int) -> bool {
    r.commodity_id - 1 == c && r.butik_id - 1 == b
}

/// The position of the last row that names slot `b` of article `c`.
pub open spec fn last_naming<P>(rows: Seq<RankedPrice<P>>, c: int, b: int) -> int
    decreases rows.len(),
{
    if rows.len() == 0 {
        -1
    } else if names(rows.last(), c, b) {
        rows.len() - 1
    } else {
        last_naming(rows.drop_last(), c, b)
    }
}

/// Where some row names a slot, `last_naming` finds one that does.
pub proof fn lemma_last_naming<P>(rows: Seq<RankedPrice<P>>, c: int, b: int)
    requires
        exists|i: int| 0 <= i < rows.len() && names(#[trigger] rows[i], c, b),
    ensures
        0 <= last_naming(rows, c, b) < rows.len(),
        names(rows[last_naming(rows, c, b)], c, b),
    decreases rows.len(),
{
    if !names(rows.last(), c, b) {
        let i = choose|i: int| 0 <= i < rows.len() && names(#[trigger] rows[i], c, b);
        assert(i < rows.len() - 1);
        assert(rows.drop_last()[i] == rows[i]);
        lemma_last_naming(rows.drop_last(), c, b);
        assert(rows.drop_last()[last_naming(rows.drop_last(), c, b)] == rows[last_naming(
            rows.drop_last(),
            c,
            b,
        )]);
    }
}

} // verus!
