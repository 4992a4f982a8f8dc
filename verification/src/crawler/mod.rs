//! What the crawlers share: crawl tasks and results, the unit-price
//! format that every store prints, and which crawler a store goes to.
use rand::Rng;
use vstd::prelude::*;

use crate::text::{
    chars_of, contains, contains_seq, field_len, parse_unsigned, parse_unsigned_at, strip_suffixes,
    strip_suffixes_len, trim, trim_bounds, trim_end, trim_start, is_white_space,
    lemma_contains_anywhere, lemma_trim_trailing_white_space,
};

pub mod coop;
pub mod ica;
pub mod willys;

verus! {

/// A price in kronor and öre.
pub type Decimal = (u16, u8);

/// One store article to fetch the price of.
#[derive(Debug, Clone)]
pub struct CrawlTask {
    /// The article's row in the database.
    pub id: u64,
    /// The store's own id at its chain, where the chain needs one.
    pub butik_id: Option<String>,
    /// The store's display name, which tells its chain.
    pub butik_name: String,
    /// The article's id at the chain.
    pub fetch_id: String,
}

/// The price found for a task.
#[derive(Debug, Clone, Copy)]
pub struct CrawlResult {
    pub id: u64,
    pub price: Decimal,
    pub member_price: Option<Decimal>,
}

// ---------------------------------------------------------------------
// Unit prices
// ---------------------------------------------------------------------

/// The characters that separate kronor from öre.
pub open spec fn price_sep() -> spec_fn(char) -> bool {
    |c: char| c == ',' || c == '.' || c == ':'
}

/// The unit suffix that a price may end with.
pub open spec fn kr_suffix() -> Seq<char> {
    seq!['k', 'r']
}

/// The price that a unit-price text states. The text loses every trailing
/// `kr` and then its surrounding white space; it is cut at `,`, `.` and
/// `:`; the first field must read as kronor (a `u16`); the second field,
/// where there is one, is the öre (a `u8`), and counts as 0 where it does
/// not read as one; further fields are ignored.
pub open spec fn unit_price(s: Seq<char>) -> Option<Decimal> {
    let t = trim(strip_suffixes(s, kr_suffix()));
    let k = field_len(t, price_sep());
    match parse_unsigned(t.take(k as int), 0xFFFF) {
        None => None,
        Some(kronor) => {
            let ore: u8 = if k < t.len() {
                let rest = t.skip(k + 1 as int);
                match parse_unsigned(rest.take(field_len(rest, price_sep()) as int), 0xFF) {
                    Some(o) => o as u8,
                    None => 0,
                }
            } else {
                0
            };
            Some((kronor as u16, ore))
        },
    }
}

/// The end of the field of `v` that starts at `lo`, looking no further
/// than `hi`.
fn field_end(v: &Vec<char>, lo: usize, hi: usize) -> (k: usize)
    requires
        lo <= hi <= v.len(),
    ensures
        lo <= k <= hi,
        k - lo == field_len(v@.subrange(lo as int, hi as int), price_sep()),
{
    let mut j = lo;
    while j < hi && !(v[j] == ',' || v[j] == '.' || v[j] == ':')
        invariant
            lo <= j <= hi <= v.len(),
            field_len(v@.subrange(lo as int, hi as int), price_sep()) == (j - lo) + field_len(
                v@.subrange(j as int, hi as int),
                price_sep(),
            ),
        decreases hi - j,
    {
        assert(v@.subrange(j as int, hi as int).drop_first() =~= v@.subrange(j + 1, hi as int));
        j = j + 1;
    }
    j
}

/// Reads a unit-price text such as `"24,90 kr"` or `"12.5"`: the kronor
/// and öre it states, `None` where the kronor do not read as a number.
pub fn parse_unit_price(unit_price: &str) -> (r: Option<Decimal>)
    ensures
        r == self::unit_price(unit_price@),
{
    let v = chars_of(unit_price);
    let kr = vec!['k', 'r'];
    assert(kr@ =~= kr_suffix());
    let e = strip_suffixes_len(&v, &kr);
    let (a, b) = trim_bounds(&v, 0, e);
    let k = field_end(&v, a, b);
    let ghost t = v@.subrange(a as int, b as int);
    assert(v@.subrange(0, e as int) == strip_suffixes(v@, kr_suffix()));
    assert(t == trim(strip_suffixes(unit_price@, kr_suffix())));
    assert(t.take(k - a) =~= v@.subrange(a as int, k as int));
    let kronor = match parse_unsigned_at(&v, a, k, 0xFFFF) {
        Some(x) => x,
        None => {
            return None;
        },
    };
    let ore: u8 = if k < b {
        let k2 = field_end(&v, k + 1, b);
        let ghost rest = t.skip(k - a + 1);
        assert(rest =~= v@.subrange(k + 1, b as int));
        assert(rest.take(k2 - (k + 1)) =~= v@.subrange(k + 1, k2 as int));
        match parse_unsigned_at(&v, k + 1, k2, 0xFF) {
            Some(o) => o as u8,
            None => 0,
        }
    } else {
        0
    };
    Some((kronor as u16, ore))
}

/// A trailing `kr` never changes the price read from a text.
pub proof fn lemma_unit_suffix_ignored(s: Seq<char>)
    ensures
        unit_price(s + kr_suffix()) == unit_price(s),
{
    let t = s + kr_suffix();
    assert(t.subrange(t.len() - 2, t.len() as int) =~= kr_suffix());
    assert(t.subrange(0, t.len() - 2) =~= s);
}

/// Cutting trailing `kr` from a text that starts with white space keeps
/// that white space in front.
proof fn lemma_strip_kr_after_white_space(c: char, s: Seq<char>)
    requires
        is_white_space(c),
    ensures
        strip_suffixes(seq![c] + s, kr_suffix()) == seq![c] + strip_suffixes(s, kr_suffix()),
    decreases s.len(),
{
    let t = seq![c] + s;
    if s.len() >= 2 && s.subrange(s.len() - 2, s.len() as int) == kr_suffix() {
        assert(t.subrange(t.len() - 2, t.len() as int) =~= s.subrange(
            s.len() - 2,
            s.len() as int,
        ));
        assert(t.subrange(0, t.len() - 2) =~= seq![c] + s.subrange(0, s.len() - 2));
        lemma_strip_kr_after_white_space(c, s.subrange(0, s.len() - 2));
    } else if t.len() >= 2 && t.subrange(t.len() - 2, t.len() as int) == kr_suffix() {
        if s.len() >= 2 {
            assert(t.subrange(t.len() - 2, t.len() as int) =~= s.subrange(
                s.len() - 2,
                s.len() as int,
            ));
        } else {
            assert(t.subrange(t.len() - 2, t.len() as int)[0] == c);
            assert(kr_suffix()[0] == 'k');
        }
    }
}

/// White space in front of a text never changes the price read from it.
pub proof fn lemma_leading_white_space_ignored(c: char, s: Seq<char>)
    requires
        is_white_space(c),
    ensures
        unit_price(seq![c] + s) == unit_price(s),
{
    lemma_strip_kr_after_white_space(c, s);
    let u = strip_suffixes(s, kr_suffix());
    assert((seq![c] + u).drop_first() =~= u);
    assert(trim_start(seq![c] + u) == trim_start(u));
}

/// Whether `s` ends in the unit `kr`.
pub open spec fn ends_with_kr(s: Seq<char>) -> bool {
    s.len() >= 2 && s.subrange(s.len() - 2, s.len() as int) == kr_suffix()
}

/// White space after a text that does not end in `kr` never changes the
/// price read from it.
pub proof fn lemma_trailing_white_space_ignored(s: Seq<char>, c: char)
    requires
        is_white_space(c),
        !ends_with_kr(s),
    ensures
        unit_price(s + seq![c]) == unit_price(s),
{
    let t = s + seq![c];
    if t.len() >= 2 {
        assert(t.subrange(t.len() - 2, t.len() as int)[1] == c);
        assert(kr_suffix()[1] == 'r');
        assert(t.subrange(t.len() - 2, t.len() as int) != kr_suffix());
    }
    assert(strip_suffixes(t, kr_suffix()) == t);
    assert(strip_suffixes(s, kr_suffix()) == s);
    lemma_trim_trailing_white_space(s, c);
}

/// A unit written after a space, of any kind, never changes the price:
/// `"24,90 kr"` reads as `"24,90"` whatever white space stands before `kr`.
pub proof fn lemma_spaced_unit_ignored(s: Seq<char>, c: char)
    requires
        is_white_space(c),
        !ends_with_kr(s),
    ensures
        unit_price(s + seq![c] + kr_suffix()) == unit_price(s),
{
    lemma_unit_suffix_ignored(s + seq![c]);
    lemma_trailing_white_space_ignored(s, c);
}

/// `s` and `t` are the same text but at position `p`, where each holds a
/// price separator.
pub open spec fn differ_in_separator(s: Seq<char>, t: Seq<char>, p: int) -> bool {
    &&& s.len() == t.len()
    &&& 0 <= p < s.len()
    &&& (price_sep())(s[p])
    &&& (price_sep())(t[p])
    &&& forall|i: int| 0 <= i < s.len() && i != p ==> s[i] == t[i]
}

proof fn lemma_strip_kr_separator_variant(s: Seq<char>, t: Seq<char>, p: int)
    requires
        differ_in_separator(s, t, p),
    ensures
        differ_in_separator(strip_suffixes(s, kr_suffix()), strip_suffixes(t, kr_suffix()), p),
    decreases s.len(),
{
    let n = s.len() as int;
    let kr = kr_suffix();
    if n >= 2 {
        let es = s.subrange(n - 2, n);
        let et = t.subrange(n - 2, n);
        if p >= n - 2 {
            assert(es[p - (n - 2)] == s[p]);
            assert(et[p - (n - 2)] == t[p]);
            assert(es != kr) by {
                if es == kr {
                    assert(kr[p - (n - 2)] == 'k' || kr[p - (n - 2)] == 'r');
                }
            }
            assert(et != kr) by {
                if et == kr {
                    assert(kr[p - (n - 2)] == 'k' || kr[p - (n - 2)] == 'r');
                }
            }
        } else {
            assert forall|j: int| 0 <= j < 2 implies es[j] == et[j] by {
                assert(es[j] == s[n - 2 + j]);
                assert(et[j] == t[n - 2 + j]);
            }
            assert(es =~= et);
            if es == kr {
                let s2 = s.subrange(0, n - 2);
                let t2 = t.subrange(0, n - 2);
                assert forall|i: int| 0 <= i < s2.len() && i != p implies s2[i] == t2[i] by {
                    assert(s2[i] == s[i]);
                    assert(t2[i] == t[i]);
                }
                assert(s2[p] == s[p] && t2[p] == t[p]);
                lemma_strip_kr_separator_variant(s2, t2, p);
            }
        }
    }
}

proof fn lemma_trim_start_separator_variant(s: Seq<char>, t: Seq<char>, p: int) -> (q: int)
    requires
        differ_in_separator(s, t, p),
    ensures
        differ_in_separator(trim_start(s), trim_start(t), q),
    decreases s.len(),
{
    if p == 0 {
        assert(!is_white_space(s[0]));
        assert(!is_white_space(t[0]));
        p
    } else {
        assert(s[0] == t[0]);
        if is_white_space(s[0]) {
            let s2 = s.drop_first();
            let t2 = t.drop_first();
            assert forall|i: int| 0 <= i < s2.len() && i != p - 1 implies s2[i] == t2[i] by {
                assert(s2[i] == s[i + 1]);
                assert(t2[i] == t[i + 1]);
            }
            assert(s2[p - 1] == s[p] && t2[p - 1] == t[p]);
            lemma_trim_start_separator_variant(s2, t2, p - 1)
        } else {
            p
        }
    }
}

proof fn lemma_trim_end_separator_variant(s: Seq<char>, t: Seq<char>, p: int)
    requires
        differ_in_separator(s, t, p),
    ensures
        differ_in_separator(trim_end(s), trim_end(t), p),
    decreases s.len(),
{
    let n = s.len() as int;
    if p == n - 1 {
        assert(!is_white_space(s.last()));
        assert(!is_white_space(t.last()));
    } else {
        assert(s.last() == t.last());
        if is_white_space(s.last()) {
            let s2 = s.drop_last();
            let t2 = t.drop_last();
            assert forall|i: int| 0 <= i < s2.len() && i != p implies s2[i] == t2[i] by {
                assert(s2[i] == s[i]);
                assert(t2[i] == t[i]);
            }
            assert(s2[p] == s[p] && t2[p] == t[p]);
            lemma_trim_end_separator_variant(s2, t2, p);
        }
    }
}

proof fn lemma_field_separator_variant(s: Seq<char>, t: Seq<char>, p: int)
    requires
        differ_in_separator(s, t, p),
    ensures
        field_len(s, price_sep()) == field_len(t, price_sep()),
        field_len(s, price_sep()) <= p,
    decreases s.len(),
{
    if p > 0 {
        assert(s[0] == t[0]);
        if !(price_sep())(s[0]) {
            let s2 = s.drop_first();
            let t2 = t.drop_first();
            assert forall|i: int| 0 <= i < s2.len() && i != p - 1 implies s2[i] == t2[i] by {
                assert(s2[i] == s[i + 1]);
                assert(t2[i] == t[i + 1]);
            }
            assert(s2[p - 1] == s[p] && t2[p - 1] == t[p]);
            lemma_field_separator_variant(s2, t2, p - 1);
        }
    }
}

/// Two texts that differ only in which separator stands at one place state
/// the same price.
pub proof fn lemma_unit_price_separator_variant(s: Seq<char>, t: Seq<char>, p: int)
    requires
        differ_in_separator(s, t, p),
    ensures
        unit_price(s) == unit_price(t),
{
    lemma_strip_kr_separator_variant(s, t, p);
    let s1 = strip_suffixes(s, kr_suffix());
    let t1 = strip_suffixes(t, kr_suffix());
    let q = lemma_trim_start_separator_variant(s1, t1, p);
    lemma_trim_end_separator_variant(trim_start(s1), trim_start(t1), q);
    let s3 = trim(s1);
    let t3 = trim(t1);
    lemma_field_separator_variant(s3, t3, q);
    let k = field_len(s3, price_sep());
    assert(s3.take(k as int) =~= t3.take(k as int));
    let rs = s3.skip(k + 1 as int);
    let rt = t3.skip(k + 1 as int);
    if k == q {
        assert(rs =~= rt);
    } else {
        assert forall|i: int| 0 <= i < rs.len() && i != q - k - 1 implies rs[i] == rt[i] by {
            assert(rs[i] == s3[i + k + 1]);
            assert(rt[i] == t3[i + k + 1]);
        }
        assert(rs[q - k - 1] == s3[q] && rt[q - k - 1] == t3[q]);
        lemma_field_separator_variant(rs, rt, q - k - 1);
        let k2 = field_len(rs, price_sep());
        assert(rs.take(k2 as int) =~= rt.take(k2 as int));
    }
}

/// The three price separators `,`, `.` and `:` can stand for one another.
pub proof fn lemma_separators_interchangeable(a: Seq<char>, b: Seq<char>)
    ensures
        unit_price(a + seq![','] + b) == unit_price(a + seq!['.'] + b),
        unit_price(a + seq!['.'] + b) == unit_price(a + seq![':'] + b),
{
    let comma = a + seq![','] + b;
    let point = a + seq!['.'] + b;
    let colon = a + seq![':'] + b;
    let p = a.len() as int;
    assert forall|i: int| 0 <= i < comma.len() && i != p implies comma[i] == point[i]
        && point[i] == colon[i] by {
        if i < p {
            assert(comma[i] == a[i] && point[i] == a[i] && colon[i] == a[i]);
        } else {
            assert(comma[i] == b[i - p - 1] && point[i] == b[i - p - 1] && colon[i] == b[i - p
                - 1]);
        }
    }
    assert(comma[p] == ',' && point[p] == '.' && colon[p] == ':');
    lemma_unit_price_separator_variant(comma, point, p);
    lemma_unit_price_separator_variant(point, colon, p);
}

// ---------------------------------------------------------------------
// Which chain a store belongs to
// ---------------------------------------------------------------------

/// The chains that have a crawler.
#[derive(Debug, Clone, Copy, PartialEq, Eq, Structural)]
pub enum StoreKind {
    Coop,
    Hemkop,
    Ica,
    Willys,
}

/// The chain of a store, from its lower-cased name: the first of `coop`,
/// `hemköp`, `ica` and `willys` that occurs in it; `None` where none does.
pub open spec fn store_kind_of(lower: Seq<char>) -> Option<StoreKind> {
    if contains_seq(lower, seq!['c', 'o', 'o', 'p']) {
        Some(StoreKind::Coop)
    } else if contains_seq(lower, seq!['h', 'e', 'm', 'k', 'ö', 'p']) {
        Some(StoreKind::Hemkop)
    } else if contains_seq(lower, seq!['i', 'c', 'a']) {
        Some(StoreKind::Ica)
    } else if contains_seq(lower, seq!['w', 'i', 'l', 'l', 'y', 's']) {
        Some(StoreKind::Willys)
    } else {
        None
    }
}

/// The word that names a chain in a lower-cased store name.
pub open spec fn chain_word(k: StoreKind) -> Seq<char> {
    match k {
        StoreKind::Coop => seq!['c', 'o', 'o', 'p'],
        StoreKind::Hemkop => seq!['h', 'e', 'm', 'k', 'ö', 'p'],
        StoreKind::Ica => seq!['i', 'c', 'a'],
        StoreKind::Willys => seq!['w', 'i', 'l', 'l', 'y', 's'],
    }
}

/// The order in which chains are looked for in a name.
pub open spec fn chain_order(k: StoreKind) -> int {
    match k {
        StoreKind::Coop => 0,
        StoreKind::Hemkop => 1,
        StoreKind::Ica => 2,
        StoreKind::Willys => 3,
    }
}

/// A store's chain is the first chain, in the order Coop, Hemköp, ICA,
/// Willys, whose word occurs anywhere in its lower-cased name; a store whose
/// name holds none of the words has no chain.
pub proof fn lemma_store_kind_is_first_word_found(l: Seq<char>, k: StoreKind)
    ensures
        store_kind_of(l) == Some(k) <==> contains_seq(l, chain_word(k)) && forall|j: StoreKind|
            chain_order(j) < chain_order(k) ==> !contains_seq(l, #[trigger] chain_word(j)),
        store_kind_of(l) is None <==> forall|j: StoreKind| !contains_seq(l, #[trigger] chain_word(j)),
{
    let coop = chain_word(StoreKind::Coop);
    let hemkop = chain_word(StoreKind::Hemkop);
    let ica = chain_word(StoreKind::Ica);
    let willys = chain_word(StoreKind::Willys);
    if forall|j: StoreKind| !contains_seq(l, #[trigger] chain_word(j)) {
    } else {
        let j = choose|j: StoreKind| contains_seq(l, #[trigger] chain_word(j));
        match j {
            StoreKind::Coop => {},
            StoreKind::Hemkop => {},
            StoreKind::Ica => {},
            StoreKind::Willys => {},
        }
    }
    if store_kind_of(l) == Some(k) {
        assert forall|j: StoreKind| chain_order(j) < chain_order(k) implies !contains_seq(
            l,
            #[trigger] chain_word(j),
        ) by {
            match j {
                StoreKind::Coop => {},
                StoreKind::Hemkop => {},
                StoreKind::Ica => {},
                StoreKind::Willys => {},
            }
        }
    }
    if contains_seq(l, chain_word(k)) && forall|j: StoreKind|
        chain_order(j) < chain_order(k) ==> !contains_seq(l, #[trigger] chain_word(j)) {
        assert(chain_order(StoreKind::Coop) == 0);
        match k {
            StoreKind::Coop => {},
            StoreKind::Hemkop => {
                assert(!contains_seq(l, chain_word(StoreKind::Coop)));
            },
            StoreKind::Ica => {
                assert(!contains_seq(l, chain_word(StoreKind::Coop)));
                assert(!contains_seq(l, chain_word(StoreKind::Hemkop)));
            },
            StoreKind::Willys => {
                assert(!contains_seq(l, chain_word(StoreKind::Coop)));
                assert(!contains_seq(l, chain_word(StoreKind::Hemkop)));
                assert(!contains_seq(l, chain_word(StoreKind::Ica)));
            },
        }
    }
}

/// A chain's word anywhere in a name, before or after any other text,
/// routes the store to that chain, where no earlier chain's word occurs.
pub proof fn lemma_store_kind_anywhere(x: Seq<char>, y: Seq<char>, k: StoreKind)
    requires
        forall|j: StoreKind|
            chain_order(j) < chain_order(k) ==> !contains_seq(
                x + chain_word(k) + y,
                #[trigger] chain_word(j),
            ),
    ensures
        store_kind_of(x + chain_word(k) + y) == Some(k),
{
    lemma_contains_anywhere(x, chain_word(k), y);
    lemma_store_kind_is_first_word_found(x + chain_word(k) + y, k);
}

/// A name with `coop` anywhere in it goes to Coop.
pub proof fn lemma_coop_anywhere(x: Seq<char>, y: Seq<char>)
    ensures
        store_kind_of(x + seq!['c', 'o', 'o', 'p'] + y) == Some(StoreKind::Coop),
{
    lemma_store_kind_anywhere(x, y, StoreKind::Coop);
}

/// What `str::to_lowercase` gives for a text: the Unicode lower-case
/// mapping, which takes tables to state.
pub uninterp spec fn lowercase(s: Seq<char>) -> Seq<char>;

/// `str::to_lowercase`. Claimed: the result is `lowercase` of the text.
#[verifier::external_body]
fn to_lowercase(s: &str) -> (r: String)
    ensures
        r@ == lowercase(s@),
{
    s.to_lowercase()
}

/// The chain of a store from its already lower-cased name.
pub fn store_kind_from_lowercase(lower: &str) -> (r: Option<StoreKind>)
    ensures
        r == store_kind_of(lower@),
{
    let l = chars_of(lower);
    let coop = vec!['c', 'o', 'o', 'p'];
    let hemkop = vec!['h', 'e', 'm', 'k', 'ö', 'p'];
    let ica = vec!['i', 'c', 'a'];
    let willys = vec!['w', 'i', 'l', 'l', 'y', 's'];
    assert(coop@ =~= seq!['c', 'o', 'o', 'p']);
    assert(hemkop@ =~= seq!['h', 'e', 'm', 'k', 'ö', 'p']);
    assert(ica@ =~= seq!['i', 'c', 'a']);
    assert(willys@ =~= seq!['w', 'i', 'l', 'l', 'y', 's']);
    if contains(&l, &coop) {
        Some(StoreKind::Coop)
    } else if contains(&l, &hemkop) {
        Some(StoreKind::Hemkop)
    } else if contains(&l, &ica) {
        Some(StoreKind::Ica)
    } else if contains(&l, &willys) {
        Some(StoreKind::Willys)
    } else {
        None
    }
}

/// The chain of a store from its name, compared in lower case; `None` for a
/// store that no crawler knows.
pub fn store_kind(butik_name: &str) -> (r: Option<StoreKind>)
    ensures
        r == store_kind_of(lowercase(butik_name@)),
{
    let lower = to_lowercase(butik_name);
    store_kind_from_lowercase(lower.as_str())
}

impl CrawlTask {
    /// Which chain the store named here belongs to.
    pub fn store_kind(&self) -> (r: Option<StoreKind>)
        ensures
            r == store_kind_of(lowercase(self.butik_name@)),
    {
        store_kind(self.butik_name.as_str())
    }
}

// ---------------------------------------------------------------------
// Delays between requests
// ---------------------------------------------------------------------

/// `Rng::gen_range` on `rand::thread_rng()`. Claimed: the number lies in
/// `low..high`; which one comes is left open.
#[verifier::external_body]
fn random_in_range(low: u64, high: u64) -> (r: u64)
    requires
        low < high,
    ensures
        low <= r < high,
{
    rand::thread_rng().gen_range(low..high)
}

/// The delay, in seconds, that a crawler without its own waits after each
/// request: a random whole number from 1 to 4.
pub fn default_crawl_delay() -> (r: u64)
    ensures
        1 <= r < 5,
{
    random_in_range(1, 5)
}

} // verus!
