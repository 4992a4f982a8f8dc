//! Text primitives over sequences of characters: the pieces that price
//! strings are cut into, and decimal numerals in both directions.
use vstd::prelude::*;

verus! {

// ---------------------------------------------------------------------
// Character classes
// ---------------------------------------------------------------------

/// The Unicode `White_Space` property, the set that `char::is_whitespace`
/// tests for.
pub open spec fn is_white_space(c: char) -> bool {
    let u = c as u32;
    ||| 0x09 <= u <= 0x0D
    ||| u == 0x20
    ||| u == 0x85
    ||| u == 0xA0
    ||| u == 0x1680
    ||| 0x2000 <= u <= 0x200A
    ||| u == 0x2028
    ||| u == 0x2029
    ||| u == 0x202F
    ||| u == 0x205F
    ||| u == 0x3000
}

/// An ASCII decimal digit.
pub open spec fn is_digit(c: char) -> bool {
    '0' <= c <= '9'
}

/// The value of an ASCII decimal digit.
pub open spec fn digit_value(c: char) -> nat {
    (c as u32 - '0' as u32) as nat
}

/// The character of a digit value below ten.
pub open spec fn digit_char(d: nat) -> char {
    if d == 0 {
        '0'
    } else if d == 1 {
        '1'
    } else if d == 2 {
        '2'
    } else if d == 3 {
        '3'
    } else if d == 4 {
        '4'
    } else if d == 5 {
        '5'
    } else if d == 6 {
        '6'
    } else if d == 7 {
        '7'
    } else if d == 8 {
        '8'
    } else {
        '9'
    }
}

/// The character of a digit value below ten.
pub fn digit_to_char(d: u32) -> (c: char)
    requires
        d < 10,
    ensures
        c == digit_char(d as nat),
        is_digit(c),
        digit_value(c) == d,
{
    if d == 0 {
        '0'
    } else if d == 1 {
        '1'
    } else if d == 2 {
        '2'
    } else if d == 3 {
        '3'
    } else if d == 4 {
        '4'
    } else if d == 5 {
        '5'
    } else if d == 6 {
        '6'
    } else if d == 7 {
        '7'
    } else if d == 8 {
        '8'
    } else {
        '9'
    }
}

/// A digit character is a digit of the value it was made from.
pub proof fn lemma_digit_char(d: nat)
    requires
        d < 10,
    ensures
        is_digit(digit_char(d)),
        digit_value(digit_char(d)) == d,
        digit_char(d) != '+',
{
}

/// Whether `c` has the Unicode `White_Space` property.
pub fn is_white_space_char(c: char) -> (r: bool)
    ensures
        r == is_white_space(c),
{
    let u = c as u32;
    (0x09 <= u && u <= 0x0D) || u == 0x20 || u == 0x85 || u == 0xA0 || u == 0x1680 || (0x2000
        <= u && u <= 0x200A) || u == 0x2028 || u == 0x2029 || u == 0x202F || u == 0x205F || u
        == 0x3000
}

// ---------------------------------------------------------------------
// Trimming
// ---------------------------------------------------------------------

/// `s` without its leading white space.
pub open spec fn trim_start(s: Seq<char>) -> Seq<char>
    decreases s.len(),
{
    if s.len() > 0 && is_white_space(s[0]) {
        trim_start(s.drop_first())
    } else {
        s
    }
}

/// `s` without its trailing white space.
pub open spec fn trim_end(s: Seq<char>) -> Seq<char>
    decreases s.len(),
{
    if s.len() > 0 && is_white_space(s.last()) {
        trim_end(s.drop_last())
    } else {
        s
    }
}

/// `s` without white space at either end (what `str::trim` gives).
pub open spec fn trim(s: Seq<char>) -> Seq<char> {
    trim_end(trim_start(s))
}

/// `s[i..j]` is `s` without the white space at its ends: everything before
/// `i` and from `j` on is white space, and where `s[i..j]` is not empty it
/// starts and ends with a character that is not.
pub open spec fn trimmed_between(s: Seq<char>, i: int, j: int) -> bool {
    &&& 0 <= i <= j <= s.len()
    &&& forall|k: int| 0 <= k < i ==> is_white_space(#[trigger] s[k])
    &&& forall|k: int| j <= k < s.len() ==> is_white_space(#[trigger] s[k])
    &&& i < j ==> !is_white_space(s[i]) && !is_white_space(s[j - 1])
}

proof fn lemma_trim_start_skip(s: Seq<char>, i: int)
    requires
        0 <= i <= s.len(),
        forall|k: int| 0 <= k < i ==> is_white_space(#[trigger] s[k]),
        i < s.len() ==> !is_white_space(s[i]),
    ensures
        trim_start(s) == s.skip(i),
    decreases i,
{
    if i == 0 {
        assert(s.skip(0) =~= s);
    } else {
        assert(is_white_space(s[0]));
        let t = s.drop_first();
        assert forall|k: int| 0 <= k < i - 1 implies is_white_space(#[trigger] t[k]) by {
            assert(t[k] == s[k + 1]);
        }
        if i < s.len() {
            assert(t[i - 1] == s[i]);
        }
        lemma_trim_start_skip(t, i - 1);
        assert(t.skip(i - 1) =~= s.skip(i));
    }
}

proof fn lemma_trim_end_take(s: Seq<char>, j: int)
    requires
        0 <= j <= s.len(),
        forall|k: int| j <= k < s.len() ==> is_white_space(#[trigger] s[k]),
        j > 0 ==> !is_white_space(s[j - 1]),
    ensures
        trim_end(s) == s.take(j),
    decreases s.len() - j,
{
    if j == s.len() {
        assert(s.take(j) =~= s);
    } else {
        assert(is_white_space(s[s.len() - 1]));
        let t = s.drop_last();
        assert forall|k: int| j <= k < t.len() implies is_white_space(#[trigger] t[k]) by {
            assert(t[k] == s[k]);
        }
        if j > 0 {
            assert(t[j - 1] == s[j - 1]);
        }
        lemma_trim_end_take(t, j);
        assert(t.take(j) =~= s.take(j));
    }
}

/// Trimming removes exactly the white space at both ends of a text, and
/// nothing else.
pub proof fn lemma_trim_exact(s: Seq<char>, i: int, j: int)
    requires
        trimmed_between(s, i, j),
    ensures
        trim(s) == s.subrange(i, j),
{
    if i < j {
        lemma_trim_start_skip(s, i);
        let u = s.skip(i);
        assert forall|k: int| j - i <= k < u.len() implies is_white_space(#[trigger] u[k]) by {
            assert(u[k] == s[k + i]);
        }
        assert(u[j - i - 1] == s[j - 1]);
        lemma_trim_end_take(u, j - i);
        assert(u.take(j - i) =~= s.subrange(i, j));
    } else {
        assert forall|k: int| 0 <= k < s.len() implies is_white_space(#[trigger] s[k]) by {
            if k >= j {
            } else {
                assert(k < i);
            }
        }
        lemma_trim_start_skip(s, s.len() as int);
        assert(s.skip(s.len() as int) =~= Seq::<char>::empty());
        assert(s.subrange(i, j) =~= Seq::<char>::empty());
    }
}

/// White space added at the end of a text is trimmed away again.
pub proof fn lemma_trim_trailing_white_space(s: Seq<char>, c: char)
    requires
        is_white_space(c),
    ensures
        trim(s + seq![c]) == trim(s),
    decreases s.len(),
{
    let t = s + seq![c];
    if s.len() == 0 {
        assert(t.drop_first() =~= Seq::<char>::empty());
        assert(trim_start(t) == trim_start(t.drop_first()));
    } else if is_white_space(s[0]) {
        assert(t[0] == s[0]);
        assert(t.drop_first() =~= s.drop_first() + seq![c]);
        lemma_trim_trailing_white_space(s.drop_first(), c);
    } else {
        assert(t[0] == s[0]);
        assert(t.last() == c);
        assert(t.drop_last() =~= s);
    }
}

/// `s` with the suffix `suffix` removed as many times as it ends with it
/// (what `str::trim_end_matches` gives for a non-empty string pattern).
pub open spec fn strip_suffixes(s: Seq<char>, suffix: Seq<char>) -> Seq<char>
    decreases s.len(),
{
    if suffix.len() > 0 && s.len() >= suffix.len() && s.subrange(
        s.len() - suffix.len(),
        s.len() as int,
    ) == suffix {
        strip_suffixes(s.subrange(0, s.len() - suffix.len()), suffix)
    } else {
        s
    }
}

/// The length of `strip_suffixes(v, suffix)`, which is a prefix of `v`.
pub fn strip_suffixes_len(v: &Vec<char>, suffix: &Vec<char>) -> (e: usize)
    requires
        suffix.len() > 0,
    ensures
        e <= v.len(),
        v@.subrange(0, e as int) == strip_suffixes(v@, suffix@),
{
    let n = suffix.len();
    let mut e = v.len();
    assert(v@.subrange(0, e as int) =~= v@);
    while e >= n && ends_with_at(v, e, suffix)
        invariant
            n == suffix.len(),
            n > 0,
            e <= v.len(),
            strip_suffixes(v@.subrange(0, e as int), suffix@) == strip_suffixes(v@, suffix@),
        decreases e,
    {
        let ghost s = v@.subrange(0, e as int);
        assert(s.subrange(s.len() - n, s.len() as int) =~= v@.subrange(e - n, e as int));
        assert(s.subrange(0, s.len() - n) =~= v@.subrange(0, e - n));
        e = e - n;
    }
    proof {
        let s = v@.subrange(0, e as int);
        if e >= n {
            assert(s.subrange(s.len() - n, s.len() as int) =~= v@.subrange(e - n, e as int));
        }
    }
    e
}

/// Whether `v[e - suffix.len() .. e]` is `suffix`.
fn ends_with_at(v: &Vec<char>, e: usize, suffix: &Vec<char>) -> (r: bool)
    requires
        suffix.len() <= e <= v.len(),
    ensures
        r == (v@.subrange(e - suffix.len(), e as int) == suffix@),
{
    let n = suffix.len();
    let start = e - n;
    let mut i: usize = 0;
    while i < n
        invariant
            n == suffix.len(),
            start + n == e,
            e <= v.len(),
            i <= n,
            forall|j: int| 0 <= j < i ==> v@[start + j] == suffix@[j],
        decreases n - i,
    {
        if v[start + i] != suffix[i] {
            assert(v@.subrange(start as int, e as int)[i as int] != suffix@[i as int]);
            return false;
        }
        i = i + 1;
    }
    assert(v@.subrange(start as int, e as int) =~= suffix@);
    true
}

/// The bounds of `trim(v[lo..hi])` inside `v`.
pub fn trim_bounds(v: &Vec<char>, lo: usize, hi: usize) -> (r: (usize, usize))
    requires
        lo <= hi <= v.len(),
    ensures
        lo <= r.0 <= r.1 <= hi,
        v@.subrange(r.0 as int, r.1 as int) == trim(v@.subrange(lo as int, hi as int)),
{
    let mut a = lo;
    while a < hi && is_white_space_char(v[a])
        invariant
            lo <= a <= hi <= v.len(),
            trim_start(v@.subrange(a as int, hi as int)) == trim_start(
                v@.subrange(lo as int, hi as int),
            ),
        decreases hi - a,
    {
        assert(v@.subrange(a as int, hi as int).drop_first() =~= v@.subrange(
            a + 1,
            hi as int,
        ));
        a = a + 1;
    }
    assert(trim_start(v@.subrange(a as int, hi as int)) == v@.subrange(a as int, hi as int));
    let mut b = hi;
    while b > a && is_white_space_char(v[b - 1])
        invariant
            lo <= a <= b <= hi <= v.len(),
            trim_end(v@.subrange(a as int, b as int)) == trim(v@.subrange(lo as int, hi as int)),
        decreases b - a,
    {
        assert(v@.subrange(a as int, b as int).drop_last() =~= v@.subrange(
            a as int,
            b - 1,
        ));
        b = b - 1;
    }
    (a, b)
}

// ---------------------------------------------------------------------
// Fields separated by a set of separator characters
// ---------------------------------------------------------------------

/// The length of the first field of `s`: the number of characters before
/// the first one for which `is_sep` holds (all of them where none does).
pub open spec fn field_len(s: Seq<char>, is_sep: spec_fn(char) -> bool) -> nat
    decreases s.len(),
{
    if s.len() == 0 {
        0
    } else if is_sep(s[0]) {
        0
    } else {
        field_len(s.drop_first(), is_sep) + 1
    }
}

/// A text without separators is a single field.
pub proof fn lemma_field_len_no_sep(s: Seq<char>, is_sep: spec_fn(char) -> bool)
    requires
        forall|j: int| 0 <= j < s.len() ==> !is_sep(#[trigger] s[j]),
    ensures
        field_len(s, is_sep) == s.len(),
    decreases s.len(),
{
    if s.len() > 0 {
        assert forall|j: int| 0 <= j < s.drop_first().len() implies !is_sep(
            #[trigger] s.drop_first()[j],
        ) by {
            assert(s.drop_first()[j] == s[j + 1]);
        }
        lemma_field_len_no_sep(s.drop_first(), is_sep);
    }
}

/// The first field ends at the first separator.
pub proof fn lemma_field_len_at(s: Seq<char>, is_sep: spec_fn(char) -> bool, n: nat)
    requires
        n < s.len(),
        is_sep(s[n as int]),
        forall|j: int| 0 <= j < n ==> !is_sep(#[trigger] s[j]),
    ensures
        field_len(s, is_sep) == n,
    decreases n,
{
    if n > 0 {
        assert forall|j: int| 0 <= j < n - 1 implies !is_sep(#[trigger] s.drop_first()[j]) by {
            assert(s.drop_first()[j] == s[j + 1]);
        }
        assert(s.drop_first()[n - 1] == s[n as int]);
        assert(!is_sep(s[0]));
        lemma_field_len_at(s.drop_first(), is_sep, (n - 1) as nat);
    }
}

// ---------------------------------------------------------------------
// Decimal numerals
// ---------------------------------------------------------------------

/// Every character of `s` is a decimal digit.
pub open spec fn all_digits(s: Seq<char>) -> bool {
    forall|i: int| 0 <= i < s.len() ==> is_digit(#[trigger] s[i])
}

/// The value of a string of decimal digits, most significant first.
pub open spec fn digits_value(s: Seq<char>) -> nat
    decreases s.len(),
{
    if s.len() == 0 {
        0
    } else {
        digits_value(s.drop_last()) * 10 + digit_value(s.last())
    }
}

/// What `str::parse` gives for an unsigned integer type whose largest
/// value is `max`: an optional `+` followed by at least one decimal digit
/// and nothing else, of value at most `max`.
pub open spec fn parse_unsigned(s: Seq<char>, max: nat) -> Option<u32> {
    let d = if s.len() > 0 && s[0] == '+' {
        s.drop_first()
    } else {
        s
    };
    if d.len() > 0 && all_digits(d) && digits_value(d) <= max {
        Some(digits_value(d) as u32)
    } else {
        None
    }
}

/// Parses `v[lo..hi]` as an unsigned integer of at most `max`. The running
/// value is held in a `u32`, capped at `max + 1`; the bound on `max` keeps
/// ten times that, plus a digit, within a `u32`. Callers read `u16` and `u8`
/// values.
pub(crate) fn parse_unsigned_at(v: &Vec<char>, lo: usize, hi: usize, max: u32) -> (r: Option<u32>)
    requires
        lo <= hi <= v.len(),
        max <= 1_000_000,
    ensures
        r == parse_unsigned(v@.subrange(lo as int, hi as int), max as nat),
{
    let ghost s = v@.subrange(lo as int, hi as int);
    let mut start = lo;
    if start < hi && v[start] == '+' {
        start = start + 1;
    }
    let ghost d = v@.subrange(start as int, hi as int);
    assert(d =~= (if s.len() > 0 && s[0] == '+' {
        s.drop_first()
    } else {
        s
    }));
    if start == hi {
        return None;
    }
    let mut val: u32 = 0;
    let mut i = start;
    while i < hi
        invariant
            lo <= start <= i <= hi <= v.len(),
            d == v@.subrange(start as int, hi as int),
            s == v@.subrange(lo as int, hi as int),
            d == (if s.len() > 0 && s[0] == '+' {
                s.drop_first()
            } else {
                s
            }),
            max <= 1_000_000,
            all_digits(v@.subrange(start as int, i as int)),
            val == (if digits_value(v@.subrange(start as int, i as int)) > max {
                max + 1
            } else {
                digits_value(v@.subrange(start as int, i as int)) as int
            }),
        decreases hi - i,
    {
        let c = v[i];
        if !('0' <= c && c <= '9') {
            assert(!is_digit(d[i - start]));
            return None;
        }
        let dv = (c as u32) - ('0' as u32);
        let ghost prev = v@.subrange(start as int, i as int);
        let ghost next = v@.subrange(start as int, i + 1);
        assert(next.drop_last() =~= prev);
        assert(digits_value(next) == digits_value(prev) * 10 + dv);
        if val > max {
            val = max + 1;
        } else {
            let n = val * 10 + dv;
            if n > max {
                val = max + 1;
            } else {
                val = n;
            }
        }
        i = i + 1;
    }
    assert(v@.subrange(start as int, i as int) =~= d);
    if val > max {
        None
    } else {
        Some(val)
    }
}

/// The decimal numeral of `n`, without leading zeros (`"0"` for zero).
pub open spec fn decimal(n: nat) -> Seq<char>
    decreases n,
{
    if n < 10 {
        seq![digit_char(n)]
    } else {
        decimal(n / 10).push(digit_char(n % 10))
    }
}

/// `s` padded with leading zeros to at least `width` characters.
pub open spec fn zero_pad(s: Seq<char>, width: nat) -> Seq<char>
    decreases width - s.len(),
{
    if s.len() < width {
        zero_pad(seq!['0'] + s, width)
    } else {
        s
    }
}

/// A decimal numeral is a non-empty string of digits of the value it
/// was written from.
pub proof fn lemma_decimal_digits(n: nat)
    ensures
        decimal(n).len() > 0,
        all_digits(decimal(n)),
        digits_value(decimal(n)) == n,
        decimal(n)[0] != '+',
    decreases n,
{
    if n < 10 {
        lemma_digit_char(n);
        assert(decimal(n).drop_last() =~= Seq::<char>::empty());
        assert(decimal(n).last() == digit_char(n));
        assert(digits_value(decimal(n)) == digits_value(decimal(n).drop_last()) * 10
            + digit_value(decimal(n).last()));
        assert(digits_value(Seq::<char>::empty()) == 0);
    } else {
        lemma_decimal_digits(n / 10);
        lemma_digit_char(n % 10);
        let s = decimal(n);
        assert(s.drop_last() =~= decimal(n / 10));
        assert(s.last() == digit_char(n % 10));
        assert(n == (n / 10) * 10 + n % 10);
        assert(digits_value(s) == digits_value(s.drop_last()) * 10 + digit_value(s.last()));
        assert(s[0] == decimal(n / 10)[0]);
        assert forall|i: int| 0 <= i < s.len() implies is_digit(#[trigger] s[i]) by {
            if i < s.len() - 1 {
                assert(s[i] == decimal(n / 10)[i]);
            }
        }
    }
}

/// A leading zero does not change the value of a numeral.
pub proof fn lemma_leading_zero(s: Seq<char>)
    ensures
        digits_value(seq!['0'] + s) == digits_value(s),
    decreases s.len(),
{
    let t = seq!['0'] + s;
    if s.len() > 0 {
        assert(t.drop_last() =~= seq!['0'] + s.drop_last());
        assert(t.last() == s.last());
        lemma_leading_zero(s.drop_last());
    } else {
        assert(t.drop_last() =~= Seq::<char>::empty());
        assert(t.last() == '0');
        assert(digit_value('0') == 0);
        assert(digits_value(Seq::<char>::empty()) == 0);
        assert(digits_value(t) == digits_value(t.drop_last()) * 10 + digit_value(t.last()));
    }
}

/// Padding with zeros keeps a numeral's digits and value.
pub proof fn lemma_zero_pad_digits(s: Seq<char>, width: nat)
    requires
        s.len() > 0,
        all_digits(s),
    ensures
        zero_pad(s, width).len() > 0,
        all_digits(zero_pad(s, width)),
        digits_value(zero_pad(s, width)) == digits_value(s),
        zero_pad(s, width)[0] == '+' ==> s[0] == '+',
    decreases width - s.len(),
{
    if s.len() < width {
        let t = seq!['0'] + s;
        lemma_leading_zero(s);
        assert forall|i: int| 0 <= i < t.len() implies is_digit(#[trigger] t[i]) by {
            if i > 0 {
                assert(t[i] == s[i - 1]);
            }
        }
        lemma_zero_pad_digits(t, width);
    }
}

/// Appends the decimal numeral of `n` to `out`.
pub fn push_decimal(out: &mut Vec<char>, n: u32)
    ensures
        final(out)@ == old(out)@ + decimal(n as nat),
{
    let mut rev: Vec<char> = Vec::new();
    let mut m = n;
    // Digits least significant first: decimal(n) == decimal(m) + reverse(rev)
    while m >= 10
        invariant
            decimal(n as nat) == decimal(m as nat) + rev@.reverse(),
        decreases m,
    {
        let d = m % 10;
        proof {
            assert(decimal(m as nat) == decimal((m / 10) as nat).push(digit_char((m % 10) as nat)));
            assert(rev@.push(digit_char(d as nat)).reverse() =~= seq![digit_char(d as nat)]
                + rev@.reverse());
        }
        rev.push(digit_to_char(d));
        m = m / 10;
    }
    proof {
        assert(rev@.push(digit_char(m as nat)).reverse() =~= seq![digit_char(m as nat)]
            + rev@.reverse());
    }
    rev.push(digit_to_char(m));
    let ghost start = out@;
    let len = rev.len();
    let mut i = len;
    while i > 0
        invariant
            i <= len == rev.len(),
            decimal(n as nat) == rev@.reverse(),
            out@ == start + rev@.subrange(i as int, len as int).reverse(),
        decreases i,
    {
        i = i - 1;
        out.push(rev[i]);
        assert(rev@.subrange(i as int, len as int).reverse() =~= rev@.subrange(
            (i + 1) as int,
            len as int,
        ).reverse().push(rev@[i as int]));
    }
    assert(rev@.subrange(0, len as int) =~= rev@);
}

/// A `String` holding the characters of `v`.
pub fn string_of(v: &Vec<char>) -> (s: String)
    ensures
        s@ == v@,
{
    let mut s = String::new();
    let mut i: usize = 0;
    while i < v.len()
        invariant
            i <= v.len(),
            s@ == v@.subrange(0, i as int),
        decreases v.len() - i,
    {
        push_char(&mut s, v[i]);
        assert(v@.subrange(0, i + 1) =~= v@.subrange(0, i as int).push(v@[i as int]));
        i = i + 1;
    }
    assert(v@.subrange(0, i as int) =~= v@);
    s
}

/// `String::push`. Claimed: the text gains `c` at its end.
#[verifier::external_body]
fn push_char(s: &mut String, c: char)
    ensures
        final(s)@ == old(s)@.push(c),
{
    s.push(c)
}

/// The characters of `s`, in order.
pub fn chars_of(s: &str) -> (v: Vec<char>)
    ensures
        v@ == s@,
{
    let mut v: Vec<char> = Vec::new();
    for c in it: s.chars()
        invariant
            v@ == it.seq().take(it.index()),
    {
        v.push(c);
    }
    v
}

/// Whether `needle` occurs in `hay` at position `i`.
pub open spec fn occurs_at(hay: Seq<char>, needle: Seq<char>, i: int) -> bool {
    0 <= i && i + needle.len() <= hay.len() && hay.subrange(i, i + needle.len()) == needle
}

/// Whether `needle` occurs somewhere in `hay` (what `str::contains` gives
/// for a string pattern).
pub open spec fn contains_seq(hay: Seq<char>, needle: Seq<char>) -> bool {
    exists|i: int| occurs_at(hay, needle, i)
}

/// A word occurs in any text that has it anywhere, not only at its start.
pub proof fn lemma_contains_anywhere(x: Seq<char>, w: Seq<char>, y: Seq<char>)
    ensures
        contains_seq(x + w + y, w),
{
    let h = x + w + y;
    assert(h.subrange(x.len() as int, x.len() + w.len() as int) =~= w);
    assert(occurs_at(h, w, x.len() as int));
}

/// Whether `needle` occurs in `hay`.
pub fn contains(hay: &Vec<char>, needle: &Vec<char>) -> (r: bool)
    ensures
        r == contains_seq(hay@, needle@),
{
    if needle.len() > hay.len() {
        assert forall|i: int| !occurs_at(hay@, needle@, i) by {}
        return false;
    }
    let last = hay.len() - needle.len();
    let mut i: usize = 0;
    loop
        invariant
            last + needle.len() == hay.len(),
            i <= last,
            forall|j: int| 0 <= j < i ==> !occurs_at(hay@, needle@, j),
        decreases last - i,
    {
        if ends_with_at(hay, i + needle.len(), needle) {
            assert(occurs_at(hay@, needle@, i as int));
            return true;
        }
        if i == last {
            assert forall|j: int| !occurs_at(hay@, needle@, j) by {
                if 0 <= j && j < i as int {
                    assert(!occurs_at(hay@, needle@, j));
                }
            }
            return false;
        }
        i = i + 1;
    }
}

} // verus!
