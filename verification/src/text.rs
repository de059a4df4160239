//! Text helpers: trimming, decimal rendering and string comparison.
use vstd::prelude::*;
use vstd::string::*;

verus! {

/// `String::push` appends one character.
pub assume_specification[ std::string::String::push ](s: &mut std::string::String, ch: char)
    ensures
        final(s)@ == old(s)@.push(ch),
;

/// Whether a character has the Unicode `White_Space` property: U+0009 to
/// U+000D, U+0020, U+0085, U+00A0, U+1680, U+2000 to U+200A, U+2028,
/// U+2029, U+202F, U+205F and U+3000.
pub open spec fn is_unicode_whitespace(c: char) -> bool {
    ||| ('\u{9}' <= c && c <= '\u{d}')
    ||| c == ' '
    ||| c == '\u{85}'
    ||| c == '\u{a0}'
    ||| c == '\u{1680}'
    ||| ('\u{2000}' <= c && c <= '\u{200a}')
    ||| c == '\u{2028}'
    ||| c == '\u{2029}'
    ||| c == '\u{202f}'
    ||| c == '\u{205f}'
    ||| c == '\u{3000}'
}

/// `char::is_whitespace`: whether the character has the Unicode
/// `White_Space` property.
pub assume_specification[ char::is_whitespace ](c: char) -> (b: bool)
    ensures
        b == is_unicode_whitespace(c),
;

/// `s` without its leading whitespace.
pub open spec fn trim_start_ws(s: Seq<char>) -> Seq<char>
    decreases s.len(),
{
    if s.len() > 0 && is_unicode_whitespace(s[0]) {
        trim_start_ws(s.drop_first())
    } else {
        s
    }
}

/// `s` without its trailing whitespace.
pub open spec fn trim_end_ws(s: Seq<char>) -> Seq<char>
    decreases s.len(),
{
    if s.len() > 0 && is_unicode_whitespace(s.last()) {
        trim_end_ws(s.drop_last())
    } else {
        s
    }
}

/// `s` without leading and trailing whitespace (what `str::trim` gives).
pub open spec fn trim_ws(s: Seq<char>) -> Seq<char> {
    trim_end_ws(trim_start_ws(s))
}

/// `s` without its trailing `/` characters.
pub open spec fn trim_end_slashes(s: Seq<char>) -> Seq<char>
    decreases s.len(),
{
    if s.len() > 0 && s.last() == '/' {
        trim_end_slashes(s.drop_last())
    } else {
        s
    }
}

/// Removing trailing slashes leaves a text that does not end with `/`.
pub proof fn lemma_trim_end_slashes(s: Seq<char>)
    ensures
        trim_end_slashes(s).len() > 0 ==> trim_end_slashes(s).last() != '/',
        trim_end_slashes(s).len() <= s.len(),
        trim_end_slashes(s) == s.subrange(0, trim_end_slashes(s).len() as int),
    decreases s.len(),
{
    if s.len() > 0 && s.last() == '/' {
        lemma_trim_end_slashes(s.drop_last());
        assert(s.drop_last().subrange(0, trim_end_slashes(s).len() as int) =~= s.subrange(
            0,
            trim_end_slashes(s).len() as int,
        ));
    } else {
        assert(s.subrange(0, s.len() as int) =~= s);
    }
}

/// `s` with leading and trailing whitespace removed, as `str::trim` does.
pub fn trim(s: &str) -> (r: &str)
    ensures
        r@ == trim_ws(s@),
{
    let n = s.unicode_len();
    let mut i: usize = 0;
    assert(s@.skip(0) =~= s@);
    while i < n && s.get_char(i).is_whitespace()
        invariant
            i <= n,
            n == s@.len(),
            trim_start_ws(s@) == trim_start_ws(s@.skip(i as int)),
        decreases n - i,
    {
        assert(s@.skip(i as int).drop_first() =~= s@.skip(i + 1));
        i = i + 1;
    }
    assert(trim_start_ws(s@) == s@.subrange(i as int, n as int)) by {
        assert(s@.skip(i as int) =~= s@.subrange(i as int, n as int));
    }
    let mut j: usize = n;
    while j > i && s.get_char(j - 1).is_whitespace()
        invariant
            i <= j <= n,
            n == s@.len(),
            trim_ws(s@) == trim_end_ws(s@.subrange(i as int, j as int)),
        decreases j,
    {
        assert(s@.subrange(i as int, j as int).drop_last() =~= s@.subrange(
            i as int,
            j - 1,
        ));
        j = j - 1;
    }
    s.substring_char(i, j)
}

/// `s` with its trailing `/` characters removed, as
/// `str::trim_end_matches('/')` does.
pub fn trim_trailing_slashes(s: &str) -> (r: &str)
    ensures
        r@ == trim_end_slashes(s@),
{
    let n = s.unicode_len();
    let mut j: usize = n;
    assert(s@.subrange(0, n as int) =~= s@);
    while j > 0 && s.get_char(j - 1) == '/'
        invariant
            j <= n,
            n == s@.len(),
            trim_end_slashes(s@) == trim_end_slashes(s@.subrange(0, j as int)),
        decreases j,
    {
        assert(s@.subrange(0, j as int).drop_last() =~= s@.subrange(0, j - 1));
        j = j - 1;
    }
    s.substring_char(0, j)
}

/// Whether two texts are equal.
pub fn str_eq(a: &str, b: &str) -> (r: bool)
    ensures
        r == (a@ == b@),
{
    a.to_owned() == b.to_owned()
}

/// The character of a decimal digit.
pub open spec fn digit_char(d: nat) -> char {
    if d == 0 {
        '0'
    } else if d == 1 {
        '1'
    } else if d == 2 {
        '2'
    } else if d == 3 {
        '3'
    } else if d == 4 {
        '4'
    } else if d == 5 {
        '5'
    } else if d == 6 {
        '6'
    } else if d == 7 {
        '7'
    } else if d == 8 {
        '8'
    } else {
        '9'
    }
}

/// The decimal text of a natural number, without leading zeros.
pub open spec fn decimal(n: nat) -> Seq<char>
    decreases n,
{
    if n < 10 {
        seq![digit_char(n)]
    } else {
        decimal(n / 10).push(digit_char(n % 10))
    }
}

/// The value of a text of decimal digits.
pub open spec fn digits_value(s: Seq<char>) -> nat
    decreases s.len(),
{
    if s.len() == 0 {
        0
    } else {
        digits_value(s.drop_last()) * 10 + char_digit(s.last())
    }
}

/// The value of a digit character.
pub open spec fn char_digit(c: char) -> nat {
    if c == '1' {
        1
    } else if c == '2' {
        2
    } else if c == '3' {
        3
    } else if c == '4' {
        4
    } else if c == '5' {
        5
    } else if c == '6' {
        6
    } else if c == '7' {
        7
    } else if c == '8' {
        8
    } else if c == '9' {
        9
    } else {
        0
    }
}

/// Whether a character is a decimal digit.
pub open spec fn is_digit(c: char) -> bool {
    '0' <= c <= '9'
}

/// The decimal text of `n` is made of digits, starts with a non-zero digit
/// unless it is `0`, and reads back as `n`.
pub proof fn law_decimal_reads_back(n: nat)
    ensures
        decimal(n).len() > 0,
        forall|i: int| 0 <= i < decimal(n).len() ==> is_digit(#[trigger] decimal(n)[i]),
        n > 0 ==> decimal(n)[0] != '0',
        digits_value(decimal(n)) == n,
    decreases n,
{
    if n >= 10 {
        law_decimal_reads_back(n / 10);
        assert(decimal(n).drop_last() =~= decimal(n / 10));
        let d = n % 10;
        assert(char_digit(digit_char(d)) == d);
        assert(n == (n / 10) * 10 + d);
        assert(decimal(n).last() == digit_char(d));
        assert(digits_value(decimal(n)) == digits_value(decimal(n / 10)) * 10 + char_digit(
            digit_char(d),
        ));
    } else {
        assert(char_digit(digit_char(n)) == n);
        assert(digits_value(decimal(n)) == digits_value(decimal(n).drop_last()) * 10
            + char_digit(decimal(n).last()));
        assert(digits_value(Seq::<char>::empty()) == 0);
        assert(decimal(n).drop_last() =~= Seq::<char>::empty());
    }
}

fn digit(d: u64) -> (c: char)
    requires
        d < 10,
    ensures
        c == digit_char(d as nat),
{
    if d == 0 {
        '0'
    } else if d == 1 {
        '1'
    } else if d == 2 {
        '2'
    } else if d == 3 {
        '3'
    } else if d == 4 {
        '4'
    } else if d == 5 {
        '5'
    } else if d == 6 {
        '6'
    } else if d == 7 {
        '7'
    } else if d == 8 {
        '8'
    } else {
        '9'
    }
}

/// The decimal text of `n`, as `u64::to_string` gives it.
pub fn u64_to_decimal(n: u64) -> (r: String)
    ensures
        r@ == decimal(n as nat),
    decreases n,
{
    if n < 10 {
        let mut s = String::new();
        s.push(digit(n));
        s
    } else {
        let mut s = u64_to_decimal(n / 10);
        s.push(digit(n % 10));
        s
    }
}

/// The text of a signed integer: a `-` before the decimal text of its
/// magnitude when it is negative.
pub open spec fn signed_decimal(n: int) -> Seq<char> {
    if n < 0 {
        seq!['-'] + decimal((-n) as nat)
    } else {
        decimal(n as nat)
    }
}

/// The decimal text of `n`, as `i64::to_string` gives it.
pub fn i64_to_decimal(n: i64) -> (r: String)
    ensures
        r@ == signed_decimal(n as int),
{
    if n < 0 {
        let magnitude: u64 = (0i128 - (n as i128)) as u64;
        let mut s = String::new();
        s.push('-');
        let digits = u64_to_decimal(magnitude);
        s.append(digits.as_str());
        s
    } else {
        u64_to_decimal(n as u64)
    }
}

/// Trimming removes exactly the leading and trailing whitespace: the result
/// is a contiguous part of the text that neither starts nor ends with
/// whitespace, and every character cut off before or after it is
/// whitespace.
pub proof fn law_trim_ws(s: Seq<char>)
    ensures
        exists|a: int, b: int|
            0 <= a <= b <= s.len() && #[trigger] s.subrange(a, b) == trim_ws(s) && (forall|i: int|
                0 <= i < a ==> is_unicode_whitespace(#[trigger] s[i])) && (forall|i: int|
                b <= i < s.len() ==> is_unicode_whitespace(#[trigger] s[i])),
        trim_ws(s).len() > 0 ==> !is_unicode_whitespace(trim_ws(s)[0]) && !is_unicode_whitespace(
            trim_ws(s).last(),
        ),
{
    lemma_trim_start(s);
    let t = trim_start_ws(s);
    let a = choose|a: int|
        0 <= a <= s.len() && #[trigger] s.subrange(a, s.len() as int) == t && (forall|i: int|
            0 <= i < a ==> is_unicode_whitespace(#[trigger] s[i]));
    lemma_trim_end(t);
    let b = choose|b: int|
        0 <= b <= t.len() && #[trigger] t.subrange(0, b) == trim_end_ws(t) && (forall|i: int|
            b <= i < t.len() ==> is_unicode_whitespace(#[trigger] t[i]));
    assert(s.subrange(a, a + b) =~= t.subrange(0, b));
    assert forall|i: int| a + b <= i < s.len() implies is_unicode_whitespace(#[trigger] s[i]) by {
        assert(s[i] == t[i - a]);
    }
    if trim_ws(s).len() > 0 {
        assert(trim_ws(s)[0] == t[0]);
        lemma_trim_start_not_ws_after_end(t);
    }
}

proof fn lemma_trim_start(s: Seq<char>)
    ensures
        trim_start_ws(s).len() > 0 ==> !is_unicode_whitespace(trim_start_ws(s)[0]),
        exists|a: int|
            0 <= a <= s.len() && #[trigger] s.subrange(a, s.len() as int) == trim_start_ws(s)
                && (forall|i: int| 0 <= i < a ==> is_unicode_whitespace(#[trigger] s[i])),
    decreases s.len(),
{
    if s.len() > 0 && is_unicode_whitespace(s[0]) {
        let t = s.drop_first();
        lemma_trim_start(t);
        let a = choose|a: int|
            0 <= a <= t.len() && #[trigger] t.subrange(a, t.len() as int) == trim_start_ws(t)
                && (forall|i: int| 0 <= i < a ==> is_unicode_whitespace(#[trigger] t[i]));
        assert(s.subrange(a + 1, s.len() as int) =~= t.subrange(a, t.len() as int));
        assert forall|i: int| 0 <= i < a + 1 implies is_unicode_whitespace(#[trigger] s[i]) by {
            if i > 0 {
                assert(s[i] == t[i - 1]);
            }
        }
    } else {
        assert(s.subrange(0, s.len() as int) =~= s);
    }
}

proof fn lemma_trim_end(s: Seq<char>)
    ensures
        trim_end_ws(s).len() > 0 ==> !is_unicode_whitespace(trim_end_ws(s).last()),
        exists|b: int|
            0 <= b <= s.len() && #[trigger] s.subrange(0, b) == trim_end_ws(s) && (forall|i: int|
                b <= i < s.len() ==> is_unicode_whitespace(#[trigger] s[i])),
        trim_end_ws(s).len() > 0 ==> trim_end_ws(s)[0] == s[0],
    decreases s.len(),
{
    if s.len() > 0 && is_unicode_whitespace(s.last()) {
        let t = s.drop_last();
        lemma_trim_end(t);
        let b = choose|b: int|
            0 <= b <= t.len() && #[trigger] t.subrange(0, b) == trim_end_ws(t) && (forall|i: int|
                b <= i < t.len() ==> is_unicode_whitespace(#[trigger] t[i]));
        assert(s.subrange(0, b) =~= t.subrange(0, b));
        assert forall|i: int| b <= i < s.len() implies is_unicode_whitespace(#[trigger] s[i]) by {
            if i < s.len() - 1 {
                assert(s[i] == t[i]);
            }
        }
    } else {
        assert(s.subrange(0, s.len() as int) =~= s);
    }
}

proof fn lemma_trim_start_not_ws_after_end(t: Seq<char>)
    requires
        t.len() > 0 ==> !is_unicode_whitespace(t[0]),
        trim_end_ws(t).len() > 0,
    ensures
        !is_unicode_whitespace(trim_end_ws(t)[0]),
        !is_unicode_whitespace(trim_end_ws(t).last()),
{
    lemma_trim_end(t);
}

/// Removing trailing slashes cuts off only `/` characters.
pub proof fn law_trim_end_slashes_cuts_slashes(s: Seq<char>)
    ensures
        forall|i: int| trim_end_slashes(s).len() <= i < s.len() ==> #[trigger] s[i] == '/',
    decreases s.len(),
{
    if s.len() > 0 && s.last() == '/' {
        law_trim_end_slashes_cuts_slashes(s.drop_last());
        lemma_trim_end_slashes(s.drop_last());
        assert forall|i: int| trim_end_slashes(s).len() <= i < s.len() implies #[trigger] s[i]
            == '/' by {
            if i < s.len() - 1 {
                assert(s[i] == s.drop_last()[i]);
            }
        }
    }
}

} // verus!
