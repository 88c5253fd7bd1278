//! Text helpers: numerals, letter case and comparison of strings.

use vstd::prelude::*;

verus! {

/// The character for the digit `d` of a numeral in base ten or sixteen.
pub open spec fn digit_char(d: int) -> char {
    if d < 10 {
        (('0' as int) + d) as char
    } else {
        (('a' as int) + (d - 10)) as char
    }
}

/// The decimal numeral of `n`, without leading zeros.
pub open spec fn decimal(n: nat) -> Seq<char>
    decreases n,
{
    if n < 10 {
        seq![digit_char(n as int)]
    } else {
        decimal(n / 10).push(digit_char((n % 10) as int))
    }
}

/// The last `width` digits of `n` in lower-case hexadecimal, padded with zeros.
pub open spec fn hexadecimal(n: nat, width: nat) -> Seq<char>
    decreases width,
{
    if width == 0 {
        Seq::empty()
    } else {
        hexadecimal(n / 16, (width - 1) as nat).push(digit_char((n % 16) as int))
    }
}

/// Whether every character is an ASCII character.
pub open spec fn all_ascii(s: Seq<char>) -> bool {
    forall|i: int| 0 <= i < s.len() ==> (s[i] as int) < 128
}

/// The lower-case form of one ASCII character.
pub open spec fn ascii_lower(c: char) -> char {
    if 'A' <= c <= 'Z' {
        ((c as int) + 32) as char
    } else {
        c
    }
}

/// The upper-case form of one ASCII character.
pub open spec fn ascii_upper(c: char) -> char {
    if 'a' <= c <= 'z' {
        ((c as int) - 32) as char
    } else {
        c
    }
}

/// What `str::to_lowercase` gives for a text with a character outside ASCII.
pub uninterp spec fn unicode_lowercase(s: Seq<char>) -> Seq<char>;

/// What `str::to_uppercase` gives for a text with a character outside ASCII.
pub uninterp spec fn unicode_uppercase(s: Seq<char>) -> Seq<char>;

/// The lower-case form of a text.
pub open spec fn lowercase(s: Seq<char>) -> Seq<char> {
    if all_ascii(s) {
        s.map_values(|c: char| ascii_lower(c))
    } else {
        unicode_lowercase(s)
    }
}

/// The upper-case form of a text.
pub open spec fn uppercase(s: Seq<char>) -> Seq<char> {
    if all_ascii(s) {
        s.map_values(|c: char| ascii_upper(c))
    } else {
        unicode_uppercase(s)
    }
}

/// Calls `str::to_lowercase`: each ASCII capital becomes its small letter and every other
/// ASCII character stays; what becomes of a text with other characters depends on that
/// text alone.
#[verifier::external_body]
fn std_to_lowercase(s: &str) -> (r: String)
    ensures
        all_ascii(s@) ==> r@ == s@.map_values(|c: char| ascii_lower(c)),
        !all_ascii(s@) ==> r@ == unicode_lowercase(s@),
{
    s.to_lowercase()
}

/// Calls `str::to_uppercase`: each ASCII small letter becomes its capital and every other
/// ASCII character stays; what becomes of a text with other characters depends on that
/// text alone.
#[verifier::external_body]
fn std_to_uppercase(s: &str) -> (r: String)
    ensures
        all_ascii(s@) ==> r@ == s@.map_values(|c: char| ascii_upper(c)),
        !all_ascii(s@) ==> r@ == unicode_uppercase(s@),
{
    s.to_uppercase()
}

/// The text in lower case.
pub fn to_lower(s: &str) -> (r: String)
    ensures
        r@ == lowercase(s@),
{
    std_to_lowercase(s)
}

/// The text in upper case.
pub fn to_upper(s: &str) -> (r: String)
    ensures
        r@ == uppercase(s@),
{
    std_to_uppercase(s)
}

/// One text after another.
pub fn prefixed(prefix: &str, text: &str) -> (r: String)
    ensures
        r@ == prefix@ + text@,
{
    let mut r: String = prefix.to_owned();
    r.append(text);
    r
}

/// Whether two texts hold the same characters.
pub fn same_text(a: &str, b: &str) -> (r: bool)
    ensures
        r == (a@ == b@),
{
    a.to_owned() == b.to_owned()
}

/// The characters of a text, in order.
pub fn chars_of(s: &str) -> (v: Vec<char>)
    ensures
        v@ == s@,
{
    let mut v: Vec<char> = Vec::new();
    for c in it: s.chars()
        invariant
            it.seq() == s@,
            v@ == s@.take(it.index() as int),
    {
        v.push(c);
    }
    v
}

/// The one-character text for a digit.
fn digit_text(d: u64) -> (r: &'static str)
    requires
        d < 16,
    ensures
        r@ == seq![digit_char(d as int)],
{
    proof {
        reveal_strlit("0");
        reveal_strlit("1");
        reveal_strlit("2");
        reveal_strlit("3");
        reveal_strlit("4");
        reveal_strlit("5");
        reveal_strlit("6");
        reveal_strlit("7");
        reveal_strlit("8");
        reveal_strlit("9");
        reveal_strlit("a");
        reveal_strlit("b");
        reveal_strlit("c");
        reveal_strlit("d");
        reveal_strlit("e");
        reveal_strlit("f");
    }
    match d {
        0 => "0",
        1 => "1",
        2 => "2",
        3 => "3",
        4 => "4",
        5 => "5",
        6 => "6",
        7 => "7",
        8 => "8",
        9 => "9",
        10 => "a",
        11 => "b",
        12 => "c",
        13 => "d",
        14 => "e",
        _ => "f",
    }
}

/// Appends the decimal numeral of `n`.
pub fn append_decimal(text: &mut String, n: u64)
    ensures
        final(text)@ == old(text)@ + decimal(n as nat),
    decreases n,
{
    if n >= 10 {
        append_decimal(text, n / 10);
    }
    let digit: u64 = n % 10;
    text.append(digit_text(digit));
    proof {
        if n >= 10 {
            assert(old(text)@ + decimal((n / 10) as nat) + seq![digit_char(digit as int)]
                =~= old(text)@ + decimal(n as nat));
        } else {
            assert(decimal(n as nat) =~= seq![digit_char(digit as int)]);
        }
    }
}

/// Appends the last `width` hexadecimal digits of `n`.
pub fn append_hexadecimal(text: &mut String, n: u64, width: u64)
    ensures
        final(text)@ == old(text)@ + hexadecimal(n as nat, width as nat),
    decreases width,
{
    if width > 0 {
        append_hexadecimal(text, n / 16, width - 1);
        let digit: u64 = n % 16;
        text.append(digit_text(digit));
        proof {
            assert(old(text)@ + hexadecimal((n / 16) as nat, (width - 1) as nat)
                + seq![digit_char(digit as int)] =~= old(text)@ + hexadecimal(
                n as nat,
                width as nat,
            ));
        }
    }
}

/// A hexadecimal numeral has the width it was asked for.
pub proof fn lemma_hexadecimal_len(n: nat, width: nat)
    ensures
        hexadecimal(n, width).len() == width,
    decreases width,
{
    if width > 0 {
        lemma_hexadecimal_len(n / 16, (width - 1) as nat);
    }
}

/// Different numbers have different decimal numerals.
pub proof fn lemma_decimal_injective(a: nat, b: nat)
    requires
        decimal(a) == decimal(b),
    ensures
        a == b,
    decreases a,
{
    lemma_decimal_nonempty(a);
    lemma_decimal_nonempty(b);
    if a >= 10 && b >= 10 {
        assert(decimal(a).drop_last() =~= decimal(a / 10));
        assert(decimal(b).drop_last() =~= decimal(b / 10));
        assert(decimal(a).last() == digit_char((a % 10) as int));
        assert(decimal(b).last() == digit_char((b % 10) as int));
        lemma_decimal_injective(a / 10, b / 10);
    } else if a < 10 && b < 10 {
        assert(decimal(a)[0] == digit_char(a as int));
        assert(decimal(b)[0] == digit_char(b as int));
    } else if a >= 10 {
        lemma_decimal_nonempty(a / 10);
    } else {
        lemma_decimal_nonempty(b / 10);
    }
}

/// A decimal numeral has a digit, and holds digits only.
pub proof fn lemma_decimal_nonempty(n: nat)
    ensures
        decimal(n).len() > 0,
        forall|i: int| 0 <= i < decimal(n).len() ==> '0' <= #[trigger] decimal(n)[i] <= '9',
    decreases n,
{
    if n >= 10 {
        lemma_decimal_nonempty(n / 10);
    }
}

/// The number that a numeral stands for, read digit by digit in a base.
pub open spec fn numeral_value(s: Seq<char>, base: nat) -> int
    decreases s.len(),
{
    if s.len() == 0 {
        0
    } else {
        numeral_value(s.drop_last(), base) * base + if '0' <= s.last() <= '9' {
            s.last() as int - '0' as int
        } else {
            s.last() as int - 'a' as int + 10
        }
    }
}

/// A decimal numeral reads as its number, holds nothing but digits, and starts with no zero
/// unless it is one.
pub proof fn law_decimals_read_as_their_number(n: nat)
    ensures
        numeral_value(decimal(n), 10) == n,
        decimal(n).len() > 0,
        forall|i: int| 0 <= i < decimal(n).len() ==> '0' <= #[trigger] decimal(n)[i] <= '9',
        decimal(n)[0] == '0' ==> n == 0 && decimal(n).len() == 1,
    decreases n,
{
    lemma_decimal_nonempty(n);
    if n >= 10 {
        law_decimals_read_as_their_number(n / 10);
        assert(decimal(n).drop_last() =~= decimal(n / 10));
    } else {
        assert(decimal(n).drop_last() =~= Seq::empty());
        assert(numeral_value(Seq::<char>::empty(), 10) == 0);
    }
}

/// A hexadecimal numeral has the width that was asked for, and reads as its number where that
/// width suffices.
pub proof fn law_hexadecimals_read_as_their_number(n: nat, width: nat)
    ensures
        hexadecimal(n, width).len() == width,
        forall|i: int|
            0 <= i < width ==> '0' <= #[trigger] hexadecimal(n, width)[i] <= '9' || 'a'
                <= hexadecimal(n, width)[i] <= 'f',
        n < vstd::arithmetic::power::pow(16, width) ==> numeral_value(hexadecimal(n, width), 16)
            == n,
    decreases width,
{
    lemma_hexadecimal_len(n, width);
    if width == 0 {
        vstd::arithmetic::power::lemma_pow0(16);
    } else {
        let shorter = (width - 1) as nat;
        law_hexadecimals_read_as_their_number(n / 16, shorter);
        assert(hexadecimal(n, width).drop_last() =~= hexadecimal(n / 16, shorter));
        vstd::arithmetic::power::lemma_pow_adds(16, 1, shorter);
        vstd::arithmetic::power::lemma_pow1(16);
        assert forall|i: int| 0 <= i < width implies '0' <= #[trigger] hexadecimal(n, width)[i]
            <= '9' || 'a' <= hexadecimal(n, width)[i] <= 'f' by {
            if i < shorter {
                assert(hexadecimal(n, width)[i] == hexadecimal(n / 16, shorter)[i]);
            }
        }
    }
}

/// Lower case changes the capitals of an ASCII text into their small letters, and upper case
/// the other way round, and neither changes anything else of it.
pub proof fn law_letter_case_changes_letters_only(s: Seq<char>, i: int)
    requires
        forall|j: int| 0 <= j < s.len() ==> (#[trigger] s[j] as int) < 128,
        0 <= i < s.len(),
    ensures
        lowercase(s).len() == s.len(),
        uppercase(s).len() == s.len(),
        'A' <= s[i] <= 'Z' ==> lowercase(s)[i] as int - 'a' as int == s[i] as int - 'A' as int,
        !('A' <= s[i] <= 'Z') ==> lowercase(s)[i] == s[i],
        'a' <= s[i] <= 'z' ==> uppercase(s)[i] as int - 'A' as int == s[i] as int - 'a' as int,
        !('a' <= s[i] <= 'z') ==> uppercase(s)[i] == s[i],
{
    assert(all_ascii(s));
}

/// What becomes of a text with other characters is what the standard library makes of it.
pub proof fn law_other_texts_keep_to_unicode(s: Seq<char>, i: int)
    requires
        0 <= i < s.len(),
        s[i] as int >= 128,
    ensures
        lowercase(s) == unicode_lowercase(s),
        uppercase(s) == unicode_uppercase(s),
{
    assert(!all_ascii(s));
}

} // verus!
