//! Text that the engine renders and compares: decimal numbers, megabyte
//! figures and string equality.

use vstd::prelude::*;
use vstd::string::StrSliceExecFns;

verus! {

/// `String::push` appends one character to the string.
pub assume_specification[ String::push ](s: &mut String, c: char)
    ensures
        final(s)@ == old(s)@.push(c),
;

/// Whether two texts are the same, character for character.
pub fn str_eq(a: &str, b: &str) -> (same: bool)
    ensures
        same == (a@ == b@),
{
    a.to_owned() == b.to_owned()
}

/// The character that stands for the decimal digit `d`.
pub open spec fn digit_char(d: nat) -> char {
    ((48 + d) as u8) as char
}

/// The decimal rendering of `n`, without sign or leading zeros.
pub open spec fn decimal(n: nat) -> Seq<char>
    decreases n,
{
    if n < 10 {
        seq![digit_char(n)]
    } else {
        decimal(n / 10).push(digit_char(n % 10))
    }
}

/// A megabyte figure with two decimals, in hundredths of a megabyte: `kb`
/// kilobytes divided by 1024, rounded to the nearest hundredth, a tie going
/// to the even one.
pub open spec fn mb_hundredths(kb: nat) -> nat {
    let scaled = kb * 100;
    let whole = scaled / 1024;
    let rest = scaled % 1024;
    if rest > 512 || (rest == 512 && whole % 2 == 1) {
        whole + 1
    } else {
        whole
    }
}

/// The rendering of `kb` kilobytes as megabytes with two decimals, such as
/// `"487.50"`.
pub open spec fn mb_text(kb: nat) -> Seq<char> {
    let h = mb_hundredths(kb);
    decimal(h / 100) + seq!['.', digit_char((h % 100) / 10), digit_char(h % 10)]
}

fn digit(d: u8) -> (c: char)
    requires
        d < 10,
    ensures
        c == digit_char(d as nat),
{
    (48u8 + d) as char
}

/// Appends the decimal rendering of `n` to `out`.
pub fn push_decimal(out: &mut String, n: u128)
    ensures
        final(out)@ == old(out)@ + decimal(n as nat),
    decreases n,
{
    if n >= 10 {
        push_decimal(out, n / 10);
    }
    out.push(digit((n % 10) as u8));
    proof {
        if n < 10 {
            assert(old(out)@.push(digit_char(n as nat)) =~= old(out)@ + decimal(n as nat));
        } else {
            assert((old(out)@ + decimal((n / 10) as nat)).push(digit_char((n % 10) as nat))
                =~= old(out)@ + decimal(n as nat));
        }
    }
}

/// The decimal rendering of `n` as a string of its own.
pub fn decimal_string(n: u64) -> (text: String)
    ensures
        text@ == decimal(n as nat),
{
    let mut text = String::new();
    push_decimal(&mut text, n as u128);
    text
}

/// Appends `kb` kilobytes, rendered as megabytes with two decimals.
pub fn push_megabytes(out: &mut String, kb: u64)
    ensures
        final(out)@ == old(out)@ + mb_text(kb as nat),
{
    let scaled: u128 = (kb as u128) * 100;
    let whole: u128 = scaled / 1024;
    let rest: u128 = scaled % 1024;
    let h: u128 = if rest > 512 || (rest == 512 && whole % 2 == 1) {
        whole + 1
    } else {
        whole
    };
    assert(h == mb_hundredths(kb as nat));
    push_decimal(out, h / 100);
    out.push('.');
    out.push(digit(((h % 100) / 10) as u8));
    out.push(digit((h % 10) as u8));
    proof {
        let tail = seq!['.', digit_char(((h % 100) / 10) as nat), digit_char((h % 10) as nat)];
        assert((old(out)@ + decimal((h / 100) as nat)).push('.').push(tail[1]).push(tail[2])
            =~= old(out)@ + (decimal((h / 100) as nat) + tail));
    }
}

/// Whether `text` begins with `prefix`.
pub open spec fn has_prefix(text: Seq<char>, prefix: Seq<char>) -> bool {
    prefix.len() <= text.len() && text.take(prefix.len() as int) == prefix
}

/// Whether `text` begins with `prefix`.
pub fn starts_with(text: &str, prefix: &str) -> (begins: bool)
    ensures
        begins == has_prefix(text@, prefix@),
{
    let n: usize = prefix.unicode_len();
    if n > text.unicode_len() {
        return false;
    }
    let mut i: usize = 0;
    while i < n
        invariant
            0 <= i <= n,
            n == prefix@.len(),
            n <= text@.len(),
            text@.take(i as int) == prefix@.take(i as int),
        decreases n - i,
    {
        if text.get_char(i) != prefix.get_char(i) {
            assert(text@.take(n as int)[i as int] != prefix@[i as int]);
            return false;
        }
        assert(text@.take(i + 1) =~= text@.take(i as int).push(text@[i as int]));
        assert(prefix@.take(i + 1) =~= prefix@.take(i as int).push(prefix@[i as int]));
        i = i + 1;
    }
    assert(prefix@.take(n as int) =~= prefix@);
    true
}

} // verus!
