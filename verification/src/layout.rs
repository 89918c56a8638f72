//! Numbers as text, and text set in a field of a given width.

use vstd::prelude::*;
use vstd::string::{StrSliceExecFns, StringExecFns};

verus! {

/// The character of a decimal digit.
pub open spec fn digit(d: nat) -> char {
    if d == 0 {
        '0'
    } else if d == 1 {
        '1'
    } else if d == 2 {
        '2'
    } else if d == 3 {
        '3'
    } else if d == 4 {
        '4'
    } else if d == 5 {
        '5'
    } else if d == 6 {
        '6'
    } else if d == 7 {
        '7'
    } else if d == 8 {
        '8'
    } else {
        '9'
    }
}

/// A number in decimal digits, without leading zeros.
pub open spec fn decimal(n: nat) -> Seq<char>
    decreases n,
{
    if n < 10 {
        seq![digit(n)]
    } else {
        decimal(n / 10) + seq![digit(n % 10)]
    }
}

/// `n` times the character `c`.
pub open spec fn repeated(c: char, n: nat) -> Seq<char> {
    Seq::new(n, |i: int| c)
}

/// The text at the right of a field of `width` characters, filled with
/// spaces; the text itself where it is as wide as the field or wider.
pub open spec fn right_aligned(s: Seq<char>, width: nat) -> Seq<char> {
    if s.len() >= width {
        s
    } else {
        repeated(' ', (width - s.len()) as nat) + s
    }
}

/// The text in the middle of a field of `width` characters, filled with
/// `fill`; where the room does not halve, the right side has one more. The
/// text itself where it is as wide as the field or wider.
pub open spec fn centered(s: Seq<char>, width: nat, fill: char) -> Seq<char> {
    if s.len() >= width {
        s
    } else {
        let room = (width - s.len()) as nat;
        repeated(fill, room / 2) + s + repeated(fill, (room - room / 2) as nat)
    }
}

/// One decimal digit as text.
fn digit_text(d: usize) -> (r: &'static str)
    requires
        d < 10,
    ensures
        r@ == seq![digit(d as nat)],
{
    proof {
        reveal_strlit("0");
        reveal_strlit("1");
        reveal_strlit("2");
        reveal_strlit("3");
        reveal_strlit("4");
        reveal_strlit("5");
        reveal_strlit("6");
        reveal_strlit("7");
        reveal_strlit("8");
        reveal_strlit("9");
    }
    let r = if d == 0 {
        "0"
    } else if d == 1 {
        "1"
    } else if d == 2 {
        "2"
    } else if d == 3 {
        "3"
    } else if d == 4 {
        "4"
    } else if d == 5 {
        "5"
    } else if d == 6 {
        "6"
    } else if d == 7 {
        "7"
    } else if d == 8 {
        "8"
    } else {
        "9"
    };
    assert(r@ =~= seq![digit(d as nat)]);
    r
}

/// A number as text, in decimal digits.
pub fn decimal_text(n: usize) -> (r: String)
    ensures
        r@ == decimal(n as nat),
    decreases n,
{
    if n < 10 {
        String::from_str(digit_text(n))
    } else {
        let mut out = decimal_text(n / 10);
        out.append(digit_text(n % 10));
        out
    }
}

/// Adds `n` times a character to `out`; `one` is that character as text.
fn push_repeated(out: &mut String, one: &str, n: usize)
    requires
        one@.len() == 1,
    ensures
        final(out)@ == old(out)@ + repeated(one@[0], n as nat),
{
    let ghost before = out@;
    let mut i: usize = 0;
    while i < n
        invariant
            i <= n,
            one@.len() == 1,
            out@ == before + repeated(one@[0], i as nat),
        decreases n - i,
    {
        out.append(one);
        i += 1;
        assert(out@ =~= before + repeated(one@[0], i as nat));
    }
}

/// The text at the right of a field of `width` characters.
pub fn align_right(s: &str, width: usize) -> (r: String)
    ensures
        r@ == right_aligned(s@, width as nat),
{
    let len = s.unicode_len();
    let mut out = String::new();
    if len < width {
        proof {
            reveal_strlit(" ");
        }
        push_repeated(&mut out, " ", width - len);
    }
    out.append(s);
    assert(out@ =~= right_aligned(s@, width as nat));
    out
}

/// The text in the middle of a field of `width` characters, filled with
/// the character that `fill` holds.
pub fn center(s: &str, width: usize, fill: &str) -> (r: String)
    requires
        fill@.len() == 1,
    ensures
        r@ == centered(s@, width as nat, fill@[0]),
{
    let len = s.unicode_len();
    let mut out = String::new();
    if len < width {
        let room = width - len;
        push_repeated(&mut out, fill, room / 2);
        out.append(s);
        push_repeated(&mut out, fill, room - room / 2);
    } else {
        out.append(s);
    }
    assert(out@ =~= centered(s@, width as nat, fill@[0]));
    out
}

} // verus!
