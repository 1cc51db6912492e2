use vstd::prelude::*;
use owo_colors::OwoColorize;
use crate::text::{chars_of, push_char, text_of};

verus! {

/// Relies on owo_colors' `bright_blue`: the text between the ANSI codes for a bright blue
/// foreground and for the default foreground.
#[verifier::external_body]
pub(crate) fn paint_bright_blue(s: &str) -> (r: String)
    ensures
        r@ == "\x1b[94m"@ + s@ + "\x1b[39m"@,
{
    format!("{}", s.bright_blue())
}

/// Relies on owo_colors' `red`: the text between the ANSI codes for a red foreground and
/// for the default foreground.
#[verifier::external_body]
pub(crate) fn paint_red(s: &str) -> (r: String)
    ensures
        r@ == "\x1b[31m"@ + s@ + "\x1b[39m"@,
{
    format!("{}", s.red())
}

/// The number of line breaks in `s`.
pub open spec fn newlines(s: Seq<char>) -> nat
    decreases s.len(),
{
    if s.len() == 0 {
        0
    } else {
        newlines(s.drop_last()) + if s.last() == '\n' {
            1nat
        } else {
            0nat
        }
    }
}

/// The column, counted from 1, of the position just after `s`.
pub open spec fn column(s: Seq<char>) -> nat
    decreases s.len(),
{
    if s.len() == 0 {
        1
    } else if s.last() == '\n' {
        1
    } else {
        column(s.drop_last()) + 1
    }
}

/// The position of the line break that ends the line holding position `i`, or the end.
pub open spec fn line_end(text: Seq<char>, i: int) -> int
    decreases text.len() - i,
{
    if i < 0 || i >= text.len() {
        text.len() as int
    } else if text[i] == '\n' {
        i
    } else {
        line_end(text, i + 1)
    }
}

pub open spec fn digit(d: nat) -> char {
    if d == 0 {
        '0'
    } else if d == 1 {
        '1'
    } else if d == 2 {
        '2'
    } else if d == 3 {
        '3'
    } else if d == 4 {
        '4'
    } else if d == 5 {
        '5'
    } else if d == 6 {
        '6'
    } else if d == 7 {
        '7'
    } else if d == 8 {
        '8'
    } else {
        '9'
    }
}

/// The decimal digits of `n`.
pub open spec fn decimal(n: nat) -> Seq<char>
    decreases n,
{
    if n < 10 {
        seq![digit(n)]
    } else {
        decimal(n / 10) + seq![digit(n % 10)]
    }
}

/// `n` copies of `c`.
pub open spec fn repeated(c: char, n: nat) -> Seq<char> {
    Seq::new(n, |i: int| c)
}

/// `s` right-aligned in a field of five characters.
pub open spec fn right_aligned(s: Seq<char>) -> Seq<char> {
    if s.len() < 5 {
        repeated(' ', (5 - s.len()) as nat) + s
    } else {
        s
    }
}

fn digit_char(d: u128) -> (c: char)
    requires
        d < 10,
    ensures
        c == digit(d as nat),
{
    if d == 0 {
        '0'
    } else if d == 1 {
        '1'
    } else if d == 2 {
        '2'
    } else if d == 3 {
        '3'
    } else if d == 4 {
        '4'
    } else if d == 5 {
        '5'
    } else if d == 6 {
        '6'
    } else if d == 7 {
        '7'
    } else if d == 8 {
        '8'
    } else {
        '9'
    }
}

/// The decimal digits of `n` as text.
pub fn decimal_text(n: u128) -> (r: String)
    ensures
        r@ == decimal(n as nat),
    decreases n,
{
    if n < 10 {
        let mut s = String::new();
        push_char(&mut s, digit_char(n));
        proof {
            assert(s@ =~= seq![digit(n as nat)]);
        }
        s
    } else {
        let mut s = decimal_text(n / 10);
        push_char(&mut s, digit_char(n % 10));
        proof {
            assert(s@ =~= decimal((n / 10) as nat) + seq![digit((n % 10) as nat)]);
        }
        s
    }
}

/// `n` copies of `c` appended to `s`.
pub fn append_repeated(s: &mut String, c: char, n: usize)
    ensures
        final(s)@ == old(s)@ + repeated(c, n as nat),
{
    let mut i: usize = 0;
    while i < n
        invariant
            i <= n,
            s@ == old(s)@ + repeated(c, i as nat),
        decreases n - i,
    {
        push_char(s, c);
        i = i + 1;
        proof {
            assert(s@ =~= old(s)@ + repeated(c, i as nat));
        }
    }
}

/// Where position `start` of `contents` lies: its line (from 1), its column (from 1), and
/// the text of its line. Positions past the end count as the end.
pub fn locate_in(contents: &String, start: usize) -> (r: (u128, u128, String))
    ensures
        ({
            let p = if start < contents@.len() {
                start as int
            } else {
                contents@.len() as int
            };
            let before = contents@.subrange(0, p);
            &&& r.0 == newlines(before) + 1
            &&& r.1 == column(before)
            &&& 1 <= r.1 <= p + 1
            &&& r.2@ == contents@.subrange(p - (column(before) - 1), line_end(contents@, p))
        }),
{
    let cs = chars_of(contents);
    let p = if start < cs.len() {
        start
    } else {
        cs.len()
    };
    let mut lines: u128 = 1;
    let mut col: u128 = 1;
    let mut i: usize = 0;
    while i < p
        invariant
            cs@ == contents@,
            p <= cs@.len(),
            i <= p,
            lines == newlines(cs@.subrange(0, i as int)) + 1,
            col == column(cs@.subrange(0, i as int)),
            1 <= col <= i + 1,
            lines <= i + 1,
        decreases p - i,
    {
        proof {
            let next = cs@.subrange(0, i as int + 1);
            assert(next.drop_last() =~= cs@.subrange(0, i as int));
            assert(next.last() == cs@[i as int]);
        }
        if cs[i] == '\n' {
            lines = lines + 1;
            col = 1;
        } else {
            col = col + 1;
        }
        i = i + 1;
    }
    let line_start = p - (col - 1) as usize;
    let mut end = p;
    while end < cs.len() && cs[end] != '\n'
        invariant
            cs@ == contents@,
            p <= end <= cs@.len(),
            line_end(cs@, p as int) == line_end(cs@, end as int),
        decreases cs@.len() - end,
    {
        end = end + 1;
    }
    let text = text_of(&cs, line_start, end);
    (lines, col, text)
}

} // verus!
