//! The counter systems a label pattern can select, and their formatting.
//!
//! A counter value is rendered under one of four systems: decimal digits,
//! bijective base-26 letters, Roman numerals, or a cycle of footnote symbols.
//! Uppercasing affects letters only; digits and symbols are case-less.
use vstd::prelude::*;

verus! {

use vstd::string::{StrSliceExecFns, StringExecFns};

/// The numbering system used to format an item index.
#[derive(Clone, Copy, PartialEq, Eq, Structural, Hash, Debug)]
pub enum Numbering {
    /// Decimal digits: 1, 2, 3, ...
    Arabic,
    /// Bijective base-26 letters: a, b, ..., z, aa, ab, ...
    Letter,
    /// Roman numerals: i, ii, iii, iv, ...; 0 is rendered as `n` (nulla).
    Roman,
    /// A cycle of six footnote symbols, doubled on each full turn.
    Symbol,
}

/// The uppercase counterpart of an ASCII letter; other characters are unchanged.
pub open spec fn upper_char(c: char) -> char {
    if c == 'a' {
        'A'
    } else if c == 'b' {
        'B'
    } else if c == 'c' {
        'C'
    } else if c == 'd' {
        'D'
    } else if c == 'e' {
        'E'
    } else if c == 'f' {
        'F'
    } else if c == 'g' {
        'G'
    } else if c == 'h' {
        'H'
    } else if c == 'i' {
        'I'
    } else if c == 'j' {
        'J'
    } else if c == 'k' {
        'K'
    } else if c == 'l' {
        'L'
    } else if c == 'm' {
        'M'
    } else if c == 'n' {
        'N'
    } else if c == 'o' {
        'O'
    } else if c == 'p' {
        'P'
    } else if c == 'q' {
        'Q'
    } else if c == 'r' {
        'R'
    } else if c == 's' {
        'S'
    } else if c == 't' {
        'T'
    } else if c == 'u' {
        'U'
    } else if c == 'v' {
        'V'
    } else if c == 'w' {
        'W'
    } else if c == 'x' {
        'X'
    } else if c == 'y' {
        'Y'
    } else if c == 'z' {
        'Z'
    } else {
        c
    }
}

/// A lowercase character, or its uppercase counterpart if `upper` is set.
pub open spec fn cased(c: char, upper: bool) -> char {
    if upper {
        upper_char(c)
    } else {
        c
    }
}

/// The decimal digit characters.
pub open spec fn digit_char(d: int) -> char {
    if d == 0 {
        '0'
    } else if d == 1 {
        '1'
    } else if d == 2 {
        '2'
    } else if d == 3 {
        '3'
    } else if d == 4 {
        '4'
    } else if d == 5 {
        '5'
    } else if d == 6 {
        '6'
    } else if d == 7 {
        '7'
    } else if d == 8 {
        '8'
    } else {
        '9'
    }
}

/// The decimal rendering of a number, most significant digit first.
pub open spec fn spec_decimal(n: nat) -> Seq<char>
    decreases n,
{
    if n < 10 {
        seq![digit_char(n as int)]
    } else {
        spec_decimal(n / 10).push(digit_char((n % 10) as int))
    }
}

/// The lowercase alphabet the lettered system draws from.
pub open spec fn alphabet(upper: bool) -> Seq<char> {
    if upper {
        "ABCDEFGHIJKLMNOPQRSTUVWXYZ"@
    } else {
        "abcdefghijklmnopqrstuvwxyz"@
    }
}

/// The bijective base-26 rendering of a number: 1 is `a`, 26 is `z`,
/// 27 is `aa`; 0 renders as the empty string.
pub open spec fn spec_letters(n: nat, upper: bool) -> Seq<char>
    decreases n,
{
    if n == 0 {
        Seq::empty()
    } else {
        spec_letters((n - 1) as nat / 26, upper).push(alphabet(upper)[((n - 1) as nat % 26) as int])
    }
}

/// The Roman rendering of a positive number by the usual greedy subtraction.
pub open spec fn spec_roman_pos(n: nat, upper: bool) -> Seq<char>
    decreases n,
{
    if n >= 1000 {
        seq![cased('m', upper)] + spec_roman_pos((n - 1000) as nat, upper)
    } else if n >= 900 {
        seq![cased('c', upper), cased('m', upper)] + spec_roman_pos((n - 900) as nat, upper)
    } else if n >= 500 {
        seq![cased('d', upper)] + spec_roman_pos((n - 500) as nat, upper)
    } else if n >= 400 {
        seq![cased('c', upper), cased('d', upper)] + spec_roman_pos((n - 400) as nat, upper)
    } else if n >= 100 {
        seq![cased('c', upper)] + spec_roman_pos((n - 100) as nat, upper)
    } else if n >= 90 {
        seq![cased('x', upper), cased('c', upper)] + spec_roman_pos((n - 90) as nat, upper)
    } else if n >= 50 {
        seq![cased('l', upper)] + spec_roman_pos((n - 50) as nat, upper)
    } else if n >= 40 {
        seq![cased('x', upper), cased('l', upper)] + spec_roman_pos((n - 40) as nat, upper)
    } else if n >= 10 {
        seq![cased('x', upper)] + spec_roman_pos((n - 10) as nat, upper)
    } else if n >= 9 {
        seq![cased('i', upper), cased('x', upper)] + spec_roman_pos((n - 9) as nat, upper)
    } else if n >= 5 {
        seq![cased('v', upper)] + spec_roman_pos((n - 5) as nat, upper)
    } else if n >= 4 {
        seq![cased('i', upper), cased('v', upper)] + spec_roman_pos((n - 4) as nat, upper)
    } else if n >= 1 {
        seq![cased('i', upper)] + spec_roman_pos((n - 1) as nat, upper)
    } else {
        Seq::empty()
    }
}

/// The Roman rendering; 0 becomes `n` for nulla.
pub open spec fn spec_roman(n: nat, upper: bool) -> Seq<char> {
    if n == 0 {
        seq![cased('n', upper)]
    } else {
        spec_roman_pos(n, upper)
    }
}

/// The six symbols of the symbol cycle.
pub open spec fn symbol_char(i: int) -> char {
    if i == 0 {
        '*'
    } else if i == 1 {
        '\u{2020}'
    } else if i == 2 {
        '\u{2021}'
    } else if i == 3 {
        '\u{00a7}'
    } else if i == 4 {
        '\u{00b6}'
    } else {
        '\u{2016}'
    }
}

/// A character repeated `k` times.
pub open spec fn spec_repeat(c: char, k: nat) -> Seq<char>
    decreases k,
{
    if k == 0 {
        Seq::empty()
    } else {
        spec_repeat(c, (k - 1) as nat).push(c)
    }
}

/// The symbol-cycle rendering: the (n-1 mod 6)-th symbol, repeated once more
/// for every completed turn of the cycle; 0 renders as the empty string.
pub open spec fn spec_symbols(n: nat) -> Seq<char> {
    if n == 0 {
        Seq::empty()
    } else {
        spec_repeat(symbol_char(((n - 1) as nat % 6) as int), (n - 1) as nat / 6 + 1)
    }
}

/// What formatting a number under a counter system yields.
pub open spec fn spec_apply(kind: Numbering, upper: bool, n: nat) -> Seq<char> {
    match kind {
        Numbering::Arabic => spec_decimal(n),
        Numbering::Letter => spec_letters(n, upper),
        Numbering::Roman => spec_roman(n, upper),
        Numbering::Symbol => spec_symbols(n),
    }
}

proof fn lemma_concat_assoc(a: Seq<char>, b: Seq<char>, c: Seq<char>)
    ensures
        (a + b) + c == a + (b + c),
{
    assert((a + b) + c =~= a + (b + c));
}

fn digit_str(d: u64) -> (r: &'static str)
    requires
        d < 10,
    ensures
        r@ =~= seq![digit_char(d as int)],
{
    proof {
        reveal_strlit("0");
        reveal_strlit("1");
        reveal_strlit("2");
        reveal_strlit("3");
        reveal_strlit("4");
        reveal_strlit("5");
        reveal_strlit("6");
        reveal_strlit("7");
        reveal_strlit("8");
        reveal_strlit("9");
    }
    match d {
        0 => "0",
        1 => "1",
        2 => "2",
        3 => "3",
        4 => "4",
        5 => "5",
        6 => "6",
        7 => "7",
        8 => "8",
        _ => "9",
    }
}

/// Render a number in decimal.
pub fn fmt_decimal(n: u64) -> (r: String)
    ensures
        r@ == spec_decimal(n as nat),
    decreases n,
{
    if n < 10 {
        String::from_str(digit_str(n))
    } else {
        let mut s = fmt_decimal(n / 10);
        s.append(digit_str(n % 10));
        proof {
            assert(s@ =~= spec_decimal(n as nat));
        }
        s
    }
}

/// Render a number in bijective base-26 letters.
pub fn fmt_letters(n: u64, upper: bool) -> (r: String)
    ensures
        r@ == spec_letters(n as nat, upper),
    decreases n,
{
    if n == 0 {
        String::new()
    } else {
        let mut s = fmt_letters((n - 1) / 26, upper);
        let idx = ((n - 1) % 26) as usize;
        let table: &'static str = if upper {
            "ABCDEFGHIJKLMNOPQRSTUVWXYZ"
        } else {
            "abcdefghijklmnopqrstuvwxyz"
        };
        proof {
            reveal_strlit("ABCDEFGHIJKLMNOPQRSTUVWXYZ");
            reveal_strlit("abcdefghijklmnopqrstuvwxyz");
            assert(table@ =~= alphabet(upper));
            assert(table.is_ascii());
        }
        let piece = table.substring_ascii(idx, idx + 1);
        s.append(piece);
        proof {
            assert(s@ =~= spec_letters(n as nat, upper));
        }
        s
    }
}

fn roman_piece(value: u64, upper: bool) -> (r: &'static str)
    requires
        value == 1000 || value == 900 || value == 500 || value == 400 || value == 100 || value
            == 90 || value == 50 || value == 40 || value == 10 || value == 9 || value == 5 || value
            == 4 || value == 1,
    ensures
        value == 1000 ==> r@ =~= seq![cased('m', upper)],
        value == 900 ==> r@ =~= seq![cased('c', upper), cased('m', upper)],
        value == 500 ==> r@ =~= seq![cased('d', upper)],
        value == 400 ==> r@ =~= seq![cased('c', upper), cased('d', upper)],
        value == 100 ==> r@ =~= seq![cased('c', upper)],
        value == 90 ==> r@ =~= seq![cased('x', upper), cased('c', upper)],
        value == 50 ==> r@ =~= seq![cased('l', upper)],
        value == 40 ==> r@ =~= seq![cased('x', upper), cased('l', upper)],
        value == 10 ==> r@ =~= seq![cased('x', upper)],
        value == 9 ==> r@ =~= seq![cased('i', upper), cased('x', upper)],
        value == 5 ==> r@ =~= seq![cased('v', upper)],
        value == 4 ==> r@ =~= seq![cased('i', upper), cased('v', upper)],
        value == 1 ==> r@ =~= seq![cased('i', upper)],
{
    proof {
        reveal_strlit("m");
        reveal_strlit("cm");
        reveal_strlit("d");
        reveal_strlit("cd");
        reveal_strlit("c");
        reveal_strlit("xc");
        reveal_strlit("l");
        reveal_strlit("xl");
        reveal_strlit("x");
        reveal_strlit("ix");
        reveal_strlit("v");
        reveal_strlit("iv");
        reveal_strlit("i");
        reveal_strlit("M");
        reveal_strlit("CM");
        reveal_strlit("D");
        reveal_strlit("CD");
        reveal_strlit("C");
        reveal_strlit("XC");
        reveal_strlit("L");
        reveal_strlit("XL");
        reveal_strlit("X");
        reveal_strlit("IX");
        reveal_strlit("V");
        reveal_strlit("IV");
        reveal_strlit("I");
    }
    if upper {
        match value {
            1000 => "M",
            900 => "CM",
            500 => "D",
            400 => "CD",
            100 => "C",
            90 => "XC",
            50 => "L",
            40 => "XL",
            10 => "X",
            9 => "IX",
            5 => "V",
            _ => {
                if value == 4 {
                    "IV"
                } else {
                    "I"
                }
            },
        }
    } else {
        match value {
            1000 => "m",
            900 => "cm",
            500 => "d",
            400 => "cd",
            100 => "c",
            90 => "xc",
            50 => "l",
            40 => "xl",
            10 => "x",
            9 => "ix",
            5 => "v",
            _ => {
                if value == 4 {
                    "iv"
                } else {
                    "i"
                }
            },
        }
    }
}

/// Render a number as a Roman numeral.
pub fn fmt_roman(n: u64, upper: bool) -> (r: String)
    ensures
        r@ == spec_roman(n as nat, upper),
{
    if n == 0 {
        let piece: &'static str = if upper {
            "N"
        } else {
            "n"
        };
        let mut s = String::new();
        proof {
            reveal_strlit("N");
            reveal_strlit("n");
        }
        s.append(piece);
        proof {
            assert(s@ =~= spec_roman(0, upper));
        }
        return s;
    }
    let mut s = String::new();
    let mut rest: u64 = n;
    #[verifier::loop_isolation(false)]
    while rest > 0
        invariant
            s@ + spec_roman_pos(rest as nat, upper) == spec_roman_pos(n as nat, upper),
        decreases rest,
    {
        let step: u64 = if rest >= 1000 {
            1000
        } else if rest >= 900 {
            900
        } else if rest >= 500 {
            500
        } else if rest >= 400 {
            400
        } else if rest >= 100 {
            100
        } else if rest >= 90 {
            90
        } else if rest >= 50 {
            50
        } else if rest >= 40 {
            40
        } else if rest >= 10 {
            10
        } else if rest >= 9 {
            9
        } else if rest >= 5 {
            5
        } else if rest >= 4 {
            4
        } else {
            1
        };
        let piece = roman_piece(step, upper);
        proof {
            assert(spec_roman_pos(rest as nat, upper) == piece@ + spec_roman_pos(
                (rest - step) as nat,
                upper,
            ));
            lemma_concat_assoc(s@, piece@, spec_roman_pos((rest - step) as nat, upper));
        }
        s.append(piece);
        rest = rest - step;
    }
    proof {
        assert(s@ =~= s@ + spec_roman_pos(0, upper));
        assert(s@ == spec_roman(n as nat, upper));
    }
    s
}

fn symbol_str(i: u64) -> (r: &'static str)
    requires
        i < 6,
    ensures
        r@ =~= seq![symbol_char(i as int)],
{
    proof {
        reveal_strlit("*");
        reveal_strlit("\u{2020}");
        reveal_strlit("\u{2021}");
        reveal_strlit("\u{00a7}");
        reveal_strlit("\u{00b6}");
        reveal_strlit("\u{2016}");
    }
    match i {
        0 => "*",
        1 => "\u{2020}",
        2 => "\u{2021}",
        3 => "\u{00a7}",
        4 => "\u{00b6}",
        _ => "\u{2016}",
    }
}

/// Render a number under the symbol cycle.
pub fn fmt_symbols(n: u64) -> (r: String)
    ensures
        r@ == spec_symbols(n as nat),
{
    if n == 0 {
        let s = String::new();
        proof {
            assert(s@ =~= spec_symbols(0));
        }
        return s;
    }
    let piece = symbol_str((n - 1) % 6);
    let count: u64 = (n - 1) / 6 + 1;
    let ghost c = symbol_char(((n - 1) as nat % 6) as int);
    let mut s = String::new();
    let mut done: u64 = 0;
    #[verifier::loop_isolation(false)]
    while done < count
        invariant
            done <= count,
            s@ == spec_repeat(c, done as nat),
        decreases count - done,
    {
        s.append(piece);
        done = done + 1;
        proof {
            assert(s@ =~= spec_repeat(c, done as nat));
        }
    }
    proof {
        assert(s@ == spec_symbols(n as nat));
    }
    s
}

impl Numbering {
    /// Format `n` under this counter system, in the requested case.
    pub fn apply(&self, upper: bool, n: u64) -> (r: String)
        ensures
            r@ == spec_apply(*self, upper, n as nat),
    {
        match self {
            Numbering::Arabic => fmt_decimal(n),
            Numbering::Letter => fmt_letters(n, upper),
            Numbering::Roman => fmt_roman(n, upper),
            Numbering::Symbol => fmt_symbols(n),
        }
    }
}

} // verus!
