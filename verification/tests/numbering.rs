use typst_core::numbering::{fmt_decimal, fmt_letters, fmt_roman, fmt_symbols, Numbering};

#[test]
fn decimal_renders_exactly() {
    assert_eq!(fmt_decimal(0).as_str(), "0");
    assert_eq!(fmt_decimal(7).as_str(), "7");
    assert_eq!(fmt_decimal(42).as_str(), "42");
    assert_eq!(fmt_decimal(123).as_str(), "123");
    assert_eq!(fmt_decimal(90210).as_str(), "90210");
}

#[test]
fn letters_are_bijective_base_26() {
    assert_eq!(fmt_letters(0, false).as_str(), "");
    assert_eq!(fmt_letters(1, false).as_str(), "a");
    assert_eq!(fmt_letters(2, false).as_str(), "b");
    assert_eq!(fmt_letters(26, false).as_str(), "z");
    assert_eq!(fmt_letters(27, false).as_str(), "aa");
    assert_eq!(fmt_letters(28, false).as_str(), "ab");
    assert_eq!(fmt_letters(52, false).as_str(), "az");
    assert_eq!(fmt_letters(53, false).as_str(), "ba");
    assert_eq!(fmt_letters(27, true).as_str(), "AA");
}

#[test]
fn roman_renders_exactly() {
    assert_eq!(fmt_roman(0, false).as_str(), "n");
    assert_eq!(fmt_roman(1, false).as_str(), "i");
    assert_eq!(fmt_roman(4, false).as_str(), "iv");
    assert_eq!(fmt_roman(9, false).as_str(), "ix");
    assert_eq!(fmt_roman(14, false).as_str(), "xiv");
    assert_eq!(fmt_roman(40, false).as_str(), "xl");
    assert_eq!(fmt_roman(90, false).as_str(), "xc");
    assert_eq!(fmt_roman(400, false).as_str(), "cd");
    assert_eq!(fmt_roman(1994, false).as_str(), "mcmxciv");
    assert_eq!(fmt_roman(3999, false).as_str(), "mmmcmxcix");
    assert_eq!(fmt_roman(4, true).as_str(), "IV");
    assert_eq!(fmt_roman(0, true).as_str(), "N");
}

#[test]
fn symbols_cycle_and_double() {
    assert_eq!(fmt_symbols(0).as_str(), "");
    assert_eq!(fmt_symbols(1).as_str(), "*");
    assert_eq!(fmt_symbols(2).as_str(), "\u{2020}");
    assert_eq!(fmt_symbols(6).as_str(), "\u{2016}");
    assert_eq!(fmt_symbols(7).as_str(), "**");
    assert_eq!(fmt_symbols(13).as_str(), "***");
}

#[test]
fn apply_dispatches_by_kind() {
    assert_eq!(Numbering::Arabic.apply(true, 12).as_str(), "12");
    assert_eq!(Numbering::Letter.apply(true, 2).as_str(), "B");
    assert_eq!(Numbering::Roman.apply(false, 49).as_str(), "xlix");
    assert_eq!(Numbering::Symbol.apply(true, 3).as_str(), "\u{2021}");
}
