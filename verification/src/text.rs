//! Text: numbers and moves written out and read back.

use vstd::prelude::*;
use vstd::string::StrSliceExecFns;
use crate::types::{Move, Piece};

verus! {

/// `String::push`: the text with one character more at its end.
#[verifier::external_body]
pub(crate) fn push_char(text: &mut String, c: char)
    ensures
        final(text)@ == old(text)@.push(c),
{
    text.push(c)
}

/// The texts of a list of lines.
pub open spec fn texts(lines: Seq<String>) -> Seq<Seq<char>> {
    Seq::new(lines.len(), |i: int| lines[i]@)
}

/// The character of a digit.
pub open spec fn digit_char(digit: int) -> char {
    ('0' as int + digit) as char
}

/// A number written in decimal digits.
pub open spec fn decimal(n: nat) -> Seq<char>
    decreases n,
{
    if n < 10 {
        seq![digit_char(n as int)]
    } else {
        decimal(n / 10).push(digit_char((n % 10) as int))
    }
}

/// A number written in decimal digits, behind a minus sign if it is negative.
pub open spec fn signed_decimal(n: int) -> Seq<char> {
    if n < 0 {
        seq!['-'] + decimal((-n) as nat)
    } else {
        decimal(n as nat)
    }
}

/// Whether a character is a decimal digit.
pub open spec fn is_digit(c: char) -> bool {
    '0' <= c <= '9'
}

/// The number that the first `upto` characters of a text spell, read as
/// decimal digits.
pub open spec fn digits_value(text: Seq<char>, upto: int) -> nat
    decreases upto,
{
    if upto <= 0 {
        0
    } else {
        (digits_value(text, upto - 1) * 10 + (text[upto - 1] as int - '0' as int)) as nat
    }
}

/// The number that a text spells: it is made of decimal digits, at least
/// one, and nothing else.
pub open spec fn spelled_number(text: Seq<char>) -> Option<nat> {
    if text.len() > 0 && (forall|i: int| 0 <= i < text.len() ==> is_digit(#[trigger] text[i])) {
        Some(digits_value(text, text.len() as int))
    } else {
        None
    }
}

/// The letter of a square's file, `a` to `h`, and the digit of its rank,
/// `1` to `8`. A number beyond the board is written by the same rule.
pub open spec fn square_chars(square: u8) -> Seq<char> {
    seq![('a' as int + square % 8) as char, ('1' as int + square / 8) as char]
}

/// The letter by which a piece is named in a promotion.
pub open spec fn piece_char(piece: Piece) -> char {
    match piece {
        Piece::Pawn => 'p',
        Piece::Knight => 'n',
        Piece::Bishop => 'b',
        Piece::Rook => 'r',
        Piece::Queen => 'q',
        Piece::King => 'k',
    }
}

/// A move in coordinate notation: the two squares, and the letter of the
/// promotion piece if there is one.
pub open spec fn move_chars(mv: Move) -> Seq<char> {
    let squares = square_chars(mv.from) + square_chars(mv.to);
    match mv.promotion {
        Some(piece) => squares.push(piece_char(piece)),
        None => squares,
    }
}

/// The value of the digits grows with every digit read.
pub proof fn lemma_digits_value_grows(text: Seq<char>, less: int, more: int)
    requires
        0 <= less <= more <= text.len(),
        forall|i: int| 0 <= i < text.len() ==> is_digit(#[trigger] text[i]),
    ensures
        digits_value(text, less) <= digits_value(text, more),
    decreases more - less,
{
    if less < more {
        lemma_digits_value_grows(text, less, more - 1);
        assert(is_digit(text[more - 1]));
    }
}

/// Appends a number in decimal digits.
pub fn push_decimal(text: &mut String, n: u64)
    ensures
        final(text)@ == old(text)@ + decimal(n as nat),
    decreases n,
{
    if n >= 10 {
        push_decimal(text, n / 10);
    }
    let digit: u8 = (n % 10) as u8;
    push_char(text, (48u8 + digit) as char);
    assert(text@ =~= old(text)@ + decimal(n as nat));
}

/// Appends a number in decimal digits, behind a minus sign if it is negative.
pub fn push_signed(text: &mut String, n: i64)
    ensures
        final(text)@ == old(text)@ + signed_decimal(n as int),
{
    if n < 0 {
        push_char(text, '-');
        let magnitude: u64 = if n == i64::MIN {
            9_223_372_036_854_775_808u64
        } else {
            (-n) as u64
        };
        push_decimal(text, magnitude);
        assert(text@ =~= old(text)@ + signed_decimal(n as int));
    } else {
        push_decimal(text, n as u64);
    }
}

/// Appends a square by its file letter and rank digit.
pub fn push_square(text: &mut String, square: u8)
    ensures
        final(text)@ == old(text)@ + square_chars(square),
{
    push_char(text, (97u8 + square % 8) as char);
    push_char(text, (49u8 + square / 8) as char);
    assert(text@ =~= old(text)@ + square_chars(square));
}

/// Appends a move in coordinate notation.
pub fn push_move(text: &mut String, mv: Move)
    ensures
        final(text)@ == old(text)@ + move_chars(mv),
{
    push_square(text, mv.from);
    push_square(text, mv.to);
    if let Some(piece) = mv.promotion {
        let letter = match piece {
            Piece::Pawn => 'p',
            Piece::Knight => 'n',
            Piece::Bishop => 'b',
            Piece::Rook => 'r',
            Piece::Queen => 'q',
            Piece::King => 'k',
        };
        push_char(text, letter);
    }
    assert(text@ =~= old(text)@ + move_chars(mv));
}

/// Tells whether two texts are the same.
pub fn same_text(a: &str, b: &str) -> (same: bool)
    ensures
        same == (a@ == b@),
{
    let n = a.unicode_len();
    if n != b.unicode_len() {
        return false;
    }
    let mut i: usize = 0;
    while i < n
        invariant
            i <= n,
            n == a@.len(),
            n == b@.len(),
            forall|k: int| 0 <= k < i ==> a@[k] == b@[k],
        decreases n - i,
    {
        if a.get_char(i) != b.get_char(i) {
            return false;
        }
        i = i + 1;
    }
    assert(a@ =~= b@);
    true
}

/// Reads a number written in decimal digits. A text that holds anything
/// but digits, or none, or spells a number beyond the largest `u64`, is no
/// number.
pub fn parse_number(text: &str) -> (number: Option<u64>)
    ensures
        number == match spelled_number(text@) {
            Some(n) => if n <= u64::MAX {
                Some(n as u64)
            } else {
                None
            },
            None => None,
        },
{
    let n = text.unicode_len();
    if n == 0 {
        return None;
    }
    let mut value: u64 = 0;
    let mut i: usize = 0;
    while i < n
        invariant
            i <= n,
            n == text@.len(),
            forall|k: int| 0 <= k < i ==> is_digit(#[trigger] text@[k]),
            value == digits_value(text@, i as int),
        decreases n - i,
    {
        let c = text.get_char(i);
        if c < '0' || c > '9' {
            return None;
        }
        let digit: u64 = (c as u32 - '0' as u32) as u64;
        if value > (u64::MAX - digit) / 10 {
            proof {
                let all = text@;
                assert(digits_value(all, i + 1) > u64::MAX);
                if forall|k: int| 0 <= k < all.len() ==> is_digit(#[trigger] all[k]) {
                    lemma_digits_value_grows(all, i + 1, all.len() as int);
                }
            }
            return None;
        }
        value = value * 10 + digit;
        i = i + 1;
    }
    Some(value)
}

} // verus!
