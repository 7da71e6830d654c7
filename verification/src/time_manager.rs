//! The time controller: how long to think about one move.
//!
//! The budget is the base time, stretched while the side to move is behind
//! in material and shortened during the first moves of the game. It is
//! computed in whole numbers, so it is the exact product rounded down.

use vstd::prelude::*;
use cozy_chess::Board;
use crate::board::{board_record, fullmove_number, side_of, side_to_move, RECORD_FULLMOVE};
use crate::eval_count_material::{eval_count_material, material_plain};
use crate::types::Color;

verus! {

/// The material balance from which on no extra time is spent.
pub const MATERIAL_GOOD: i32 = 200;

/// The material balance at which the most extra time is spent.
pub const MATERIAL_WORST: i32 = -900;

/// The number of full moves over which the opening factor grows.
pub const OPENING_MOVES: u16 = 7;

/// The base time for a move: a twentieth of the clock and half the increment.
pub open spec fn base_time(remaining: int, increment: int) -> int {
    remaining / 20 + increment / 2
}

/// The material factor in 2200ths: 2200 (once) with a balance of
/// `MATERIAL_GOOD` or better, 5500 (two and a half times) at
/// `MATERIAL_WORST` or worse, and rising evenly in between as the balance
/// falls.
pub open spec fn material_factor(material: int) -> int {
    if material >= MATERIAL_GOOD {
        2200
    } else if material <= MATERIAL_WORST {
        5500
    } else {
        2200 + 3 * (MATERIAL_GOOD - material)
    }
}

/// The opening factor in 28ths: 7 (a quarter) at move 0, rising evenly to
/// 28 (once) at move `OPENING_MOVES` and staying there.
pub open spec fn opening_factor(fullmove: int) -> int {
    if fullmove >= OPENING_MOVES {
        28
    } else if fullmove <= 0 {
        7
    } else {
        7 + 3 * fullmove
    }
}

/// The time budget: the base time by the material factor by the opening
/// factor, rounded down.
pub open spec fn time_budget(base: int, material: int, fullmove: int) -> int {
    (base * material_factor(material) * opening_factor(fullmove)) / 61600
}

/// The material balance of a record as the side to move sees it.
pub open spec fn side_material(record: Seq<u16>) -> int {
    match side_of(record) {
        Color::White => material_plain(record),
        Color::Black => -material_plain(record),
    }
}

/// The smaller of a number and the largest `u64`.
pub open spec fn capped(n: int) -> int {
    if n > u64::MAX {
        u64::MAX as int
    } else {
        n
    }
}

/// With the base time and the move number fixed, a side that is worse off
/// in material is given at least as much time.
pub proof fn lemma_budget_grows_as_material_falls(base: int, worse: int, better: int, fullmove: int)
    requires
        base >= 0,
        worse <= better,
    ensures
        time_budget(base, worse, fullmove) >= time_budget(base, better, fullmove),
{
    let of = opening_factor(fullmove);
    let hi = material_factor(worse);
    let lo = material_factor(better);
    assert(lo <= hi);
    assert(base * lo * of <= base * hi * of) by (nonlinear_arith)
        requires
            base >= 0,
            of >= 7,
            lo <= hi,
    ;
    lemma_div_monotone(base * lo * of, base * hi * of);
}

/// With the base time and the material fixed, a later move is given at
/// least as much time.
pub proof fn lemma_budget_grows_with_moves(base: int, material: int, earlier: int, later: int)
    requires
        base >= 0,
        earlier <= later,
    ensures
        time_budget(base, material, earlier) <= time_budget(base, material, later),
{
    let mf = material_factor(material);
    let lo = opening_factor(earlier);
    let hi = opening_factor(later);
    assert(lo <= hi);
    assert(base * mf * lo <= base * mf * hi) by (nonlinear_arith)
        requires
            base >= 0,
            mf >= 2200,
            lo <= hi,
    ;
    lemma_div_monotone(base * mf * lo, base * mf * hi);
}

/// With any base time above zero, move 1 is given strictly less time than
/// move 10.
pub proof fn lemma_first_move_gets_less(base: int, material: int)
    requires
        base > 0,
    ensures
        time_budget(base, material, 1) < time_budget(base, material, 10),
{
    let mf = material_factor(material);
    let x = base * mf;
    assert(x >= 2200) by (nonlinear_arith)
        requires
            x == base * mf,
            base >= 1,
            mf >= 2200,
    ;
    assert(base * mf * 10 == x * 10);
    assert(base * mf * 28 == x * 28);
    let full = (x * 28) / 61600;
    let part = (x * 10) / 61600;
    assert(full >= 1);
    assert(part < full) by {
        assert(x * 28 < (full + 1) * 61600);
        assert((x * 10) * 28 == (x * 28) * 10);
        assert((x * 10) * 28 < (full + 1) * 616000);
        assert((full + 1) * 616000 <= full * 61600 * 28);
        assert(x * 10 < full * 61600);
    }
}

/// Division by 61600 keeps the order of numbers.
proof fn lemma_div_monotone(a: int, b: int)
    requires
        a <= b,
    ensures
        a / 61600 <= b / 61600,
{
}

/// The time budget for given plain values: the base time, the material
/// balance of the side to move and the number of the move.
pub fn allot_time(base: u64, material: i32, fullmove: u16) -> (budget: u64)
    ensures
        budget == capped(time_budget(base as int, material as int, fullmove as int)),
{
    let material_part: u128 = if material >= MATERIAL_GOOD {
        2200
    } else if material <= MATERIAL_WORST {
        5500
    } else {
        (2200 + 3 * (MATERIAL_GOOD - material)) as u128
    };
    let opening_part: u128 = if fullmove >= OPENING_MOVES {
        28
    } else {
        (7 + 3 * fullmove) as u128
    };
    assert(base as int * material_part as int <= u64::MAX * 5500) by (nonlinear_arith)
        requires
            0 <= base as int <= u64::MAX,
            0 <= material_part as int <= 5500,
    ;
    let stretched: u128 = base as u128 * material_part;
    assert(stretched as int * opening_part as int <= u64::MAX * 5500 * 28) by (nonlinear_arith)
        requires
            0 <= stretched as int <= u64::MAX * 5500,
            0 <= opening_part as int <= 28,
    ;
    let budget: u128 = stretched * opening_part / 61600;
    if budget > u64::MAX as u128 {
        u64::MAX
    } else {
        budget as u64
    }
}

/// The time budget for the side to move on a board, from both clocks and
/// increments in milliseconds.
pub fn manage_time(game: &Board, wtime: u64, btime: u64, winc: u64, binc: u64) -> (budget: u64)
    ensures
        budget == capped(
            time_budget(
                match side_of(board_record(*game)) {
                    Color::White => base_time(wtime as int, winc as int),
                    Color::Black => base_time(btime as int, binc as int),
                },
                side_material(board_record(*game)),
                board_record(*game)[RECORD_FULLMOVE as int] as int,
            ),
        ),
{
    let move_side = side_to_move(game);
    let material = eval_count_material(game);
    let move_side_material = match move_side {
        Color::White => material,
        Color::Black => -material,
    };
    let time_left_naive = match move_side {
        Color::White => wtime / 20 + winc / 2,
        Color::Black => btime / 20 + binc / 2,
    };
    allot_time(time_left_naive, move_side_material, fullmove_number(game))
}

} // verus!
