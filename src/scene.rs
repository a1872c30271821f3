//! Layout of the bowling scene: which body stands at which logical index, and
//! where each pin of the triangle goes.
use vstd::prelude::*;

verus! {

/// Number of pin rows in the standard scene: rows of 0, 1, 2, 3 and 4 pins.
pub const PIN_ROWS: usize = 5;

/// Logical index of the ball.
pub const BALL_INDEX: usize = 0;

/// What a registered body is.
#[derive(Clone, Copy, Debug, PartialEq, Eq, Structural)]
pub enum BodyKind {
    Ball,
    /// The pin in row `row` at place `col` of that row (`col < row`).
    Pin { row: usize, col: usize },
    Floor,
}

/// Pins in rows `0..rows`, where row `r` holds `r` pins.
pub open spec fn pins_in_rows(rows: nat) -> nat
    decreases rows,
{
    if rows == 0 {
        0
    } else {
        pins_in_rows((rows - 1) as nat) + (rows - 1) as nat
    }
}

/// The pins of row `row`, in the order of their place along the row.
pub open spec fn row_layout(row: nat) -> Seq<BodyKind> {
    Seq::new(row, |c: int| BodyKind::Pin { row: row as usize, col: c as usize })
}

/// The pins of rows `0..rows`, row after row.
pub open spec fn pins_layout(rows: nat) -> Seq<BodyKind>
    decreases rows,
{
    if rows == 0 {
        Seq::empty()
    } else {
        pins_layout((rows - 1) as nat) + row_layout((rows - 1) as nat)
    }
}

/// The bodies of a scene with `rows` pin rows, by logical index: the ball
/// first, then the pins row by row, then the floor.
pub open spec fn scene_layout(rows: nat) -> Seq<BodyKind> {
    seq![BodyKind::Ball] + pins_layout(rows) + seq![BodyKind::Floor]
}

/// Logical index of the pin at place `col` of row `row`.
pub open spec fn pin_slot(row: nat, col: nat) -> nat {
    1 + pins_in_rows(row) + col
}

pub proof fn lemma_pins_in_rows_monotonic(a: nat, b: nat)
    requires
        a <= b,
    ensures
        pins_in_rows(a) + a <= pins_in_rows(b) + b,
        pins_in_rows(a) <= pins_in_rows(b),
    decreases b - a,
{
    if a < b {
        lemma_pins_in_rows_monotonic(a, (b - 1) as nat);
    }
}

/// The pins layout holds one body per pin, and the pin at place `col` of row
/// `row` stands after all pins of the rows before it.
pub proof fn lemma_pins_layout(rows: nat)
    ensures
        pins_layout(rows).len() == pins_in_rows(rows),
        forall|row: nat, col: nat|
            col < row < rows ==> #[trigger] pins_layout(rows)[(pins_in_rows(row) + col) as int]
                == (BodyKind::Pin { row: row as usize, col: col as usize }),
        forall|i: int| 0 <= i < pins_layout(rows).len() ==> #[trigger] pins_layout(rows)[i] is Pin,
    decreases rows,
{
    if rows > 0 {
        let r = (rows - 1) as nat;
        lemma_pins_layout(r);
        let prev = pins_layout(r);
        let whole = pins_layout(rows);
        assert(whole == prev + row_layout(r));
        assert forall|row: nat, col: nat| col < row < rows implies #[trigger] whole[(pins_in_rows(row) + col) as int]
            == (BodyKind::Pin { row: row as usize, col: col as usize }) by {
            if row < r {
                lemma_pins_in_rows_monotonic(row + 1, r);
                assert(pins_in_rows(row + 1) == pins_in_rows(row) + row);
                assert(whole[(pins_in_rows(row) + col) as int] == prev[(pins_in_rows(row) + col) as int]);
            } else {
                assert(whole[(pins_in_rows(row) + col) as int] == row_layout(r)[col as int]);
            }
        }
    }
}

/// The ball stands at index 0 and the floor at the last index, whatever the
/// number of pin rows; every index between them holds a pin, and the pin at
/// place `col` of row `row` stands at `pin_slot(row, col)`.
pub proof fn lemma_scene_order(rows: nat)
    ensures
        scene_layout(rows).len() == pins_in_rows(rows) + 2,
        scene_layout(rows)[BALL_INDEX as int] == BodyKind::Ball,
        scene_layout(rows).last() == BodyKind::Floor,
        forall|i: int| 0 < i < scene_layout(rows).len() - 1 ==> #[trigger] scene_layout(rows)[i] is Pin,
        forall|row: nat, col: nat|
            col < row < rows ==> #[trigger] scene_layout(rows)[pin_slot(row, col) as int]
                == (BodyKind::Pin { row: row as usize, col: col as usize }),
{
    lemma_pins_layout(rows);
    let pins = pins_layout(rows);
    let s = scene_layout(rows);
    assert forall|i: int| 0 < i < s.len() - 1 implies #[trigger] s[i] is Pin by {
        assert(s[i] == pins[i - 1]);
    }
    assert forall|row: nat, col: nat| col < row < rows implies #[trigger] s[pin_slot(row, col) as int]
        == (BodyKind::Pin { row: row as usize, col: col as usize }) by {
        lemma_pins_in_rows_monotonic(row + 1, rows);
        assert(s[pin_slot(row, col) as int] == pins[(pins_in_rows(row) + col) as int]);
    }
}

/// Number of pins in rows `0..rows`.
pub fn pin_count(rows: usize) -> (r: usize)
    requires
        pins_in_rows(rows as nat) <= usize::MAX,
    ensures
        r == pins_in_rows(rows as nat),
{
    let mut total: usize = 0;
    let mut row: usize = 0;
    while row < rows
        invariant
            row <= rows,
            total == pins_in_rows(row as nat),
            pins_in_rows(rows as nat) <= usize::MAX,
        decreases rows - row,
    {
        proof {
            lemma_pins_in_rows_monotonic((row + 1) as nat, rows as nat);
        }
        total = total + row;
        row = row + 1;
    }
    total
}

/// Logical index of the floor in a scene with `rows` pin rows: the last one.
pub fn floor_index(rows: usize) -> (r: usize)
    requires
        pins_in_rows(rows as nat) + 1 <= usize::MAX,
    ensures
        r == pins_in_rows(rows as nat) + 1,
        r == scene_layout(rows as nat).len() - 1,
{
    proof {
        lemma_scene_order(rows as nat);
    }
    pin_count(rows) + 1
}

/// Logical index of the pin at place `col` of row `row`.
pub fn pin_index(row: usize, col: usize) -> (r: usize)
    requires
        col < row,
        pin_slot(row as nat, col as nat) <= usize::MAX,
    ensures
        r == pin_slot(row as nat, col as nat),
{
    proof {
        lemma_pins_in_rows_monotonic(row as nat, row as nat);
    }
    1 + pin_count(row) + col
}

/// Offset of the pin at place `col` of row `row` from the head pin, in units
/// of half the pin spacing, as (across, along) the lane: rows are centred on
/// the lane and one spacing apart, pins of a row one spacing apart.
pub fn pin_grid_position(row: usize, col: usize) -> (r: (i64, i64))
    requires
        col < row,
        row <= i64::MAX / 2,
    ensures
        r.0 == 2 * col - row,
        r.1 == 2 * row,
{
    (2 * (col as i64) - row as i64, 2 * (row as i64))
}

/// The bodies of a scene with `rows` pin rows, in registration order.
pub fn scene_plan(rows: usize) -> (plan: Vec<BodyKind>)
    requires
        pins_in_rows(rows as nat) + 2 <= usize::MAX,
    ensures
        plan@ == scene_layout(rows as nat),
{
    let mut plan: Vec<BodyKind> = Vec::new();
    plan.push(BodyKind::Ball);
    let mut row: usize = 0;
    while row < rows
        invariant
            row <= rows,
            plan@ == seq![BodyKind::Ball] + pins_layout(row as nat),
        decreases rows - row,
    {
        let mut col: usize = 0;
        while col < row
            invariant
                row < rows,
                col <= row,
                plan@ == seq![BodyKind::Ball] + pins_layout(row as nat) + row_layout(row as nat).take(col as int),
            decreases row - col,
        {
            plan.push(BodyKind::Pin { row, col });
            proof {
                assert(row_layout(row as nat).take(col as int + 1)
                    == row_layout(row as nat).take(col as int).push(BodyKind::Pin { row, col }));
            }
            col = col + 1;
        }
        proof {
            assert(row_layout(row as nat).take(row as int) == row_layout(row as nat));
            assert(pins_layout((row + 1) as nat) == pins_layout(row as nat) + row_layout(row as nat));
        }
        row = row + 1;
    }
    plan.push(BodyKind::Floor);
    plan
}

} // verus!
