//! The display buffer and the drawing of sprites onto it.
//!
//! The buffer has 2048 cells, 64 to a row and 32 rows, each 0 or 1. A sprite
//! is up to fifteen rows of eight pixels, one byte per row, and is composed
//! with the buffer by exclusive or.

use vstd::prelude::*;

verus! {

/// A display buffer while a sprite is drawn onto it: the cells, row by row,
/// and whether a pixel that was on has been turned off so far.
pub ghost struct Canvas {
    pub cells: Seq<u8>,
    pub collision: bool,
}

/// Every cell holds 0 or 1.
pub open spec fn cells_valid(cells: Seq<u8>) -> bool {
    forall|k: int| 0 <= k < cells.len() ==> cells[k] <= 1
}

/// Whether a sprite row has a pixel in `column`, counted from the left, which
/// is the most significant bit.
pub open spec fn sprite_bit(row: u8, column: u8) -> bool {
    row & (0x80u8 >> column) != 0
}

/// The cell that the sprite pixel at (`row`, `column`) falls on, for a sprite
/// whose top left corner is at (`x`, `y`). A pixel past the right edge runs on
/// into the next display row; one past the last cell of the buffer is clamped
/// to that cell.
pub open spec fn cell_index(x: int, y: int, row: int, column: int) -> int {
    let k = x + column + (y + row) * 64;
    if k >= 2048 {
        2047
    } else {
        k
    }
}

/// Toggles one cell, and records a collision if it was on.
pub open spec fn plot(canvas: Canvas, cell: int) -> Canvas {
    Canvas {
        cells: canvas.cells.update(cell, canvas.cells[cell] ^ 1),
        collision: canvas.collision || canvas.cells[cell] == 1,
    }
}

/// The buffer after the first `bits` pixel positions of a sprite have been
/// drawn, eight to a row, rows from the top and columns from the left.
pub open spec fn drawn(cells: Seq<u8>, sprite: Seq<u8>, x: int, y: int, bits: nat) -> Canvas
    decreases bits,
{
    if bits == 0 {
        Canvas { cells, collision: false }
    } else {
        let before = drawn(cells, sprite, x, y, (bits - 1) as nat);
        let row = (bits - 1) / 8;
        let column = (bits - 1) % 8;
        if sprite_bit(sprite[row], column as u8) {
            plot(before, cell_index(x, y, row, column))
        } else {
            before
        }
    }
}

/// Drawing keeps the size of the buffer and the range of its cells.
pub proof fn lemma_drawn_valid(cells: Seq<u8>, sprite: Seq<u8>, x: int, y: int, bits: nat)
    requires
        cells.len() == 2048,
        cells_valid(cells),
        0 <= x,
        0 <= y,
    ensures
        drawn(cells, sprite, x, y, bits).cells.len() == 2048,
        cells_valid(drawn(cells, sprite, x, y, bits).cells),
    decreases bits,
{
    if bits > 0 {
        lemma_drawn_valid(cells, sprite, x, y, (bits - 1) as nat);
        let before = drawn(cells, sprite, x, y, (bits - 1) as nat);
        let cell = cell_index(x, y, (bits - 1) / 8, (bits - 1) % 8);
        let c = before.cells[cell];
        assert(c ^ 1 <= 1) by (bit_vector)
            requires
                c <= 1,
        ;
    }
}

/// Whether the sprite is drawn without clamping: its last pixel position falls
/// on a cell of the buffer. No two pixel positions then share a cell.
pub open spec fn fits(sprite: Seq<u8>, x: int, y: int) -> bool {
    &&& 0 <= x
    &&& 0 <= y
    &&& x + 7 + (y + sprite.len() - 1) * 64 < 2048
}

/// Whether the sprite has a pixel on cell `k`, among its first `bits` pixel
/// positions, when it is drawn without clamping.
pub open spec fn covers(sprite: Seq<u8>, x: int, y: int, bits: nat, k: int) -> bool {
    let d = k - (x + 64 * y);
    &&& 0 <= d
    &&& d % 64 < 8
    &&& d / 64 < sprite.len()
    &&& 8 * (d / 64) + d % 64 < bits
    &&& sprite_bit(sprite[d / 64], (d % 64) as u8)
}

/// Where nothing is clamped, the first `bits` pixel positions toggle exactly
/// the cells that they cover, each once, and a collision is recorded exactly
/// if one of those cells was on.
pub proof fn lemma_drawn_prefix(cells: Seq<u8>, sprite: Seq<u8>, x: int, y: int, bits: nat)
    requires
        cells.len() == 2048,
        fits(sprite, x, y),
        bits <= 8 * sprite.len(),
    ensures
        drawn(cells, sprite, x, y, bits).cells.len() == 2048,
        forall|k: int|
            0 <= k < 2048 ==> #[trigger] drawn(cells, sprite, x, y, bits).cells[k] == if covers(
                sprite,
                x,
                y,
                bits,
                k,
            ) {
                cells[k] ^ 1
            } else {
                cells[k]
            },
        drawn(cells, sprite, x, y, bits).collision <==> exists|k: int|
            0 <= k < 2048 && #[trigger] covers(sprite, x, y, bits, k) && cells[k] == 1,
    decreases bits,
{
    if bits > 0 {
        let j = (bits - 1) as nat;
        lemma_drawn_prefix(cells, sprite, x, y, j);
        let before = drawn(cells, sprite, x, y, j);
        let after = drawn(cells, sprite, x, y, bits);
        let row = j as int / 8;
        let column = j as int % 8;
        let cell = cell_index(x, y, row, column);
        assert(cell == x + column + (y + row) * 64);
        let d = cell - (x + 64 * y);
        assert(d == column + 64 * row);
        assert(d / 64 == row && d % 64 == column);
        assert(!covers(sprite, x, y, j, cell));
        assert forall|k: int| 0 <= k < 2048 && k != cell implies covers(sprite, x, y, bits, k)
            == covers(sprite, x, y, j, k) by {
            let e = k - (x + 64 * y);
            if 0 <= e && e % 64 < 8 && 8 * (e / 64) + e % 64 == j {
                assert(e / 64 == row && e % 64 == column);
            }
        }
        if sprite_bit(sprite[row], column as u8) {
            assert(covers(sprite, x, y, bits, cell));
            assert(after == plot(before, cell));
            assert forall|k: int| 0 <= k < 2048 implies #[trigger] after.cells[k] == if covers(
                sprite,
                x,
                y,
                bits,
                k,
            ) {
                cells[k] ^ 1
            } else {
                cells[k]
            } by {
                if k != cell {
                    assert(after.cells[k] == before.cells[k]);
                }
            }
            if after.collision {
                if before.collision {
                    let k = choose|k: int|
                        0 <= k < 2048 && #[trigger] covers(sprite, x, y, j, k) && cells[k] == 1;
                    assert(covers(sprite, x, y, bits, k));
                } else {
                    assert(covers(sprite, x, y, bits, cell) && cells[cell] == 1);
                }
            }
            if exists|k: int|
                0 <= k < 2048 && #[trigger] covers(sprite, x, y, bits, k) && cells[k] == 1 {
                let k = choose|k: int|
                    0 <= k < 2048 && #[trigger] covers(sprite, x, y, bits, k) && cells[k] == 1;
                if k != cell {
                    assert(covers(sprite, x, y, j, k));
                }
            }
        } else {
            assert(!covers(sprite, x, y, bits, cell));
            assert(after == before);
            assert forall|k: int| 0 <= k < 2048 implies covers(sprite, x, y, bits, k) == covers(
                sprite,
                x,
                y,
                j,
                k,
            ) by {}
        }
    }
}

/// Sprites are composed by exclusive or. Where nothing is clamped, a sprite
/// toggles exactly the cells under its pixels, and collides exactly if one of
/// them was on.
pub proof fn lemma_drawn_toggles(cells: Seq<u8>, sprite: Seq<u8>, x: int, y: int)
    requires
        cells.len() == 2048,
        fits(sprite, x, y),
    ensures
        drawn(cells, sprite, x, y, 8 * sprite.len()).cells.len() == 2048,
        forall|k: int|
            0 <= k < 2048 ==> #[trigger] drawn(cells, sprite, x, y, 8 * sprite.len()).cells[k]
                == if covers(sprite, x, y, 8 * sprite.len(), k) {
                cells[k] ^ 1
            } else {
                cells[k]
            },
        drawn(cells, sprite, x, y, 8 * sprite.len()).collision <==> exists|k: int|
            0 <= k < 2048 && #[trigger] covers(sprite, x, y, 8 * sprite.len(), k) && cells[k] == 1,
{
    lemma_drawn_prefix(cells, sprite, x, y, 8 * sprite.len());
}

/// Drawing a sprite twice at the same place restores the buffer. Where
/// nothing is clamped, the second drawing collides exactly if the sprite has
/// a pixel on a cell that was off to begin with.
pub proof fn lemma_drawn_twice(cells: Seq<u8>, sprite: Seq<u8>, x: int, y: int)
    requires
        cells.len() == 2048,
        cells_valid(cells),
        fits(sprite, x, y),
    ensures
        drawn(
            drawn(cells, sprite, x, y, 8 * sprite.len()).cells,
            sprite,
            x,
            y,
            8 * sprite.len(),
        ).cells == cells,
        drawn(
            drawn(cells, sprite, x, y, 8 * sprite.len()).cells,
            sprite,
            x,
            y,
            8 * sprite.len(),
        ).collision <==> exists|k: int|
            0 <= k < 2048 && #[trigger] covers(sprite, x, y, 8 * sprite.len(), k) && cells[k] == 0,
{
    let bits = 8 * sprite.len();
    let once = drawn(cells, sprite, x, y, bits);
    let twice = drawn(once.cells, sprite, x, y, bits);
    lemma_drawn_toggles(cells, sprite, x, y);
    lemma_drawn_toggles(once.cells, sprite, x, y);
    assert forall|k: int| 0 <= k < 2048 implies twice.cells[k] == cells[k] && (covers(
        sprite,
        x,
        y,
        bits,
        k,
    ) ==> (once.cells[k] == 1 <==> cells[k] == 0)) by {
        let c = cells[k];
        assert((c ^ 1) ^ 1 == c) by (bit_vector);
        assert(c <= 1 ==> (c ^ 1 == 1 <==> c == 0)) by (bit_vector);
    }
    assert(twice.cells =~= cells);
    if twice.collision {
        let k = choose|k: int|
            0 <= k < 2048 && #[trigger] covers(sprite, x, y, bits, k) && once.cells[k] == 1;
        assert(covers(sprite, x, y, bits, k) && cells[k] == 0);
    }
    if exists|k: int| 0 <= k < 2048 && #[trigger] covers(sprite, x, y, bits, k) && cells[k] == 0 {
        let k = choose|k: int|
            0 <= k < 2048 && #[trigger] covers(sprite, x, y, bits, k) && cells[k] == 0;
        assert(covers(sprite, x, y, bits, k) && once.cells[k] == 1);
    }
}

/// Draws the `height` sprite rows that start at `ram[start]` onto the buffer,
/// with the sprite's top left corner at (`x`, `y`), and reports whether a
/// pixel that was on has been turned off.
pub fn draw_sprite(
    gfx: &mut Vec<u8>,
    ram: &Vec<u8>,
    start: usize,
    height: u8,
    x: u8,
    y: u8,
) -> (collision: bool)
    requires
        old(gfx).len() == 2048,
        cells_valid(old(gfx)@),
        start + height <= ram.len(),
    ensures
        final(gfx)@ == drawn(
            old(gfx)@,
            ram@.subrange(start as int, start + height),
            x as int,
            y as int,
            (8 * height) as nat,
        ).cells,
        collision == drawn(
            old(gfx)@,
            ram@.subrange(start as int, start + height),
            x as int,
            y as int,
            (8 * height) as nat,
        ).collision,
        final(gfx).len() == 2048,
        cells_valid(final(gfx)@),
    no_unwind
{
    let ghost before = gfx@;
    let ghost sprite = ram@.subrange(start as int, start + height);
    let rows: usize = height as usize;
    let mut collision = false;
    let mut yline: usize = 0;
    while yline < rows
        invariant
            yline <= rows,
            rows == height,
            start + rows <= ram.len(),
            sprite == ram@.subrange(start as int, start + rows),
            before.len() == 2048,
            cells_valid(before),
            gfx.len() == 2048,
            gfx@ == drawn(before, sprite, x as int, y as int, (8 * yline) as nat).cells,
            collision == drawn(before, sprite, x as int, y as int, (8 * yline) as nat).collision,
        decreases rows - yline,
    {
        let pixel: u8 = ram[start + yline];
        let mut xline: usize = 0;
        while xline < 8
            invariant
                xline <= 8,
                yline < rows,
                rows == height,
                sprite.len() == rows,
                pixel == sprite[yline as int],
                before.len() == 2048,
                cells_valid(before),
                gfx.len() == 2048,
                gfx@ == drawn(before, sprite, x as int, y as int, (8 * yline + xline) as nat).cells,
                collision == drawn(
                    before,
                    sprite,
                    x as int,
                    y as int,
                    (8 * yline + xline) as nat,
                ).collision,
            decreases 8 - xline,
        {
            let ghost done = (8 * yline + xline) as nat;
            proof {
                lemma_drawn_valid(before, sprite, x as int, y as int, done);
                assert(((done + 1) as nat - 1) / 8 == yline as int);
                assert(((done + 1) as nat - 1) % 8 == xline as int);
            }
            let mask: u8 = 0x80u8 >> (xline as u8);
            if pixel & mask != 0 {
                let index: usize = x as usize + xline + (y as usize + yline) * 64;
                let cell: usize = if index >= 2048 {
                    2047
                } else {
                    index
                };
                assert(cell == cell_index(x as int, y as int, yline as int, xline as int));
                let value: u8 = gfx[cell];
                if value == 1 {
                    collision = true;
                }
                gfx[cell] = value ^ 1;
            }
            xline += 1;
        }
        yline += 1;
    }
    proof {
        lemma_drawn_valid(before, sprite, x as int, y as int, (8 * height) as nat);
    }
    collision
}

} // verus!
