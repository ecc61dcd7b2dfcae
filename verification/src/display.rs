//! The framebuffer: a 64 x 32 grid of one-bit pixels, stored row by row,
//! changed only by clearing it and by XOR-ing a sprite onto it.

use vstd::prelude::*;

verus! {

/// Pixels in one row of the screen.
pub const SCREEN_WIDTH: usize = 64;

/// Rows of the screen.
pub const SCREEN_HEIGHT: usize = 32;

/// Pixels on the whole screen.
pub const PIXELS: usize = 2048;

/// The most rows a sprite can have.
pub const MAX_SPRITE_ROWS: usize = 15;

/// The blank screen: every pixel off.
pub open spec fn blank() -> Seq<bool> {
    Seq::new(PIXELS as nat, |p: int| false)
}

/// Whether the sprite row `byte` has a pixel in column `c`, counted from the
/// left: bit `7 - c` of the byte.
pub open spec fn sprite_bit(byte: u8, c: int) -> bool {
    if c == 0 {
        byte / 128 % 2 == 1
    } else if c == 1 {
        byte / 64 % 2 == 1
    } else if c == 2 {
        byte / 32 % 2 == 1
    } else if c == 3 {
        byte / 16 % 2 == 1
    } else if c == 4 {
        byte / 8 % 2 == 1
    } else if c == 5 {
        byte / 4 % 2 == 1
    } else if c == 6 {
        byte / 2 % 2 == 1
    } else if c == 7 {
        byte % 2 == 1
    } else {
        false
    }
}

/// The sprite row that falls on screen row `py` when the sprite's top is at
/// `by`. Clipped, rows keep their distance from the top; wrapped, they are
/// counted round the screen.
pub open spec fn sprite_row(py: int, by: int, wrap: bool) -> int {
    if wrap {
        (py - by) % 32
    } else {
        py - by
    }
}

/// The sprite column that falls on screen column `px` when the sprite's left
/// edge is at `bx`.
pub open spec fn sprite_col(px: int, bx: int, wrap: bool) -> int {
    if wrap {
        (px - bx) % 64
    } else {
        px - bx
    }
}

/// Whether the sprite `rows`, placed at (`bx`, `by`), has a set bit on the
/// pixel with index `p`.
pub open spec fn sprite_covers(rows: Seq<u8>, bx: int, by: int, wrap: bool, p: int) -> bool {
    let r = sprite_row(p / 64, by, wrap);
    let c = sprite_col(p % 64, bx, wrap);
    0 <= r < rows.len() && 0 <= c < 8 && sprite_bit(rows[r], c)
}

/// The framebuffer after the sprite is XOR-ed onto it: a pixel flips exactly
/// where the sprite has a set bit.
pub open spec fn blit_spec(gfx: Seq<bool>, rows: Seq<u8>, bx: int, by: int, wrap: bool) -> Seq<
    bool,
> {
    Seq::new(gfx.len(), |p: int| gfx[p] != sprite_covers(rows, bx, by, wrap, p))
}

/// Whether the sprite has a set bit on a pixel that is already on.
pub open spec fn collides(gfx: Seq<bool>, rows: Seq<u8>, bx: int, by: int, wrap: bool) -> bool {
    exists|p: int| 0 <= p < gfx.len() && gfx[p] && #[trigger] sprite_covers(rows, bx, by, wrap, p)
}

/// The part of the sprite drawn so far: the bits of rows before `r`, and of
/// row `r` those in columns before `c`.
pub open spec fn covers_upto(
    rows: Seq<u8>,
    bx: int,
    by: int,
    wrap: bool,
    p: int,
    r: int,
    c: int,
) -> bool {
    let pr = sprite_row(p / 64, by, wrap);
    let pc = sprite_col(p % 64, bx, wrap);
    sprite_covers(rows, bx, by, wrap, p) && (pr < r || (pr == r && pc < c))
}

/// Whether the part of the sprite drawn so far met a pixel that was on.
pub open spec fn collides_upto(
    gfx: Seq<bool>,
    rows: Seq<u8>,
    bx: int,
    by: int,
    wrap: bool,
    r: int,
    c: int,
) -> bool {
    exists|p: int|
        0 <= p < gfx.len() && gfx[p] && #[trigger] covers_upto(rows, bx, by, wrap, p, r, c)
}

/// The pixel index on which bit (`r`, `c`) of a sprite at (`bx`, `by`) falls,
/// if it falls on the screen.
pub open spec fn target(bx: int, by: int, wrap: bool, r: int, c: int) -> Option<int> {
    if wrap {
        Some(((by + r) % 32) * 64 + (bx + c) % 64)
    } else if bx + c < 64 && by + r < 32 {
        Some((by + r) * 64 + (bx + c))
    } else {
        None
    }
}

/// Counting a column round the screen: `px` lies `c` columns right of `bx`
/// exactly if `bx + c` comes round to `px`.
pub proof fn lemma_wrap_col(px: int, bx: int, c: int)
    requires
        0 <= px < 64,
        0 <= c < 64,
    ensures
        (px - bx) % 64 == c <==> px == (bx + c) % 64,
{
}

/// Counting a row round the screen: `py` lies `r` rows below `by` exactly if
/// `by + r` comes round to `py`.
pub proof fn lemma_wrap_row(py: int, by: int, r: int)
    requires
        0 <= py < 32,
        0 <= r < 32,
    ensures
        (py - by) % 32 == r <==> py == (by + r) % 32,
{
}

/// A pixel meets bit (`r`, `c`) of the sprite exactly if it is that bit's
/// target.
pub proof fn lemma_target_unique(bx: int, by: int, wrap: bool, r: int, c: int, p: int)
    requires
        0 <= bx < 256,
        0 <= by < 256,
        0 <= r < 16,
        0 <= c < 8,
        0 <= p < 2048,
    ensures
        (sprite_row(p / 64, by, wrap) == r && sprite_col(p % 64, bx, wrap) == c) <==> target(
            bx,
            by,
            wrap,
            r,
            c,
        ) == Some(p),
{
    if wrap {
        lemma_wrap_col(p % 64, bx, c);
        lemma_wrap_row(p / 64, by, r);
    }
}

/// What one more bit adds to the part drawn so far.
pub proof fn lemma_covers_step(
    rows: Seq<u8>,
    bx: int,
    by: int,
    wrap: bool,
    r: int,
    c: int,
    p: int,
)
    requires
        0 <= bx < 256,
        0 <= by < 256,
        0 <= r < rows.len() <= 15,
        0 <= c < 8,
        0 <= p < 2048,
    ensures
        covers_upto(rows, bx, by, wrap, p, r, c + 1) == (covers_upto(rows, bx, by, wrap, p, r, c)
            || (target(bx, by, wrap, r, c) == Some(p) && sprite_bit(rows[r], c))),
{
    lemma_target_unique(bx, by, wrap, r, c, p);
}

/// Drawing bit (`r`, `c`): it adds its target to the part drawn so far if it
/// is set and falls on the screen, and a collision if that pixel was on.
pub proof fn lemma_bit_drawn(
    gfx: Seq<bool>,
    rows: Seq<u8>,
    bx: int,
    by: int,
    wrap: bool,
    r: int,
    c: int,
)
    requires
        gfx.len() == 2048,
        0 <= bx < 256,
        0 <= by < 256,
        0 <= r < rows.len() <= 15,
        0 <= c < 8,
    ensures
        forall|p: int|
            0 <= p < 2048 ==> #[trigger] covers_upto(rows, bx, by, wrap, p, r, c + 1) == (
            covers_upto(rows, bx, by, wrap, p, r, c) || (target(bx, by, wrap, r, c) == Some(p)
                && sprite_bit(rows[r], c))),
        collides_upto(gfx, rows, bx, by, wrap, r, c + 1) == (collides_upto(
            gfx,
            rows,
            bx,
            by,
            wrap,
            r,
            c,
        ) || (sprite_bit(rows[r], c) && match target(bx, by, wrap, r, c) {
            Some(t) => gfx[t],
            None => false,
        })),
        match target(bx, by, wrap, r, c) {
            Some(t) => 0 <= t < 2048 && !covers_upto(rows, bx, by, wrap, t, r, c),
            None => true,
        },
{
    assert forall|p: int| 0 <= p < 2048 implies #[trigger] covers_upto(
        rows,
        bx,
        by,
        wrap,
        p,
        r,
        c + 1,
    ) == (covers_upto(rows, bx, by, wrap, p, r, c) || (target(bx, by, wrap, r, c) == Some(p)
        && sprite_bit(rows[r], c))) by {
        lemma_covers_step(rows, bx, by, wrap, r, c, p);
    }
    if collides_upto(gfx, rows, bx, by, wrap, r, c) {
        let p = choose|p: int|
            0 <= p < gfx.len() && gfx[p] && #[trigger] covers_upto(rows, bx, by, wrap, p, r, c);
        assert(covers_upto(rows, bx, by, wrap, p, r, c + 1));
    }
    if let Some(t) = target(bx, by, wrap, r, c) {
        lemma_target_unique(bx, by, wrap, r, c, t);
        if sprite_bit(rows[r], c) && gfx[t] {
            assert(covers_upto(rows, bx, by, wrap, t, r, c + 1));
        }
    }
}

/// A row is done when its eight columns are: the next row starts from what
/// this one has drawn.
pub proof fn lemma_row_drawn(gfx: Seq<bool>, rows: Seq<u8>, bx: int, by: int, wrap: bool, r: int)
    ensures
        forall|p: int|
            covers_upto(rows, bx, by, wrap, p, r, 8) == #[trigger] covers_upto(
                rows,
                bx,
                by,
                wrap,
                p,
                r + 1,
                0,
            ),
        collides_upto(gfx, rows, bx, by, wrap, r, 8) == collides_upto(
            gfx,
            rows,
            bx,
            by,
            wrap,
            r + 1,
            0,
        ),
{
    if collides_upto(gfx, rows, bx, by, wrap, r, 8) {
        let p = choose|p: int|
            0 <= p < gfx.len() && gfx[p] && #[trigger] covers_upto(rows, bx, by, wrap, p, r, 8);
        assert(covers_upto(rows, bx, by, wrap, p, r + 1, 0));
    }
    if collides_upto(gfx, rows, bx, by, wrap, r + 1, 0) {
        let p = choose|p: int|
            0 <= p < gfx.len() && gfx[p] && #[trigger] covers_upto(
                rows,
                bx,
                by,
                wrap,
                p,
                r + 1,
                0,
            );
        assert(covers_upto(rows, bx, by, wrap, p, r, 8));
    }
}

/// The sprite is done when all its rows are.
pub proof fn lemma_sprite_drawn(gfx: Seq<bool>, rows: Seq<u8>, bx: int, by: int, wrap: bool)
    ensures
        forall|p: int|
            sprite_covers(rows, bx, by, wrap, p) == #[trigger] covers_upto(
                rows,
                bx,
                by,
                wrap,
                p,
                rows.len() as int,
                0,
            ),
        collides(gfx, rows, bx, by, wrap) == collides_upto(
            gfx,
            rows,
            bx,
            by,
            wrap,
            rows.len() as int,
            0,
        ),
{
    let n = rows.len() as int;
    if collides(gfx, rows, bx, by, wrap) {
        let p = choose|p: int|
            0 <= p < gfx.len() && gfx[p] && #[trigger] sprite_covers(rows, bx, by, wrap, p);
        assert(covers_upto(rows, bx, by, wrap, p, n, 0));
    }
    if collides_upto(gfx, rows, bx, by, wrap, n, 0) {
        let p = choose|p: int|
            0 <= p < gfx.len() && gfx[p] && #[trigger] covers_upto(rows, bx, by, wrap, p, n, 0);
        assert(sprite_covers(rows, bx, by, wrap, p));
    }
}

/// The `height` bytes of `memory` from `start` on, as the rows of a sprite.
pub open spec fn sprite_rows(memory: Seq<u8>, start: int, height: int) -> Seq<u8> {
    Seq::new(height as nat, |r: int| memory[start + r])
}

/// Whether the sprite row `line` has a pixel in column `c`.
pub fn bit_at(line: u8, c: u8) -> (bit: bool)
    requires
        c < 8,
    ensures
        bit == sprite_bit(line, c as int),
{
    let shift: u8 = 7 - c;
    assert(shift < 8 ==> (((line >> shift) & 1u8 == 1u8) <==> (if shift == 7 {
        line / 128 % 2 == 1
    } else if shift == 6 {
        line / 64 % 2 == 1
    } else if shift == 5 {
        line / 32 % 2 == 1
    } else if shift == 4 {
        line / 16 % 2 == 1
    } else if shift == 3 {
        line / 8 % 2 == 1
    } else if shift == 2 {
        line / 4 % 2 == 1
    } else if shift == 1 {
        line / 2 % 2 == 1
    } else {
        line % 2 == 1
    }))) by (bit_vector);
    (line >> shift) & 1 == 1
}

/// The index of the pixel on which bit (`r`, `c`) of a sprite at (`bx`, `by`)
/// falls, if it falls on the screen.
pub fn target_of(bx: u8, by: u8, wrap: bool, r: usize, c: u8) -> (t: Option<usize>)
    requires
        r < 16,
        c < 8,
    ensures
        match t {
            Some(p) => p < 2048 && target(bx as int, by as int, wrap, r as int, c as int) == Some(
                p as int,
            ),
            None => target(bx as int, by as int, wrap, r as int, c as int).is_none(),
        },
{
    let mut px: usize = bx as usize + c as usize;
    let mut py: usize = by as usize + r;
    if wrap {
        px = px % SCREEN_WIDTH;
        py = py % SCREEN_HEIGHT;
    }
    if px < SCREEN_WIDTH && py < SCREEN_HEIGHT {
        Some(py * SCREEN_WIDTH + px)
    } else {
        None
    }
}

/// XORs the sprite of `height` rows held at `memory[start..]` onto the
/// framebuffer with its top left corner at (`bx`, `by`), and reports whether
/// it met a pixel that was on. Bits that fall off the screen are dropped, or
/// come back in on the opposite side if `wrap` is set. A sprite of no rows
/// reads no memory and changes nothing.
pub fn blit(
    gfx: &mut [bool; 2048],
    memory: &[u8; 4096],
    start: usize,
    height: usize,
    bx: u8,
    by: u8,
    wrap: bool,
) -> (collision: bool)
    requires
        height == 0 || start + height <= 4096,
        height <= MAX_SPRITE_ROWS,
    ensures
        final(gfx)@ == blit_spec(
            old(gfx)@,
            sprite_rows(memory@, start as int, height as int),
            bx as int,
            by as int,
            wrap,
        ),
        collision == collides(
            old(gfx)@,
            sprite_rows(memory@, start as int, height as int),
            bx as int,
            by as int,
            wrap,
        ),
{
    let ghost before = gfx@;
    let ghost rows = sprite_rows(memory@, start as int, height as int);
    let mut collision = false;
    let mut r: usize = 0;
    while r < height
        invariant
            height == 0 || start + height <= 4096,
            height <= 15,
            r <= height,
            before.len() == 2048,
            rows == sprite_rows(memory@, start as int, height as int),
            forall|p: int|
                0 <= p < 2048 ==> #[trigger] gfx@[p] == (before[p] != covers_upto(
                    rows,
                    bx as int,
                    by as int,
                    wrap,
                    p,
                    r as int,
                    0,
                )),
            collision == collides_upto(before, rows, bx as int, by as int, wrap, r as int, 0),
        decreases height - r,
    {
        let line: u8 = memory[start + r];
        let mut c: u8 = 0;
        while c < 8
            invariant
                r < height <= 15,
                c <= 8,
                before.len() == 2048,
                rows.len() == height,
                line == rows[r as int],
                forall|p: int|
                    0 <= p < 2048 ==> #[trigger] gfx@[p] == (before[p] != covers_upto(
                        rows,
                        bx as int,
                        by as int,
                        wrap,
                        p,
                        r as int,
                        c as int,
                    )),
                collision == collides_upto(
                    before,
                    rows,
                    bx as int,
                    by as int,
                    wrap,
                    r as int,
                    c as int,
                ),
            decreases 8 - c,
        {
            proof {
                lemma_bit_drawn(before, rows, bx as int, by as int, wrap, r as int, c as int);
            }
            if bit_at(line, c) {
                if let Some(t) = target_of(bx, by, wrap, r, c) {
                    if gfx[t] {
                        collision = true;
                    }
                    gfx[t] = !gfx[t];
                }
            }
            c += 1;
        }
        proof {
            lemma_row_drawn(before, rows, bx as int, by as int, wrap, r as int);
        }
        r += 1;
    }
    proof {
        lemma_sprite_drawn(before, rows, bx as int, by as int, wrap);
    }
    collision
}

} // verus!
