use vstd::prelude::*;

verus! {

/// Number of pixel columns.
pub const SCREEN_WIDTH: usize = 64;

/// Number of pixel rows.
pub const SCREEN_HEIGHT: usize = 32;

/// A grid of `SCREEN_HEIGHT` rows of `SCREEN_WIDTH` pixels.
pub open spec fn is_grid(s: Seq<Seq<bool>>) -> bool {
    &&& s.len() == SCREEN_HEIGHT
    &&& forall|cy: int| 0 <= cy < SCREEN_HEIGHT ==> (#[trigger] s[cy]).len() == SCREEN_WIDTH
}

/// The grid with every pixel off.
pub open spec fn blank_screen() -> Seq<Seq<bool>> {
    Seq::new(SCREEN_HEIGHT as nat, |cy: int| Seq::new(SCREEN_WIDTH as nat, |cx: int| false))
}

/// Bit `col` of a sprite row, counting from the most significant bit.
pub open spec fn sprite_bit(byte: u8, col: int) -> bool {
    0 <= col < 8 && (byte >> ((7 - col) as u8)) & 1u8 == 1u8
}

/// The sprite column that lands on screen column `cx` when a sprite is drawn
/// from column `x`: sprite column `c` lands on screen column `(x + c) mod 64`.
pub open spec fn sprite_column(x: u8, cx: int) -> int {
    (cx - x) % (SCREEN_WIDTH as int)
}

/// Whether screen column `cx` lies under a set bit of `byte` drawn from column `x`.
pub open spec fn sprite_covers(x: u8, byte: u8, cx: int) -> bool {
    sprite_bit(byte, sprite_column(x, cx))
}

/// `s` after XOR-ing the sprite row `byte` onto screen row `y mod 32` from
/// column `x` on, wrapping at the right edge.
pub open spec fn draw_row(s: Seq<Seq<bool>>, x: u8, y: int, byte: u8) -> Seq<Seq<bool>> {
    let cy = y % (SCREEN_HEIGHT as int);
    s.update(cy, Seq::new(SCREEN_WIDTH as nat, |cx: int| s[cy][cx] != sprite_covers(x, byte, cx)))
}

/// Whether drawing `byte` as in `draw_row` hits a pixel that is already on.
pub open spec fn row_collides(s: Seq<Seq<bool>>, x: u8, y: int, byte: u8) -> bool {
    exists|cx: int|
        0 <= cx < SCREEN_WIDTH && #[trigger] sprite_covers(x, byte, cx) && s[y % (
        SCREEN_HEIGHT as int)][cx]
}

/// The grid after drawing `sprite` row by row at `(x, y)`, row `k` on screen row
/// `y + k`, and whether any row collided.
pub open spec fn draw_sprite(s: Seq<Seq<bool>>, x: u8, y: u8, sprite: Seq<u8>) -> (Seq<Seq<bool>>, bool)
    decreases sprite.len(),
{
    if sprite.len() == 0 {
        (s, false)
    } else {
        let k = sprite.len() - 1;
        let before = draw_sprite(s, x, y, sprite.drop_last());
        (
            draw_row(before.0, x, y + k, sprite[k]),
            before.1 || row_collides(before.0, x, y + k, sprite[k]),
        )
    }
}

/// A 64 x 32 monochrome display, stored row by row.
pub struct EmulatedScreen {
    pub pixels: [[bool; 64]; 32],
}

impl View for EmulatedScreen {
    type V = Seq<Seq<bool>>;

    open spec fn view(&self) -> Seq<Seq<bool>> {
        self.pixels@.map_values(|row: [bool; 64]| row@)
    }
}

proof fn lemma_view_is_grid(s: &EmulatedScreen)
    ensures
        is_grid(s@),
{
}

/// For a column `cx` on screen, `cx` is where sprite column `c` lands from `x`
/// exactly when `c` is `(cx - x) mod 64`.
pub proof fn lemma_column_wrap(x: u8, c: int, cx: int)
    requires
        0 <= c < SCREEN_WIDTH,
        0 <= cx < SCREEN_WIDTH,
    ensures
        (cx == (x + c) % (SCREEN_WIDTH as int)) <==> (sprite_column(x, cx) == c),
{
    assert((cx == (x + c) % 64) <==> ((cx - x) % 64 == c)) by (nonlinear_arith)
        requires
            0 <= c < 64,
            0 <= cx < 64,
            0 <= x < 256,
    ;
}

/// Sprite column `c` drawn from column `x` lands on screen column
/// `(x + c) mod 64`, which is always on screen: a sprite at the right edge
/// wraps to the left edge.
pub proof fn lemma_sprite_column_wraps(x: u8, byte: u8, c: int)
    requires
        0 <= c < 8,
    ensures
        0 <= (x + c) % (SCREEN_WIDTH as int) < SCREEN_WIDTH,
        sprite_covers(x, byte, (x + c) % (SCREEN_WIDTH as int)) == sprite_bit(byte, c),
{
    lemma_column_wrap(x, c, (x + c) % 64);
}

/// Whether drawing `sprite` at `(x, y)` toggles pixel `(cx, cy)` an odd number
/// of times.
pub open spec fn toggled(x: u8, y: u8, sprite: Seq<u8>, cx: int, cy: int) -> bool
    decreases sprite.len(),
{
    if sprite.len() == 0 {
        false
    } else {
        let k = sprite.len() - 1;
        toggled(x, y, sprite.drop_last(), cx, cy) != ((y + k) % (SCREEN_HEIGHT as int) == cy
            && sprite_covers(x, sprite[k], cx))
    }
}

/// Drawing a sprite flips exactly the pixels that it toggles an odd number of
/// times.
pub proof fn lemma_draw_sprite_cells(s: Seq<Seq<bool>>, x: u8, y: u8, sprite: Seq<u8>)
    requires
        is_grid(s),
    ensures
        is_grid(draw_sprite(s, x, y, sprite).0),
        forall|cx: int, cy: int|
            0 <= cx < SCREEN_WIDTH && 0 <= cy < SCREEN_HEIGHT ==> #[trigger] draw_sprite(
                s,
                x,
                y,
                sprite,
            ).0[cy][cx] == (s[cy][cx] != toggled(x, y, sprite, cx, cy)),
    decreases sprite.len(),
{
    if sprite.len() > 0 {
        lemma_draw_sprite_cells(s, x, y, sprite.drop_last());
    }
}

/// Drawing the same sprite at the same place twice leaves the screen as it
/// was: every pixel is XOR-ed twice.
pub proof fn lemma_draw_twice_restores(s: Seq<Seq<bool>>, x: u8, y: u8, sprite: Seq<u8>)
    requires
        is_grid(s),
    ensures
        draw_sprite(draw_sprite(s, x, y, sprite).0, x, y, sprite).0 == s,
{
    let first = draw_sprite(s, x, y, sprite).0;
    let second = draw_sprite(first, x, y, sprite).0;
    lemma_draw_sprite_cells(s, x, y, sprite);
    lemma_draw_sprite_cells(first, x, y, sprite);
    assert forall|cy: int| 0 <= cy < SCREEN_HEIGHT implies second[cy] =~= s[cy] by {
        assert forall|cx: int| 0 <= cx < SCREEN_WIDTH implies second[cy][cx] == s[cy][cx] by {
            assert(second[cy][cx] == (first[cy][cx] != toggled(x, y, sprite, cx, cy)));
            assert(first[cy][cx] == (s[cy][cx] != toggled(x, y, sprite, cx, cy)));
        }
    }
    assert(second =~= s);
}

/// A pixel toggled an odd number of times is covered by some row of the
/// sprite, the first such row being drawn while it has not yet been toggled.
proof fn lemma_first_toggle(x: u8, y: u8, sprite: Seq<u8>, cx: int, cy: int) -> (k: int)
    requires
        toggled(x, y, sprite, cx, cy),
    ensures
        0 <= k < sprite.len(),
        (y + k) % (SCREEN_HEIGHT as int) == cy,
        sprite_covers(x, sprite[k], cx),
        !toggled(x, y, sprite.take(k), cx, cy),
    decreases sprite.len(),
{
    let rest = sprite.drop_last();
    if toggled(x, y, rest, cx, cy) {
        let k = lemma_first_toggle(x, y, rest, cx, cy);
        assert(rest.take(k) =~= sprite.take(k));
        k
    } else {
        let k = sprite.len() - 1;
        assert(sprite.take(k) =~= rest);
        k
    }
}

/// A draw reports a collision when any one of its rows hits a lit pixel.
proof fn lemma_collision_from_row(s: Seq<Seq<bool>>, x: u8, y: u8, sprite: Seq<u8>, k: int)
    requires
        0 <= k < sprite.len(),
        row_collides(draw_sprite(s, x, y, sprite.take(k)).0, x, y + k, sprite[k]),
    ensures
        draw_sprite(s, x, y, sprite).1,
    decreases sprite.len(),
{
    if k == sprite.len() - 1 {
        assert(sprite.drop_last() =~= sprite.take(k));
    } else {
        assert(sprite.drop_last().take(k) =~= sprite.take(k));
        lemma_collision_from_row(s, x, y, sprite.drop_last(), k);
    }
}

/// Drawing a sprite again at the same place reports a collision whenever the
/// first draw turned some pixel on.
pub proof fn lemma_redraw_collides(
    s: Seq<Seq<bool>>,
    x: u8,
    y: u8,
    sprite: Seq<u8>,
    cx: int,
    cy: int,
)
    requires
        is_grid(s),
        0 <= cx < SCREEN_WIDTH,
        0 <= cy < SCREEN_HEIGHT,
        !s[cy][cx],
        draw_sprite(s, x, y, sprite).0[cy][cx],
    ensures
        draw_sprite(draw_sprite(s, x, y, sprite).0, x, y, sprite).1,
{
    let first = draw_sprite(s, x, y, sprite).0;
    lemma_draw_sprite_cells(s, x, y, sprite);
    assert(toggled(x, y, sprite, cx, cy));
    let k = lemma_first_toggle(x, y, sprite, cx, cy);
    lemma_draw_sprite_cells(first, x, y, sprite.take(k));
    let partial = draw_sprite(first, x, y, sprite.take(k)).0;
    assert(partial[cy][cx]);
    assert(sprite_covers(x, sprite[k], cx) && partial[(y + k) % (SCREEN_HEIGHT as int)][cx]);
    lemma_collision_from_row(first, x, y, sprite, k);
}

impl EmulatedScreen {
    /// A screen with every pixel off.
    pub fn new() -> (r: Self)
        ensures
            r@ == blank_screen(),
    {
        let r = EmulatedScreen { pixels: [[false; 64]; 32] };
        assert forall|cy: int| 0 <= cy < SCREEN_HEIGHT implies r@[cy] =~= blank_screen()[cy] by {}
        assert(r@ =~= blank_screen());
        r
    }

    /// Sets the pixel at `(x mod 64, y mod 32)`.
    pub fn put_pixel(&mut self, x: u8, y: u8, pix: bool)
        ensures
            final(self)@ == old(self)@.update(
                y as int % 32,
                old(self)@[y as int % 32].update(x as int % 64, pix),
            ),
    {
        let cy = (y % 32) as usize;
        let mut row = self.pixels[cy];
        row[(x % 64) as usize] = pix;
        self.pixels[cy] = row;
        assert(self@ =~= old(self)@.update(
            y as int % 32,
            old(self)@[y as int % 32].update(x as int % 64, pix),
        ));
    }

    /// The pixel at `(x mod 64, y mod 32)`.
    pub fn get_pixel(&self, x: u8, y: u8) -> (r: bool)
        ensures
            r == self@[y as int % 32][x as int % 64],
    {
        self.pixels[(y % 32) as usize][(x % 64) as usize]
    }

    /// A copy of the whole grid.
    pub fn get_screen(&self) -> (r: [[bool; 64]; 32])
        ensures
            r == self.pixels,
    {
        self.pixels
    }

    /// XORs the sprite row `byte` onto screen row `y_plus_row mod 32`, from
    /// column `x` on with wrap-around; returns 1 when a lit pixel was hit, else 0.
    pub fn write_byte(&mut self, x: u8, y_plus_row: u8, byte: u8) -> (r: u8)
        ensures
            final(self)@ == draw_row(old(self)@, x, y_plus_row as int, byte),
            r == (if row_collides(old(self)@, x, y_plus_row as int, byte) {
                1u8
            } else {
                0u8
            }),
    {
        let ghost s = old(self)@;
        let screen_y = (y_plus_row % 32) as usize;
        let ghost cy = y_plus_row as int % 32;
        let mut row = self.pixels[screen_y];
        let mut v_f: u8 = 0;
        let mut col: u8 = 0;
        while col < 8
            invariant
                col <= 8,
                screen_y == cy,
                0 <= cy < SCREEN_HEIGHT,
                s == old(self)@,
                is_grid(s),
                forall|cx: int|
                    0 <= cx < SCREEN_WIDTH ==> #[trigger] row@[cx] == (s[cy][cx] != (sprite_column(
                        x,
                        cx,
                    ) < col && sprite_covers(x, byte, cx))),
                v_f == 0 || v_f == 1,
                v_f == 1 <==> exists|cx: int|
                    0 <= cx < SCREEN_WIDTH && sprite_column(x, cx) < col && #[trigger] sprite_covers(
                        x,
                        byte,
                        cx,
                    ) && s[cy][cx],
            decreases 8 - col,
        {
            let pixel = (byte >> (7 - col)) & 1;
            let screen_x = (x as usize + col as usize) % 64;
            proof {
                lemma_column_wrap(x, col as int, screen_x as int);
                assert forall|cx: int| 0 <= cx < SCREEN_WIDTH implies (cx == screen_x) <==> (
                #[trigger] sprite_column(x, cx) == col) by {
                    lemma_column_wrap(x, col as int, cx);
                }
            }
            assert(sprite_covers(x, byte, screen_x as int) <==> pixel == 1);
            if pixel == 1 {
                if row[screen_x] {
                    v_f = 1;
                    assert(sprite_column(x, screen_x as int) < col + 1 && sprite_covers(
                        x,
                        byte,
                        screen_x as int,
                    ) && s[cy][screen_x as int]);
                }
                row[screen_x] = !row[screen_x];
            }
            col += 1;
        }
        self.pixels[screen_y] = row;
        proof {
            lemma_view_is_grid(self);
            assert forall|cx: int| 0 <= cx < SCREEN_WIDTH implies sprite_column(x, cx) < 8
                || !#[trigger] sprite_covers(x, byte, cx) by {}
            assert(row@ =~= draw_row(s, x, y_plus_row as int, byte)[cy]);
            assert(self@ =~= draw_row(s, x, y_plus_row as int, byte));
        }
        v_f
    }

    /// Draws `sprite` at `(x, y)`: row `k` goes to screen row `(y + k) mod 32`
    /// as in `write_byte`. Returns whether any row hit a lit pixel.
    pub fn draw(&mut self, x: u8, y: u8, sprite: &[u8]) -> (collision: bool)
        ensures
            (final(self)@, collision) == draw_sprite(old(self)@, x, y, sprite@),
    {
        let mut collision = false;
        let mut row: usize = 0;
        while row < sprite.len()
            invariant
                row <= sprite@.len(),
                (self@, collision) == draw_sprite(old(self)@, x, y, sprite@.take(row as int)),
            decreases sprite@.len() - row,
        {
            let cy = ((y as usize + row % 32) % 32) as u8;
            proof {
                vstd::arithmetic::div_mod::lemma_add_mod_noop(y as int, row as int, 32);
                assert(sprite@.take(row + 1).drop_last() =~= sprite@.take(row as int));
            }
            let hit = self.write_byte(x, cy, sprite[row]);
            collision = collision || hit == 1;
            row += 1;
        }
        assert(sprite@.take(sprite@.len() as int) =~= sprite@);
        collision
    }

    /// Turns every pixel off.
    pub fn clear(&mut self)
        ensures
            final(self)@ == blank_screen(),
    {
        self.pixels = [[false; 64]; 32];
        assert forall|cy: int| 0 <= cy < SCREEN_HEIGHT implies self@[cy] =~= blank_screen()[cy] by {}
        assert(self@ =~= blank_screen());
    }
}

} // verus!
