//! The monochrome display buffer and its sprite blit.
use crate::constants::{NUM_PIXELS, SCREEN_HEIGHT, SCREEN_WIDTH, MAX_SPRITE_ROWS};
use vstd::prelude::*;

verus! {

/// The state of one display cell.
#[derive(Clone, Copy, PartialEq, Eq, Debug, Structural)]
pub enum PixelState {
    Black,
    White,
}

impl PixelState {
    /// Whether the cell is set.
    pub open spec fn is_set(self) -> bool {
        self is White
    }

    pub fn from_bool(b: bool) -> (r: PixelState)
        ensures
            r.is_set() == b,
    {
        if b {
            PixelState::White
        } else {
            PixelState::Black
        }
    }

    pub fn to_bool(self) -> (r: bool)
        ensures
            r == self.is_set(),
    {
        match self {
            PixelState::Black => false,
            PixelState::White => true,
        }
    }

    /// The exclusive or of two cell states.
    pub fn xor(&self, other: PixelState) -> (r: PixelState)
        ensures
            r.is_set() == (self.is_set() != other.is_set()),
    {
        PixelState::from_bool(self.to_bool() != other.to_bool())
    }

    /// XORs `other` into this cell and reports whether the cell went from set to unset.
    pub fn xor_mut_and_did_unset(&mut self, other: PixelState) -> (did_unset: bool)
        ensures
            final(self).is_set() == (old(self).is_set() != other.is_set()),
            did_unset == (old(self).is_set() && other.is_set()),
    {
        let result = self.xor(other);
        let did_unset = *self == PixelState::White && result == PixelState::Black;
        *self = result;
        did_unset
    }

    /// The 16-bit colour of the cell: all bits set when the cell is set, zero otherwise.
    pub fn to_u16(self) -> (r: u16)
        ensures
            r == pixel_value(self.is_set()),
    {
        match self {
            PixelState::Black => 0,
            PixelState::White => 0xFFFF,
        }
    }
}

/// The 16-bit colour of a cell.
pub open spec fn pixel_value(set: bool) -> u16 {
    if set {
        0xFFFF
    } else {
        0
    }
}

/// The screen as 16-bit colours, row by row.
pub open spec fn screen_pixels(screen: Seq<bool>) -> Seq<u16> {
    Seq::new(NUM_PIXELS as nat, |i: int| pixel_value(screen[i]))
}

/// Bit `col` of a sprite row, counting from the most significant bit.
pub open spec fn sprite_bit(b: u8, col: int) -> bool {
    (b >> ((7 - col) as u8)) & 1u8 == 1u8
}

/// The row of a cell index.
pub open spec fn cell_row(i: int) -> int {
    i / SCREEN_WIDTH as int
}

/// The column of a cell index.
pub open spec fn cell_col(i: int) -> int {
    i % SCREEN_WIDTH as int
}

/// Whether the sprite, drawn with its top-left corner at (`x0`, `y0`), has a set bit over
/// cell `i`. Only cells of the screen exist, so a sprite that runs past the right or bottom
/// edge is clipped there.
pub open spec fn sprite_covers(sprite: Seq<u8>, x0: int, y0: int, i: int) -> bool {
    let r = cell_row(i) - y0;
    let c = cell_col(i) - x0;
    &&& 0 <= r < sprite.len()
    &&& 0 <= c < 8
    &&& sprite_bit(sprite[r], c)
}

/// The screen after XOR-drawing `sprite` at (`x` mod width, `y` mod height).
pub open spec fn blit(screen: Seq<bool>, sprite: Seq<u8>, x: u8, y: u8) -> Seq<bool> {
    Seq::new(
        NUM_PIXELS as nat,
        |i: int|
            screen[i] != sprite_covers(
                sprite,
                x as int % SCREEN_WIDTH as int,
                y as int % SCREEN_HEIGHT as int,
                i,
            ),
    )
}

/// Whether drawing `sprite` at (`x` mod width, `y` mod height) turns some set cell off.
pub open spec fn blit_collides(screen: Seq<bool>, sprite: Seq<u8>, x: u8, y: u8) -> bool {
    exists|i: int|
        0 <= i < NUM_PIXELS && #[trigger] screen[i] && sprite_covers(
            sprite,
            x as int % SCREEN_WIDTH as int,
            y as int % SCREEN_HEIGHT as int,
            i,
        )
}

/// The blank screen.
pub open spec fn blank_screen() -> Seq<bool> {
    Seq::new(NUM_PIXELS as nat, |i: int| false)
}

/// Row and column of a cell index recombine to the index.
pub proof fn lemma_cell_index(i: int)
    requires
        0 <= i < NUM_PIXELS,
    ensures
        0 <= cell_row(i) < SCREEN_HEIGHT,
        0 <= cell_col(i) < SCREEN_WIDTH,
        i == cell_row(i) * SCREEN_WIDTH + cell_col(i),
{
}

/// The cell at row `r`, column `c` has index `r * width + c`.
pub proof fn lemma_cell_at(r: int, c: int)
    requires
        0 <= r < SCREEN_HEIGHT,
        0 <= c < SCREEN_WIDTH,
    ensures
        0 <= r * SCREEN_WIDTH + c < NUM_PIXELS,
        cell_row(r * SCREEN_WIDTH + c) == r,
        cell_col(r * SCREEN_WIDTH + c) == c,
{
}

/// Whether cell `i` comes before (row `r`, column `c`) of a sprite drawn at (`x0`, `y0`), in
/// the order in which the blit visits the sprite's cells.
pub open spec fn drawn_before(x0: int, y0: int, r: int, c: int, i: int) -> bool {
    let ri = cell_row(i) - y0;
    let ci = cell_col(i) - x0;
    ri < r || (ri == r && ci < c)
}

/// The screen part way through a blit: the cells before (`r`, `c`) are drawn.
pub open spec fn partial_blit(
    screen: Seq<bool>,
    sprite: Seq<u8>,
    x0: int,
    y0: int,
    r: int,
    c: int,
) -> Seq<bool> {
    Seq::new(
        NUM_PIXELS as nat,
        |i: int| screen[i] != (drawn_before(x0, y0, r, c, i) && sprite_covers(sprite, x0, y0, i)),
    )
}

/// Whether the part of a blit before (`r`, `c`) turned a set cell off.
pub open spec fn partial_collides(
    screen: Seq<bool>,
    sprite: Seq<u8>,
    x0: int,
    y0: int,
    r: int,
    c: int,
) -> bool {
    exists|i: int|
        0 <= i < NUM_PIXELS && #[trigger] screen[i] && drawn_before(x0, y0, r, c, i)
            && sprite_covers(sprite, x0, y0, i)
}

/// The display buffer: one cell per pixel, row by row.
pub struct ChipScreen {
    pub pixels: [PixelState; NUM_PIXELS],
}

impl View for ChipScreen {
    type V = Seq<bool>;

    open spec fn view(&self) -> Seq<bool> {
        Seq::new(NUM_PIXELS as nat, |i: int| self.pixels@[i].is_set())
    }
}

impl ChipScreen {
    /// A blank screen.
    pub fn new() -> (r: ChipScreen)
        ensures
            r@ == blank_screen(),
    {
        let r = ChipScreen { pixels: [PixelState::Black; NUM_PIXELS] };
        assert(r@ =~= blank_screen());
        r
    }

    /// Unsets every cell.
    pub fn clear(&mut self)
        ensures
            final(self)@ == blank_screen(),
    {
        *self = ChipScreen::new();
    }

    /// The state of cell `index` (row `index / 64`, column `index % 64`).
    pub fn pixel(&self, index: usize) -> (r: PixelState)
        requires
            index < NUM_PIXELS,
        ensures
            r.is_set() == self@[index as int],
    {
        self.pixels[index]
    }

    /// The screen as 16-bit colours, row by row, for a video sink.
    pub fn to_pixels(&self) -> (r: Vec<u16>)
        ensures
            r@ == screen_pixels(self@),
    {
        let mut r: Vec<u16> = Vec::with_capacity(NUM_PIXELS);
        let mut i: usize = 0;
        while i < NUM_PIXELS
            invariant
                i <= NUM_PIXELS,
                r@.len() == i,
                forall|j: int| 0 <= j < i ==> r@[j] == pixel_value(#[trigger] self@[j]),
            decreases NUM_PIXELS - i,
        {
            r.push(self.pixels[i].to_u16());
            i = i + 1;
        }
        assert(r@ =~= screen_pixels(self@));
        r
    }

    /// Draws a sprite into the screen buffer with its upper left pixel at (`x_pos` mod width,
    /// `y_pos` mod height), XOR-ing each sprite bit into the cell under it.
    ///
    /// Each byte of `sprite_data` is one 8-pixel-wide row, most significant bit first, up to
    /// 15 rows. Rows and columns that fall past the bottom or right edge are not drawn.
    ///
    /// Returns true iff some cell went from set to unset.
    pub fn render_sprite(&mut self, sprite_data: &[u8], x_pos: u8, y_pos: u8) -> (collided: bool)
        requires
            sprite_data@.len() <= MAX_SPRITE_ROWS,
        ensures
            final(self)@ == blit(old(self)@, sprite_data@, x_pos, y_pos),
            collided == blit_collides(old(self)@, sprite_data@, x_pos, y_pos),
    {
        let n_bytes = sprite_data.len();
        let x0 = (x_pos as usize) % SCREEN_WIDTH;
        let y0 = (y_pos as usize) % SCREEN_HEIGHT;
        let cols_used: usize = if SCREEN_WIDTH - x0 < 8 {
            SCREEN_WIDTH - x0
        } else {
            8
        };
        let rows_used: usize = if SCREEN_HEIGHT - y0 < n_bytes {
            SCREEN_HEIGHT - y0
        } else {
            n_bytes
        };
        let ghost screen0 = self@;
        let ghost sprite = sprite_data@;
        let mut flag = false;
        let mut row: usize = 0;
        while row < rows_used
            invariant
                row <= rows_used,
                rows_used <= n_bytes,
                rows_used == SCREEN_HEIGHT - y0 || rows_used == n_bytes,
                y0 + rows_used <= SCREEN_HEIGHT,
                x0 + cols_used <= SCREEN_WIDTH,
                cols_used == SCREEN_WIDTH - x0 || cols_used == 8,
                cols_used <= 8,
                n_bytes == sprite.len(),
                sprite == sprite_data@,
                screen0.len() == NUM_PIXELS,
                x0 == x_pos as int % SCREEN_WIDTH as int,
                y0 == y_pos as int % SCREEN_HEIGHT as int,
                self@ == partial_blit(screen0, sprite, x0 as int, y0 as int, row as int, 0),
                flag == partial_collides(screen0, sprite, x0 as int, y0 as int, row as int, 0),
            decreases rows_used - row,
        {
            let bits = sprite_data[row];
            let mut col: usize = 0;
            while col < cols_used
                invariant
                    row < rows_used,
                    col <= cols_used,
                    rows_used <= n_bytes,
                    y0 + rows_used <= SCREEN_HEIGHT,
                    x0 + cols_used <= SCREEN_WIDTH,
                    cols_used == SCREEN_WIDTH - x0 || cols_used == 8,
                    cols_used <= 8,
                    n_bytes == sprite.len(),
                    sprite == sprite_data@,
                    bits == sprite[row as int],
                    screen0.len() == NUM_PIXELS,
                    self@ == partial_blit(
                        screen0,
                        sprite,
                        x0 as int,
                        y0 as int,
                        row as int,
                        col as int,
                    ),
                    flag == partial_collides(
                        screen0,
                        sprite,
                        x0 as int,
                        y0 as int,
                        row as int,
                        col as int,
                    ),
                decreases cols_used - col,
            {
                let index = (y0 + row) * SCREEN_WIDTH + x0 + col;
                let bit = (bits >> ((7 - col) as u8)) & 1u8 == 1u8;
                proof {
                    lemma_cell_at((y0 + row) as int, (x0 + col) as int);
                }
                let ghost before = self@;
                let ghost before_pixels = self.pixels@;
                let mut cell = self.pixels[index];
                let did_unset = cell.xor_mut_and_did_unset(PixelState::from_bool(bit));
                self.pixels[index] = cell;
                proof {
                    assert(self.pixels@ == before_pixels.update(index as int, cell));
                    assert(sprite_covers(sprite, x0 as int, y0 as int, index as int) == bit);
                    assert(before[index as int] == screen0[index as int]);
                    assert forall|i: int| 0 <= i < NUM_PIXELS implies (drawn_before(
                        x0 as int,
                        y0 as int,
                        row as int,
                        col + 1,
                        i,
                    ) == (drawn_before(x0 as int, y0 as int, row as int, col as int, i) || i
                        == index)) by {
                        lemma_cell_index(i);
                    }
                    let ghost next = partial_blit(
                        screen0,
                        sprite,
                        x0 as int,
                        y0 as int,
                        row as int,
                        col + 1,
                    );
                    assert forall|i: int| 0 <= i < NUM_PIXELS implies #[trigger] self@[i]
                        == next[i] by {
                        if i != index {
                            assert(self.pixels@[i] == before_pixels[i]);
                            assert(before[i] == self@[i]);
                        }
                    }
                    assert(self@ =~= next);
                    if did_unset {
                        assert(screen0[index as int]);
                    }
                    if partial_collides(screen0, sprite, x0 as int, y0 as int, row as int, col + 1)
                        && !flag {
                        let i = choose|i: int|
                            0 <= i < NUM_PIXELS && #[trigger] screen0[i] && drawn_before(
                                x0 as int,
                                y0 as int,
                                row as int,
                                col + 1,
                                i,
                            ) && sprite_covers(sprite, x0 as int, y0 as int, i);
                        assert(i == index);
                    }
                }
                flag = flag || did_unset;
                col = col + 1;
            }
            proof {
                assert forall|i: int| 0 <= i < NUM_PIXELS && sprite_covers(
                    sprite,
                    x0 as int,
                    y0 as int,
                    i,
                ) implies (drawn_before(x0 as int, y0 as int, row as int, cols_used as int, i)
                    == drawn_before(x0 as int, y0 as int, row + 1, 0, i)) by {
                    lemma_cell_index(i);
                }
                assert(self@ =~= partial_blit(screen0, sprite, x0 as int, y0 as int, row + 1, 0));
                assert(flag == partial_collides(screen0, sprite, x0 as int, y0 as int, row + 1, 0));
            }
            row = row + 1;
        }
        proof {
            assert forall|i: int| 0 <= i < NUM_PIXELS && sprite_covers(
                sprite,
                x0 as int,
                y0 as int,
                i,
            ) implies drawn_before(x0 as int, y0 as int, rows_used as int, 0, i) by {
                lemma_cell_index(i);
            }
            assert(self@ =~= blit(screen0, sprite, x_pos, y_pos));
            assert(flag == blit_collides(screen0, sprite, x_pos, y_pos));
        }
        flag
    }
}

/// The cell under row `r`, column `c` of a sprite drawn at (`x` mod width, `y` mod height).
pub open spec fn sprite_cell(x: u8, y: u8, r: int, c: int) -> int {
    (y as int % SCREEN_HEIGHT as int + r) * SCREEN_WIDTH + x as int % SCREEN_WIDTH as int + c
}

/// Drawing the same sprite twice at the same position restores any screen: XOR is its own
/// inverse.
pub proof fn lemma_blit_self_inverse(screen: Seq<bool>, sprite: Seq<u8>, x: u8, y: u8)
    requires
        screen.len() == NUM_PIXELS,
    ensures
        blit(blit(screen, sprite, x, y), sprite, x, y) == screen,
{
    assert(blit(blit(screen, sprite, x, y), sprite, x, y) =~= screen);
}

/// On a blank screen, a drawn sprite reads back as exactly its bit pattern at the wrapped
/// position; drawing it again there leaves the screen blank, and reports a collision when the
/// sprite has a set bit on screen.
pub proof fn lemma_blit_on_blank(sprite: Seq<u8>, x: u8, y: u8)
    ensures
        blit(blank_screen(), sprite, x, y) == Seq::new(
            NUM_PIXELS as nat,
            |i: int|
                sprite_covers(
                    sprite,
                    x as int % SCREEN_WIDTH as int,
                    y as int % SCREEN_HEIGHT as int,
                    i,
                ),
        ),
        !blit_collides(blank_screen(), sprite, x, y),
        blit(blit(blank_screen(), sprite, x, y), sprite, x, y) == blank_screen(),
        blit_collides(blit(blank_screen(), sprite, x, y), sprite, x, y) <==> exists|i: int|
            0 <= i < NUM_PIXELS && #[trigger] sprite_covers(
                sprite,
                x as int % SCREEN_WIDTH as int,
                y as int % SCREEN_HEIGHT as int,
                i,
            ),
{
    let drawn = blit(blank_screen(), sprite, x, y);
    assert(drawn =~= Seq::new(
        NUM_PIXELS as nat,
        |i: int|
            sprite_covers(sprite, x as int % SCREEN_WIDTH as int, y as int % SCREEN_HEIGHT as int, i),
    ));
    lemma_blit_self_inverse(blank_screen(), sprite, x, y);
    let x0 = x as int % SCREEN_WIDTH as int;
    let y0 = y as int % SCREEN_HEIGHT as int;
    if exists|i: int| 0 <= i < NUM_PIXELS && #[trigger] sprite_covers(sprite, x0, y0, i) {
        let i = choose|i: int| 0 <= i < NUM_PIXELS && #[trigger] sprite_covers(sprite, x0, y0, i);
        assert(drawn[i]);
    }
}

/// A sprite that runs past the right or bottom edge is clipped, not wrapped: only cells of
/// the sprite's rectangle at the wrapped top-left corner can change, and each cell of that
/// rectangle that lies on screen is toggled exactly where the sprite has a set bit.
pub proof fn lemma_blit_clips(screen: Seq<bool>, sprite: Seq<u8>, x: u8, y: u8)
    requires
        screen.len() == NUM_PIXELS,
    ensures
        blit(screen, sprite, x, y).len() == NUM_PIXELS,
        forall|i: int|
            0 <= i < NUM_PIXELS && #[trigger] blit(screen, sprite, x, y)[i] != screen[i] ==> {
                let x0 = x as int % SCREEN_WIDTH as int;
                let y0 = y as int % SCREEN_HEIGHT as int;
                &&& x0 <= cell_col(i) < x0 + 8
                &&& y0 <= cell_row(i) < y0 + sprite.len()
            },
        forall|r: int, c: int|
            0 <= r < sprite.len() && 0 <= c < 8 && y as int % SCREEN_HEIGHT as int + r
                < SCREEN_HEIGHT && x as int % SCREEN_WIDTH as int + c < SCREEN_WIDTH ==> blit(
                screen,
                sprite,
                x,
                y,
            )[#[trigger] sprite_cell(x, y, r, c)] == (screen[sprite_cell(x, y, r, c)]
                != sprite_bit(sprite[r], c)),
{
    let x0 = x as int % SCREEN_WIDTH as int;
    let y0 = y as int % SCREEN_HEIGHT as int;
    assert forall|r: int, c: int|
        0 <= r < sprite.len() && 0 <= c < 8 && y0 + r < SCREEN_HEIGHT && x0 + c
            < SCREEN_WIDTH implies blit(screen, sprite, x, y)[#[trigger] sprite_cell(x, y, r, c)]
        == (screen[sprite_cell(x, y, r, c)] != sprite_bit(sprite[r], c)) by {
        lemma_cell_at(y0 + r, x0 + c);
    }
}

} // verus!
