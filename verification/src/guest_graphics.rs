//! The display: a 64 by 32 grid of one-bit pixels, held twice.
//!
//! Drawing goes to the back buffer; `debuff` hands the back buffer to the
//! front, which is what a presenter reads. Pixel `(x, y)` lives in cell
//! `32 * x + y`, and coordinates outside the grid wrap around it, so no
//! coordinate ever falls outside the buffers.

use vstd::prelude::*;

verus! {

/// Pixels in a row of the display.
pub const WIDTH: usize = 64;

/// Rows of the display.
pub const HEIGHT: usize = 32;

/// The cell of pixel `(x, y)`, after wrapping both coordinates into the grid.
pub open spec fn cell_index(x: int, y: int) -> int {
    32 * (x % 64) + y % 32
}

/// The weight that pixel `col` of a sprite row has in the byte of the row;
/// pixel 0 is the leftmost and weighs most.
pub open spec fn pixel_weight(col: int) -> int {
    if col == 0 {
        128
    } else if col == 1 {
        64
    } else if col == 2 {
        32
    } else if col == 3 {
        16
    } else if col == 4 {
        8
    } else if col == 5 {
        4
    } else if col == 6 {
        2
    } else {
        1
    }
}

/// Whether pixel `col` of a sprite row is set.
pub open spec fn row_bit(row: u8, col: int) -> bool {
    0 <= col < 8 && (row as int / pixel_weight(col)) % 2 == 1
}

/// The mask `128 >> col` picks pixel `col` out of a row.
pub proof fn lemma_row_bit_mask(row: u8, col: u8)
    requires
        col < 8,
    ensures
        (row & (128u8 >> col) != 0) == row_bit(row, col as int),
{
    if col == 0 {
        assert((row & (128u8 >> 0u8) != 0) == ((row / 128) % 2 == 1)) by (bit_vector);
    } else if col == 1 {
        assert((row & (128u8 >> 1u8) != 0) == ((row / 64) % 2 == 1)) by (bit_vector);
    } else if col == 2 {
        assert((row & (128u8 >> 2u8) != 0) == ((row / 32) % 2 == 1)) by (bit_vector);
    } else if col == 3 {
        assert((row & (128u8 >> 3u8) != 0) == ((row / 16) % 2 == 1)) by (bit_vector);
    } else if col == 4 {
        assert((row & (128u8 >> 4u8) != 0) == ((row / 8) % 2 == 1)) by (bit_vector);
    } else if col == 5 {
        assert((row & (128u8 >> 5u8) != 0) == ((row / 4) % 2 == 1)) by (bit_vector);
    } else if col == 6 {
        assert((row & (128u8 >> 6u8) != 0) == ((row / 2) % 2 == 1)) by (bit_vector);
    } else {
        assert((row & (128u8 >> 7u8) != 0) == ((row / 1) % 2 == 1)) by (bit_vector);
    }
}

/// The sprite pixel that lands on display pixel `(x, y)` when the sprite
/// with the rows `rows` is drawn with its top left corner at `(ox, oy)`:
/// `false` where the sprite does not reach. Each sprite pixel wraps around
/// the grid by itself.
pub open spec fn sprite_bit_at(rows: Seq<u8>, ox: int, oy: int, x: int, y: int) -> bool {
    let col = (x - ox) % 64;
    let row = (y - oy) % 32;
    row < rows.len() && row_bit(rows[row], col)
}

/// The back buffer after the sprite was drawn onto `back`: every pixel that
/// a set sprite pixel lands on is flipped, the others stay.
pub open spec fn drawn(back: Seq<bool>, rows: Seq<u8>, ox: int, oy: int) -> Seq<bool> {
    Seq::new(2048, |k: int| back[k] != sprite_bit_at(rows, ox, oy, k / 32, k % 32))
}

/// Drawing the sprite onto `back` turns a pixel off that was on.
pub open spec fn collides(back: Seq<bool>, rows: Seq<u8>, ox: int, oy: int) -> bool {
    exists|x: int, y: int|
        0 <= x < 64 && 0 <= y < 32 && back[cell_index(x, y)] && #[trigger] sprite_bit_at(
            rows,
            ox,
            oy,
            x,
            y,
        )
}

/// Drawing the sprite writes at least one pixel.
pub open spec fn touches(rows: Seq<u8>, ox: int, oy: int) -> bool {
    exists|x: int, y: int|
        0 <= x < 64 && 0 <= y < 32 && #[trigger] sprite_bit_at(rows, ox, oy, x, y)
}

/// A sprite: up to fifteen rows of eight pixels, one byte a row.
#[derive(Copy, Clone)]
pub struct Sprite {
    pub sprite_data: [u8; 15],
    pub height: u8,
}

impl View for Sprite {
    type V = Seq<u8>;

    /// The rows that are drawn: the first `height` bytes, fifteen at most.
    open spec fn view(&self) -> Seq<u8> {
        self.sprite_data@.subrange(0, if self.height <= 15 { self.height as int } else { 15 })
    }
}

impl Sprite {
    /// The sprite with the data `sprite_data`, of which the first `height`
    /// rows are drawn, fifteen at most.
    pub fn new(sprite_data: [u8; 15], height: u8) -> (sprite: Self)
        ensures
            sprite.sprite_data == sprite_data,
            sprite.height == height,
    {
        Self { sprite_data, height }
    }

    /// The sprite whose rows are `bytes`. Bytes after the fifteenth are
    /// left out of the data; `height` is the number of bytes given.
    pub fn new_from_bytes(bytes: &[u8]) -> (sprite: Sprite)
        requires
            bytes@.len() <= 255,
        ensures
            sprite.height == bytes@.len(),
            sprite.sprite_data@ == Seq::new(
                15,
                |k: int| if k < bytes@.len() { bytes@[k] } else { 0u8 },
            ),
            bytes@.len() <= 15 ==> sprite@ == bytes@,
    {
        let height: usize = bytes.len();
        let mut sprite_data: [u8; 15] = [0u8; 15];
        let mut k: usize = 0;
        while k < 15 && k < height
            invariant
                k <= 15,
                k <= height,
                height == bytes@.len(),
                forall|j: int| 0 <= j < k ==> sprite_data@[j] == bytes@[j],
                forall|j: int| k <= j < 15 ==> sprite_data@[j] == 0,
            decreases 15 - k,
        {
            sprite_data[k] = bytes[k];
            k += 1;
        }
        let sprite = Self { sprite_data, height: height as u8 };
        assert(sprite.sprite_data@ =~= Seq::new(
            15,
            |k: int| if k < bytes@.len() { bytes@[k] } else { 0u8 },
        ));
        assert(bytes@.len() <= 15 ==> sprite@ =~= bytes@);
        sprite
    }
}

/// What a display is to the specifications: both buffers, cell by cell,
/// and whether the back buffer was written since it was last handed over.
pub ghost struct DisplayView {
    pub front: Seq<bool>,
    pub back: Seq<bool>,
    pub dirty: bool,
}

impl DisplayView {
    /// Both buffers have a cell for each pixel, and a display that is not
    /// dirty shows what was drawn.
    pub open spec fn wf(self) -> bool {
        &&& self.front.len() == 2048
        &&& self.back.len() == 2048
        &&& !self.dirty ==> self.front == self.back
    }
}

/// `sprite_bit_at`, counting only the sprite pixels that come before pixel
/// `c` of row `r` when the sprite is read row by row, left to right.
#[verifier::opaque]
spec fn bit_before(rows: Seq<u8>, ox: int, oy: int, x: int, y: int, r: int, c: int) -> bool {
    let col = (x - ox) % 64;
    let row = (y - oy) % 32;
    sprite_bit_at(rows, ox, oy, x, y) && (row < r || (row == r && col < c))
}

/// `collides`, counting only the sprite pixels before pixel `c` of row `r`.
#[verifier::opaque]
spec fn collides_before(back: Seq<bool>, rows: Seq<u8>, ox: int, oy: int, r: int, c: int) -> bool {
    exists|x: int, y: int|
        0 <= x < 64 && 0 <= y < 32 && back[cell_index(x, y)] && #[trigger] bit_before(
            rows,
            ox,
            oy,
            x,
            y,
            r,
            c,
        )
}

/// `touches`, counting only the sprite pixels before pixel `c` of row `r`.
#[verifier::opaque]
spec fn touches_before(rows: Seq<u8>, ox: int, oy: int, r: int, c: int) -> bool {
    exists|x: int, y: int|
        0 <= x < 64 && 0 <= y < 32 && #[trigger] bit_before(rows, ox, oy, x, y, r, c)
}

/// Before the first sprite pixel nothing was drawn.
proof fn lemma_draw_start(back: Seq<bool>, rows: Seq<u8>, ox: int, oy: int)
    ensures
        forall|x: int, y: int| !#[trigger] bit_before(rows, ox, oy, x, y, 0, 0),
        !collides_before(back, rows, ox, oy, 0, 0),
        !touches_before(rows, ox, oy, 0, 0),
{
    reveal(bit_before);
    reveal(collides_before);
    reveal(touches_before);
}

/// What drawing pixel `c` of row `r` adds: that one sprite pixel, on the
/// display pixel that it wraps to, and on no other.
proof fn lemma_draw_pixel(back: Seq<bool>, rows: Seq<u8>, ox: int, oy: int, r: int, c: int)
    requires
        0 <= r < rows.len() <= 32,
        0 <= c < 8,
    ensures
        ({
            let px = (ox + c) % 64;
            let py = (oy + r) % 32;
            let bit = row_bit(rows[r], c);
            &&& !bit_before(rows, ox, oy, px, py, r, c)
            &&& forall|x: int, y: int|
                0 <= x < 64 && 0 <= y < 32 ==> (#[trigger] bit_before(rows, ox, oy, x, y, r, c + 1)
                    <==> bit_before(rows, ox, oy, x, y, r, c) || (bit && x == px && y == py))
            &&& collides_before(back, rows, ox, oy, r, c + 1) <==> collides_before(
                back,
                rows,
                ox,
                oy,
                r,
                c,
            ) || (bit && back[cell_index(px, py)])
            &&& touches_before(rows, ox, oy, r, c + 1) <==> touches_before(rows, ox, oy, r, c)
                || bit
        }),
{
    reveal(bit_before);
    reveal(collides_before);
    reveal(touches_before);
    let px = (ox + c) % 64;
    let py = (oy + r) % 32;
    let bit = row_bit(rows[r], c);
    assert((px - ox) % 64 == c);
    assert((py - oy) % 32 == r);
    assert forall|x: int, y: int| 0 <= x < 64 && 0 <= y < 32 implies (#[trigger] bit_before(
        rows,
        ox,
        oy,
        x,
        y,
        r,
        c + 1,
    ) <==> bit_before(rows, ox, oy, x, y, r, c) || (bit && x == px && y == py)) by {
        if (x - ox) % 64 == c && (y - oy) % 32 == r {
            assert(x == px);
            assert(y == py);
        }
    }
    if collides_before(back, rows, ox, oy, r, c) {
        let (x, y) = choose|x: int, y: int|
            0 <= x < 64 && 0 <= y < 32 && back[cell_index(x, y)] && #[trigger] bit_before(
                rows,
                ox,
                oy,
                x,
                y,
                r,
                c,
            );
        assert(bit_before(rows, ox, oy, x, y, r, c + 1));
    }
    if touches_before(rows, ox, oy, r, c) {
        let (x, y) = choose|x: int, y: int|
            0 <= x < 64 && 0 <= y < 32 && #[trigger] bit_before(rows, ox, oy, x, y, r, c);
        assert(bit_before(rows, ox, oy, x, y, r, c + 1));
    }
    if bit {
        assert(bit_before(rows, ox, oy, px, py, r, c + 1));
    }
}

/// After the last pixel of a row comes the first of the next.
proof fn lemma_draw_row_end(back: Seq<bool>, rows: Seq<u8>, ox: int, oy: int, r: int)
    ensures
        forall|x: int, y: int|
            #![trigger bit_before(rows, ox, oy, x, y, r, 8)]
            #![trigger bit_before(rows, ox, oy, x, y, r + 1, 0)]
            bit_before(rows, ox, oy, x, y, r, 8) <==> bit_before(rows, ox, oy, x, y, r + 1, 0),
        collides_before(back, rows, ox, oy, r, 8) <==> collides_before(
            back,
            rows,
            ox,
            oy,
            r + 1,
            0,
        ),
        touches_before(rows, ox, oy, r, 8) <==> touches_before(rows, ox, oy, r + 1, 0),
{
    reveal(bit_before);
    reveal(collides_before);
    reveal(touches_before);
    if collides_before(back, rows, ox, oy, r, 8) {
        let (x, y) = choose|x: int, y: int|
            0 <= x < 64 && 0 <= y < 32 && back[cell_index(x, y)] && #[trigger] bit_before(
                rows,
                ox,
                oy,
                x,
                y,
                r,
                8,
            );
        assert(bit_before(rows, ox, oy, x, y, r + 1, 0));
    }
    if collides_before(back, rows, ox, oy, r + 1, 0) {
        let (x, y) = choose|x: int, y: int|
            0 <= x < 64 && 0 <= y < 32 && back[cell_index(x, y)] && #[trigger] bit_before(
                rows,
                ox,
                oy,
                x,
                y,
                r + 1,
                0,
            );
        assert(bit_before(rows, ox, oy, x, y, r, 8));
    }
    if touches_before(rows, ox, oy, r, 8) {
        let (x, y) = choose|x: int, y: int|
            0 <= x < 64 && 0 <= y < 32 && #[trigger] bit_before(rows, ox, oy, x, y, r, 8);
        assert(bit_before(rows, ox, oy, x, y, r + 1, 0));
    }
    if touches_before(rows, ox, oy, r + 1, 0) {
        let (x, y) = choose|x: int, y: int|
            0 <= x < 64 && 0 <= y < 32 && #[trigger] bit_before(rows, ox, oy, x, y, r + 1, 0);
        assert(bit_before(rows, ox, oy, x, y, r, 8));
    }
}

/// After the last row the whole sprite was drawn.
proof fn lemma_draw_done(back: Seq<bool>, rows: Seq<u8>, ox: int, oy: int)
    ensures
        forall|x: int, y: int|
            #![trigger bit_before(rows, ox, oy, x, y, rows.len() as int, 0)]
            #![trigger sprite_bit_at(rows, ox, oy, x, y)]
            bit_before(rows, ox, oy, x, y, rows.len() as int, 0) <==> sprite_bit_at(
                rows,
                ox,
                oy,
                x,
                y,
            ),
        collides_before(back, rows, ox, oy, rows.len() as int, 0) <==> collides(
            back,
            rows,
            ox,
            oy,
        ),
        touches_before(rows, ox, oy, rows.len() as int, 0) <==> touches(rows, ox, oy),
{
    reveal(bit_before);
    reveal(collides_before);
    reveal(touches_before);
    let n = rows.len() as int;
    if collides_before(back, rows, ox, oy, n, 0) {
        let (x, y) = choose|x: int, y: int|
            0 <= x < 64 && 0 <= y < 32 && back[cell_index(x, y)] && #[trigger] bit_before(
                rows,
                ox,
                oy,
                x,
                y,
                n,
                0,
            );
        assert(sprite_bit_at(rows, ox, oy, x, y));
    }
    if collides(back, rows, ox, oy) {
        let (x, y) = choose|x: int, y: int|
            0 <= x < 64 && 0 <= y < 32 && back[cell_index(x, y)] && #[trigger] sprite_bit_at(
                rows,
                ox,
                oy,
                x,
                y,
            );
        assert(bit_before(rows, ox, oy, x, y, n, 0));
    }
    if touches_before(rows, ox, oy, n, 0) {
        let (x, y) = choose|x: int, y: int|
            0 <= x < 64 && 0 <= y < 32 && #[trigger] bit_before(rows, ox, oy, x, y, n, 0);
        assert(sprite_bit_at(rows, ox, oy, x, y));
    }
    if touches(rows, ox, oy) {
        let (x, y) = choose|x: int, y: int|
            0 <= x < 64 && 0 <= y < 32 && #[trigger] sprite_bit_at(rows, ox, oy, x, y);
        assert(bit_before(rows, ox, oy, x, y, n, 0));
    }
}

/// The back buffer `now` is `back` with the sprite pixels before pixel `c`
/// of row `r` drawn onto it.
spec fn drawn_before(
    now: Seq<bool>,
    back: Seq<bool>,
    rows: Seq<u8>,
    ox: int,
    oy: int,
    r: int,
    c: int,
) -> bool {
    &&& now.len() == 2048
    &&& forall|k: int|
        0 <= k < 2048 ==> now[k] == (back[k] != #[trigger] bit_before(
            rows,
            ox,
            oy,
            k / 32,
            k % 32,
            r,
            c,
        ))
}

/// Flipping the display pixel that pixel `c` of row `r` lands on takes the
/// back buffer from before that sprite pixel to after it.
proof fn lemma_draw_flip(now: Seq<bool>, back: Seq<bool>, rows: Seq<u8>, ox: int, oy: int, r: int, c: int)
    requires
        0 <= r < rows.len() <= 32,
        0 <= c < 8,
        back.len() == 2048,
        drawn_before(now, back, rows, ox, oy, r, c),
    ensures
        ({
            let cell = cell_index(ox + c, oy + r);
            &&& 0 <= cell < 2048
            &&& now[cell] == back[cell]
            &&& row_bit(rows[r], c) ==> drawn_before(
                now.update(cell, !now[cell]),
                back,
                rows,
                ox,
                oy,
                r,
                c + 1,
            )
            &&& !row_bit(rows[r], c) ==> drawn_before(now, back, rows, ox, oy, r, c + 1)
        }),
{
    lemma_draw_pixel(back, rows, ox, oy, r, c);
    let px = (ox + c) % 64;
    let py = (oy + r) % 32;
    let cell = cell_index(ox + c, oy + r);
    assert(cell == 32 * px + py);
    assert(cell / 32 == px && cell % 32 == py);
    let bit = row_bit(rows[r], c);
    let then = if bit { now.update(cell, !now[cell]) } else { now };
    assert forall|k: int| 0 <= k < 2048 implies then[k] == (back[k] != #[trigger] bit_before(
        rows,
        ox,
        oy,
        k / 32,
        k % 32,
        r,
        c + 1,
    )) by {
        let x = k / 32;
        let y = k % 32;
        assert(bit_before(rows, ox, oy, x, y, r, c + 1) <==> bit_before(rows, ox, oy, x, y, r, c)
            || (bit && x == px && y == py));
        assert(now[k] == (back[k] != bit_before(rows, ox, oy, x, y, r, c)));
        if x == px && y == py {
            assert(k == cell);
        }
    }
}

/// A buffer with every pixel off.
pub open spec fn blank() -> Seq<bool> {
    Seq::new(2048, |k: int| false)
}

/// The display of the machine.
pub struct ChipDisplay {
    data: [u8; 2048],
    buffer: [u8; 2048],
    buffer_tainted: bool,
}

impl View for ChipDisplay {
    type V = DisplayView;

    closed spec fn view(&self) -> DisplayView {
        DisplayView {
            front: Seq::new(2048, |k: int| self.data@[k] != 0),
            back: Seq::new(2048, |k: int| self.buffer@[k] != 0),
            dirty: self.buffer_tainted,
        }
    }
}

impl ChipDisplay {
    /// Every cell holds 0 or 1, and the buffers agree unless marked dirty.
    #[verifier::type_invariant]
    spec fn cells_are_bits(&self) -> bool {
        &&& forall|k: int| 0 <= k < 2048 ==> self.data@[k] <= 1
        &&& forall|k: int| 0 <= k < 2048 ==> self.buffer@[k] <= 1
        &&& !self.buffer_tainted ==> self.data@ == self.buffer@
    }

    /// A display with every pixel off, marked dirty so that it is shown.
    pub fn new() -> (display: Self)
        ensures
            display@ == (DisplayView { front: blank(), back: blank(), dirty: true }),
            display@.wf(),
    {
        let display = Self { data: [0u8; 2048], buffer: [0u8; 2048], buffer_tainted: true };
        assert(display@.front =~= blank());
        assert(display@.back =~= blank());
        display
    }

    /// Turns every pixel of the back buffer off and marks the display dirty.
    pub fn clear(&mut self)
        ensures
            final(self)@ == (DisplayView { front: old(self)@.front, back: blank(), dirty: true }),
            final(self)@.wf(),
    {
        proof {
            use_type_invariant(&*self);
        }
        self.buffer_tainted = true;
        self.buffer = [0u8; 2048];
        assert(self@.back =~= blank());
    }

    /// Hands the back buffer to the front and marks the display clean.
    /// Returns whether the display was dirty, that is whether there is
    /// anything new to show.
    pub fn debuff(&mut self) -> (redraw: bool)
        ensures
            redraw == old(self)@.dirty,
            final(self)@ == (DisplayView {
                front: old(self)@.back,
                back: old(self)@.back,
                dirty: false,
            }),
            final(self)@.wf(),
    {
        proof {
            use_type_invariant(&*self);
        }
        let redraw: bool = self.buffer_tainted;
        self.data = self.buffer;
        self.buffer_tainted = false;
        redraw
    }

    /// Whether the back buffer was written since it was last handed over.
    pub fn is_tainted(&self) -> (dirty: bool)
        ensures
            dirty == self@.dirty,
            self@.wf(),
    {
        proof {
            use_type_invariant(self);
        }
        self.buffer_tainted
    }

    /// The cell of pixel `(x, y)`; coordinates outside the grid wrap.
    pub fn get_buffer_position_from_x_and_y(x: u8, y: u8) -> (position: usize)
        ensures
            position == cell_index(x as int, y as int),
            position < 2048,
    {
        (HEIGHT * (x as usize % WIDTH)) + (y as usize % HEIGHT)
    }

    /// The pixel of the front buffer at `(x, y)`, as 0 or 1. Coordinates
    /// wrap, so there is a pixel at every coordinate.
    pub fn get_pixel(&self, x: u8, y: u8) -> (pixel: Option<u8>)
        ensures
            pixel == Some(if self@.front[cell_index(x as int, y as int)] { 1u8 } else { 0u8 }),
    {
        proof {
            use_type_invariant(self);
        }
        Some(self.data[ChipDisplay::get_buffer_position_from_x_and_y(x, y)])
    }

    /// The front buffer as it stands, cell by cell, each cell 0 or 1; the
    /// cell of pixel `(x, y)` is cell `32 * x + y`.
    pub fn front_buffer(&self) -> (cells: [u8; 2048])
        ensures
            forall|k: int|
                0 <= k < 2048 ==> cells[k] == (if self@.front[k] {
                    1u8
                } else {
                    0u8
                }),
            self@.wf(),
    {
        proof {
            use_type_invariant(self);
        }
        self.data
    }

    /// The pixel of the back buffer at `(x, y)`, as 0 or 1.
    pub fn get_buffer_pixel(&self, x: u8, y: u8) -> (pixel: Option<u8>)
        ensures
            pixel == Some(if self@.back[cell_index(x as int, y as int)] { 1u8 } else { 0u8 }),
    {
        proof {
            use_type_invariant(self);
        }
        Some(self.buffer[ChipDisplay::get_buffer_position_from_x_and_y(x, y)])
    }

    /// Sets the pixel of the back buffer at `(x, y)` and marks the display
    /// dirty, whether or not the pixel changed.
    pub fn set_pixel(&mut self, x: u8, y: u8, state: bool)
        ensures
            final(self)@ == (DisplayView {
                front: old(self)@.front,
                back: old(self)@.back.update(cell_index(x as int, y as int), state),
                dirty: true,
            }),
            final(self)@.wf(),
    {
        proof {
            use_type_invariant(&*self);
        }
        let position: usize = ChipDisplay::get_buffer_position_from_x_and_y(x, y);
        self.buffer_tainted = true;
        self.buffer[position] = if state { 1 } else { 0 };
        assert(self@.back =~= old(self)@.back.update(cell_index(x as int, y as int), state));
    }
    /// Draws `sprite` onto the back buffer with its top left corner at
    /// `(x, y)`: every set sprite pixel flips the display pixel it lands
    /// on, each pixel wrapping around the grid by itself. Returns whether
    /// a pixel that was on went off. The display is marked dirty if any
    /// pixel was written.
    pub fn draw_sprite(&mut self, x: u8, y: u8, sprite: Sprite) -> (collided: bool)
        ensures
            final(self)@.front == old(self)@.front,
            final(self)@.back == drawn(old(self)@.back, sprite@, x as int, y as int),
            final(self)@.dirty == (old(self)@.dirty || touches(sprite@, x as int, y as int)),
            collided == collides(old(self)@.back, sprite@, x as int, y as int),
            final(self)@.wf(),
    {
        let ghost rows = sprite@;
        let ghost ox = x as int;
        let ghost oy = y as int;
        let ghost back = self@.back;
        proof {
            use_type_invariant(&*self);
            if !self@.dirty {
                assert(self@.front =~= self@.back);
            }
        }
        let mut xor_cleared_data_marker: bool = false;
        let x: u8 = x % 64;
        let y: u8 = y % 32;
        let mut sprite_y: usize = 0;
        proof {
            lemma_draw_start(back, rows, ox, oy);
            assert(drawn_before(back, back, rows, ox, oy, 0, 0));
        }
        while sprite_y < 15 && sprite_y < sprite.height as usize
            invariant
                sprite_y <= rows.len() <= 15,
                rows == sprite@,
                rows.len() == (if sprite.height <= 15 { sprite.height as int } else { 15 }),
                x == ox % 64,
                y == oy % 32,
                back.len() == 2048,
                self@.wf(),
                self@.front == old(self)@.front,
                self@.dirty == (old(self)@.dirty || touches_before(rows, ox, oy, sprite_y as int, 0)),
                xor_cleared_data_marker == collides_before(back, rows, ox, oy, sprite_y as int, 0),
                drawn_before(self@.back, back, rows, ox, oy, sprite_y as int, 0),
            decreases 15 - sprite_y,
        {
            let sprite_byte: u8 = sprite.sprite_data[sprite_y];
            let mut sprite_x: u8 = 0;
            while sprite_x < 8
                invariant
                    sprite_x <= 8,
                    sprite_y < rows.len() <= 15,
                    sprite_byte == rows[sprite_y as int],
                    x == ox % 64,
                    y == oy % 32,
                    back.len() == 2048,
                    self@.wf(),
                    self@.front == old(self)@.front,
                    self@.dirty == (old(self)@.dirty || touches_before(
                        rows,
                        ox,
                        oy,
                        sprite_y as int,
                        sprite_x as int,
                    )),
                    xor_cleared_data_marker == collides_before(
                        back,
                        rows,
                        ox,
                        oy,
                        sprite_y as int,
                        sprite_x as int,
                    ),
                    drawn_before(
                        self@.back,
                        back,
                        rows,
                        ox,
                        oy,
                        sprite_y as int,
                        sprite_x as int,
                    ),
                decreases 8 - sprite_x,
            {
                let sprite_bit: bool = sprite_byte & (128u8 >> sprite_x) != 0;
                proof {
                    lemma_row_bit_mask(sprite_byte, sprite_x);
                    lemma_draw_pixel(back, rows, ox, oy, sprite_y as int, sprite_x as int);
                    lemma_draw_flip(self@.back, back, rows, ox, oy, sprite_y as int, sprite_x as int);
                }
                if sprite_bit {
                    let px: u8 = (x + sprite_x) % 64;
                    let py: u8 = (y + sprite_y as u8) % 32;
                    assert(px == (ox + sprite_x) % 64 && py == (oy + sprite_y) % 32);
                    assert(cell_index(px as int, py as int) == cell_index(
                        ox + sprite_x,
                        oy + sprite_y,
                    ));
                    let display_bit: bool = self.get_buffer_pixel(px, py) != Some(0);
                    if display_bit {
                        xor_cleared_data_marker = true;
                        self.set_pixel(px, py, false);
                    } else {
                        self.set_pixel(px, py, true);
                    }
                }
                sprite_x += 1;
            }
            proof {
                lemma_draw_row_end(back, rows, ox, oy, sprite_y as int);
                assert(drawn_before(self@.back, back, rows, ox, oy, sprite_y + 1, 0));
            }
            sprite_y += 1;
        }
        proof {
            lemma_draw_done(back, rows, ox, oy);
            assert(self@.back =~= drawn(back, rows, ox, oy));
        }
        xor_cleared_data_marker
    }
}

impl Default for ChipDisplay {
    fn default() -> (display: Self)
        ensures
            display@ == (DisplayView { front: blank(), back: blank(), dirty: true }),
    {
        Self::new()
    }
}

/// No two pixels of the grid share a cell.
pub proof fn lemma_cell_index_injective(x1: int, y1: int, x2: int, y2: int)
    requires
        0 <= x1 < 64,
        0 <= y1 < 32,
        0 <= x2 < 64,
        0 <= y2 < 32,
        cell_index(x1, y1) == cell_index(x2, y2),
    ensures
        x1 == x2,
        y1 == y2,
{
}

/// Every cell is the cell of a pixel of the grid.
pub proof fn lemma_cell_index_surjective(cell: int)
    requires
        0 <= cell < 2048,
    ensures
        0 <= cell / 32 < 64,
        0 <= cell % 32 < 32,
        cell_index(cell / 32, cell % 32) == cell,
{
}

/// Every pixel has a cell, and a coordinate outside the grid has the cell
/// of the pixel that it wraps to.
pub proof fn lemma_cell_index_wraps(x: int, y: int)
    ensures
        0 <= cell_index(x, y) < 2048,
        cell_index(x, y) == cell_index(x % 64, y % 32),
        cell_index(x + 64, y) == cell_index(x, y),
        cell_index(x, y + 32) == cell_index(x, y),
{
}

/// After a draw, each pixel of the grid is what it was, flipped where a set
/// sprite pixel landed on it.
pub proof fn lemma_drawn_pixel(back: Seq<bool>, rows: Seq<u8>, ox: int, oy: int, x: int, y: int)
    requires
        0 <= x < 64,
        0 <= y < 32,
    ensures
        drawn(back, rows, ox, oy)[cell_index(x, y)] == (back[cell_index(x, y)] != sprite_bit_at(
            rows,
            ox,
            oy,
            x,
            y,
        )),
{
    lemma_cell_index_surjective(cell_index(x, y));
}

/// Pixel `col` of row `row` of a sprite lands on the display pixel that
/// lies `col` to the right of and `row` below the corner, wrapped.
pub proof fn lemma_sprite_pixel_lands(rows: Seq<u8>, ox: int, oy: int, row: int, col: int)
    requires
        0 <= row < rows.len() <= 32,
        0 <= col < 8,
    ensures
        sprite_bit_at(rows, ox, oy, (ox + col) % 64, (oy + row) % 32) == row_bit(rows[row], col),
{
    assert(((ox + col) % 64 - ox) % 64 == col);
    assert(((oy + row) % 32 - oy) % 32 == row);
}

/// Drawing the same sprite at the same place twice gives the back buffer
/// that was there before.
pub proof fn lemma_draw_twice(back: Seq<bool>, rows: Seq<u8>, ox: int, oy: int)
    requires
        back.len() == 2048,
    ensures
        drawn(drawn(back, rows, ox, oy), rows, ox, oy) == back,
{
    assert(drawn(drawn(back, rows, ox, oy), rows, ox, oy) =~= back);
}

/// The five rows of the glyph of the hex digit `digit`.
pub open spec fn glyph(digit: int) -> Seq<u8> {
    if digit == 0 {
        seq![0xF0, 0x90, 0x90, 0x90, 0xF0]
    } else if digit == 1 {
        seq![0x20, 0x60, 0x20, 0x20, 0x70]
    } else if digit == 2 {
        seq![0xF0, 0x10, 0xF0, 0x80, 0xF0]
    } else if digit == 3 {
        seq![0xF0, 0x10, 0xF0, 0x10, 0xF0]
    } else if digit == 4 {
        seq![0x90, 0x90, 0xF0, 0x10, 0x10]
    } else if digit == 5 {
        seq![0xF0, 0x80, 0xF0, 0x10, 0xF0]
    } else if digit == 6 {
        seq![0xF0, 0x80, 0xF0, 0x90, 0xF0]
    } else if digit == 7 {
        seq![0xF0, 0x10, 0x20, 0x40, 0x40]
    } else if digit == 8 {
        seq![0xF0, 0x90, 0xF0, 0x90, 0xF0]
    } else if digit == 9 {
        seq![0xF0, 0x90, 0xF0, 0x10, 0xF0]
    } else if digit == 10 {
        seq![0xF0, 0x90, 0xF0, 0x90, 0x90]
    } else if digit == 11 {
        seq![0xE0, 0x90, 0xE0, 0x90, 0xE0]
    } else if digit == 12 {
        seq![0xF0, 0x80, 0x80, 0x80, 0xF0]
    } else if digit == 13 {
        seq![0xE0, 0x90, 0x90, 0x90, 0xE0]
    } else if digit == 14 {
        seq![0xF0, 0x80, 0xF0, 0x80, 0xF0]
    } else {
        seq![0xF0, 0x80, 0xF0, 0x80, 0x80]
    }
}

/// The built-in font: the glyphs of the hex digits 0 to F, in that order,
/// each five rows high and four pixels wide, in the high nibble of its rows.
pub fn get_fonts() -> (font: [Sprite; 16])
    ensures
        forall|digit: int|
            0 <= digit < 16 ==> {
                &&& (#[trigger] font[digit]).height == 5
                &&& font[digit]@ == glyph(digit)
                &&& forall|k: int| 5 <= k < 15 ==> font[digit].sprite_data[k] == 0
            },
{
    let font: [Sprite; 16] = [
        Sprite {
            sprite_data: [
                0xF0, 0x90, 0x90, 0x90, 0xF0, 0x0, 0x0, 0x0, 0x0, 0x0, 0x0, 0x0, 0x0, 0x0, 0x0,
            ],
            height: 5,
        },
        Sprite {
            sprite_data: [
                0x20, 0x60, 0x20, 0x20, 0x70, 0x0, 0x0, 0x0, 0x0, 0x0, 0x0, 0x0, 0x0, 0x0, 0x0,
            ],
            height: 5,
        },
        Sprite {
            sprite_data: [
                0xF0, 0x10, 0xF0, 0x80, 0xF0, 0x0, 0x0, 0x0, 0x0, 0x0, 0x0, 0x0, 0x0, 0x0, 0x0,
            ],
            height: 5,
        },
        Sprite {
            sprite_data: [
                0xF0, 0x10, 0xF0, 0x10, 0xF0, 0x0, 0x0, 0x0, 0x0, 0x0, 0x0, 0x0, 0x0, 0x0, 0x0,
            ],
            height: 5,
        },
        Sprite {
            sprite_data: [
                0x90, 0x90, 0xF0, 0x10, 0x10, 0x0, 0x0, 0x0, 0x0, 0x0, 0x0, 0x0, 0x0, 0x0, 0x0,
            ],
            height: 5,
        },
        Sprite {
            sprite_data: [
                0xF0, 0x80, 0xF0, 0x10, 0xF0, 0x0, 0x0, 0x0, 0x0, 0x0, 0x0, 0x0, 0x0, 0x0, 0x0,
            ],
            height: 5,
        },
        Sprite {
            sprite_data: [
                0xF0, 0x80, 0xF0, 0x90, 0xF0, 0x0, 0x0, 0x0, 0x0, 0x0, 0x0, 0x0, 0x0, 0x0, 0x0,
            ],
            height: 5,
        },
        Sprite {
            sprite_data: [
                0xF0, 0x10, 0x20, 0x40, 0x40, 0x0, 0x0, 0x0, 0x0, 0x0, 0x0, 0x0, 0x0, 0x0, 0x0,
            ],
            height: 5,
        },
        Sprite {
            sprite_data: [
                0xF0, 0x90, 0xF0, 0x90, 0xF0, 0x0, 0x0, 0x0, 0x0, 0x0, 0x0, 0x0, 0x0, 0x0, 0x0,
            ],
            height: 5,
        },
        Sprite {
            sprite_data: [
                0xF0, 0x90, 0xF0, 0x10, 0xF0, 0x0, 0x0, 0x0, 0x0, 0x0, 0x0, 0x0, 0x0, 0x0, 0x0,
            ],
            height: 5,
        },
        Sprite {
            sprite_data: [
                0xF0, 0x90, 0xF0, 0x90, 0x90, 0x0, 0x0, 0x0, 0x0, 0x0, 0x0, 0x0, 0x0, 0x0, 0x0,
            ],
            height: 5,
        },
        Sprite {
            sprite_data: [
                0xE0, 0x90, 0xE0, 0x90, 0xE0, 0x0, 0x0, 0x0, 0x0, 0x0, 0x0, 0x0, 0x0, 0x0, 0x0,
            ],
            height: 5,
        },
        Sprite {
            sprite_data: [
                0xF0, 0x80, 0x80, 0x80, 0xF0, 0x0, 0x0, 0x0, 0x0, 0x0, 0x0, 0x0, 0x0, 0x0, 0x0,
            ],
            height: 5,
        },
        Sprite {
            sprite_data: [
                0xE0, 0x90, 0x90, 0x90, 0xE0, 0x0, 0x0, 0x0, 0x0, 0x0, 0x0, 0x0, 0x0, 0x0, 0x0,
            ],
            height: 5,
        },
        Sprite {
            sprite_data: [
                0xF0, 0x80, 0xF0, 0x80, 0xF0, 0x0, 0x0, 0x0, 0x0, 0x0, 0x0, 0x0, 0x0, 0x0, 0x0,
            ],
            height: 5,
        },
        Sprite {
            sprite_data: [
                0xF0, 0x80, 0xF0, 0x80, 0x80, 0x0, 0x0, 0x0, 0x0, 0x0, 0x0, 0x0, 0x0, 0x0, 0x0,
            ],
            height: 5,
        },
    ];
    proof {
        assert(font[0]@ =~= glyph(0));
        assert(font[1]@ =~= glyph(1));
        assert(font[2]@ =~= glyph(2));
        assert(font[3]@ =~= glyph(3));
        assert(font[4]@ =~= glyph(4));
        assert(font[5]@ =~= glyph(5));
        assert(font[6]@ =~= glyph(6));
        assert(font[7]@ =~= glyph(7));
        assert(font[8]@ =~= glyph(8));
        assert(font[9]@ =~= glyph(9));
        assert(font[10]@ =~= glyph(10));
        assert(font[11]@ =~= glyph(11));
        assert(font[12]@ =~= glyph(12));
        assert(font[13]@ =~= glyph(13));
        assert(font[14]@ =~= glyph(14));
        assert(font[15]@ =~= glyph(15));
    }
    font
}

} // verus!
