//! A fixed-size framebuffer of palette colours and its teletext encoding.

use vstd::prelude::*;

verus! {

/// Monitor width in characters, leaving a margin of one on either side.
pub const MON_WIDTH: u32 = 164 - 2;

/// Monitor height in characters, leaving a margin of one on either side.
pub const MON_HEIGHT: u32 = 81 - 2;

/// Framebuffer width in pixels: each character covers two pixel columns.
pub const BUF_WIDTH: u32 = 324;

/// Framebuffer height in pixels: each character covers three pixel rows.
pub const BUF_HEIGHT: u32 = 237;

/// Number of pixels in a framebuffer.
pub const BUF_SIZE: usize = 76788;

/// Bytes in one encoded row of characters: glyphs, then foregrounds, then
/// backgrounds.
pub const ROW_BYTES: usize = 486;

/// Length of an encoded frame.
pub const FRAME_LEN: usize = 38394;

/// A palette index; valid colours are below 16.
pub type Colour = u8;

/// The lowercase hexadecimal digit of a colour.
pub open spec fn hex_digit(c: int) -> u8 {
    if c < 10 {
        (48 + c) as u8
    } else {
        (87 + c) as u8
    }
}

fn to_hex(colour: Colour) -> (r: u8)
    requires
        colour < 16,
    ensures
        r == hex_digit(colour as int),
{
    if colour < 10 {
        48 + colour
    } else {
        87 + colour
    }
}

/// The six pixels covered by one character: field `cXY` holds the pixel in
/// column `X` (0 or 1) and row `Y` (0 to 2) of the character.
#[derive(Clone, Copy, Debug, PartialEq, Eq)]
pub struct Tile {
    pub c00: Colour,
    pub c01: Colour,
    pub c02: Colour,
    pub c10: Colour,
    pub c11: Colour,
    pub c12: Colour,
}

/// All six pixels of the tile are valid palette indices.
pub open spec fn tile_valid(t: Tile) -> bool {
    t.c00 < 16 && t.c01 < 16 && t.c02 < 16 && t.c10 < 16 && t.c11 < 16 && t.c12 < 16
}

/// How many pixels of the tile have colour `c`.
pub open spec fn tile_count(t: Tile, c: int) -> int {
    (if t.c00 == c { 1int } else { 0int }) + (if t.c01 == c { 1int } else { 0int }) + (if t.c02
        == c {
        1int
    } else {
        0int
    }) + (if t.c10 == c { 1int } else { 0int }) + (if t.c11 == c { 1int } else { 0int }) + (
    if t.c12 == c {
        1int
    } else {
        0int
    })
}

/// Every pixel of the tile has the same colour.
pub open spec fn tile_uniform(t: Tile) -> bool {
    t.c01 == t.c00 && t.c02 == t.c00 && t.c10 == t.c00 && t.c11 == t.c00 && t.c12 == t.c00
}

/// The most frequent colour below `n` other than `skip`, the lower index
/// winning a tie; `-1` when there is no candidate.
pub open spec fn ranked(t: Tile, skip: int, n: nat) -> int
    decreases n,
{
    if n == 0 {
        -1
    } else {
        let prev = ranked(t, skip, (n - 1) as nat);
        let i = n - 1;
        if i == skip {
            prev
        } else if prev < 0 || tile_count(t, i) > tile_count(t, prev) {
            i
        } else {
            prev
        }
    }
}

/// The background colour of a tile of two or more colours.
pub open spec fn tile_bg(t: Tile) -> int {
    ranked(t, -1, 16)
}

/// The foreground colour of a tile of two or more colours.
pub open spec fn tile_fg(t: Tile) -> int {
    ranked(t, tile_bg(t), 16)
}

/// The colour that the bottom-right pixel selects as the glyph's base.
pub open spec fn tile_last(t: Tile) -> int {
    if t.c12 as int == tile_fg(t) {
        tile_fg(t)
    } else {
        tile_bg(t)
    }
}

/// `w` when the pixel differs from the base colour, else zero.
pub open spec fn bit_if(c: Colour, last: int, w: int) -> int {
    if c as int != last {
        w
    } else {
        0
    }
}

/// The glyph code of a tile of two or more colours.
pub open spec fn tile_code(t: Tile) -> int {
    let last = tile_last(t);
    128 + bit_if(t.c00, last, 1) + bit_if(t.c10, last, 2) + bit_if(t.c01, last, 4) + bit_if(
        t.c11,
        last,
        8,
    ) + bit_if(t.c02, last, 16)
}

/// The (glyph, foreground, background) triple that encodes a tile.
pub open spec fn tile_glyph(t: Tile) -> (u8, u8, u8) {
    if tile_uniform(t) {
        (32u8, 0u8, t.c00)
    } else if tile_last(t) == tile_bg(t) {
        (tile_code(t) as u8, tile_fg(t) as u8, tile_bg(t) as u8)
    } else {
        (tile_code(t) as u8, tile_bg(t) as u8, tile_fg(t) as u8)
    }
}

/// The colour a terminal shows for the cell of weight `w` of a glyph: the
/// foreground where that bit is set, else the background.
pub open spec fn shown(e: (u8, u8, u8), w: int) -> u8 {
    if w > 0 && (e.0 as int / w) % 2 == 1 {
        e.1
    } else {
        e.2
    }
}

/// The tile a terminal shows for an encoded triple.
pub open spec fn decode_tile(e: (u8, u8, u8)) -> Tile {
    Tile {
        c00: shown(e, 1),
        c10: shown(e, 2),
        c01: shown(e, 4),
        c11: shown(e, 8),
        c02: shown(e, 16),
        c12: shown(e, 0),
    }
}

proof fn lemma_ranked(t: Tile, skip: int, n: nat)
    ensures
        -1 <= ranked(t, skip, n) < n,
        ranked(t, skip, n) >= 0 ==> ranked(t, skip, n) != skip,
        ranked(t, skip, n) < 0 ==> n == 0 || (n == 1 && skip == 0),
        ranked(t, skip, n) >= 0 ==> forall|j: int|
            0 <= j < n && j != skip ==> #[trigger] tile_count(t, j) <= tile_count(t, ranked(t, skip, n)),
    decreases n,
{
    if n > 0 {
        lemma_ranked(t, skip, (n - 1) as nat);
    }
}

fn count_colour(t: &Tile, c: i32) -> (r: u8)
    ensures
        r as int == tile_count(*t, c as int),
{
    let mut r: u8 = 0;
    if t.c00 as i32 == c {
        r = r + 1;
    }
    if t.c01 as i32 == c {
        r = r + 1;
    }
    if t.c02 as i32 == c {
        r = r + 1;
    }
    if t.c10 as i32 == c {
        r = r + 1;
    }
    if t.c11 as i32 == c {
        r = r + 1;
    }
    if t.c12 as i32 == c {
        r = r + 1;
    }
    r
}

fn rank_colour(t: &Tile, skip: i32) -> (r: u8)
    requires
        -1 <= skip < 16,
    ensures
        r as int == ranked(*t, skip as int, 16),
        r < 16,
{
    let mut best: i32 = -1;
    let mut best_count: u8 = 0;
    let mut i: i32 = 0;
    while i < 16
        invariant
            0 <= i <= 16,
            -1 <= skip < 16,
            best as int == ranked(*t, skip as int, i as nat),
            best >= 0 ==> best_count as int == tile_count(*t, best as int),
            -1 <= best < i,
        decreases 16 - i,
    {
        if i != skip {
            let c = count_colour(t, i);
            if best < 0 || c > best_count {
                best = i;
                best_count = c;
            }
        }
        i = i + 1;
    }
    proof {
        lemma_ranked(*t, skip as int, 16);
    }
    best as u8
}

/// Encodes one tile as (glyph, foreground, background).
pub fn encode_tile(t: &Tile) -> (r: (u8, u8, u8))
    requires
        tile_valid(*t),
    ensures
        r == tile_glyph(*t),
{
    if t.c01 == t.c00 && t.c02 == t.c00 && t.c10 == t.c00 && t.c11 == t.c00 && t.c12 == t.c00 {
        return (32u8, 0u8, t.c00);
    }
    let bg = rank_colour(t, -1);
    let fg = rank_colour(t, bg as i32);
    let last = if t.c12 == fg {
        fg
    } else {
        bg
    };
    let mut code: u8 = 128;
    if t.c00 != last {
        code = code + 1;
    }
    if t.c10 != last {
        code = code + 2;
    }
    if t.c01 != last {
        code = code + 4;
    }
    if t.c11 != last {
        code = code + 8;
    }
    if t.c02 != last {
        code = code + 16;
    }
    if last == bg {
        (code, fg, bg)
    } else {
        (code, bg, fg)
    }
}

/// The pixel at column `x` and row `y` of a framebuffer's contents.
pub open spec fn pixel(b: Seq<u8>, x: int, y: int) -> u8 {
    b[x + y * BUF_WIDTH]
}

/// The tile that character (`mx`, `my`) covers.
pub open spec fn tile_at(b: Seq<u8>, mx: int, my: int) -> Tile {
    Tile {
        c00: pixel(b, 2 * mx, 3 * my),
        c01: pixel(b, 2 * mx, 3 * my + 1),
        c02: pixel(b, 2 * mx, 3 * my + 2),
        c10: pixel(b, 2 * mx + 1, 3 * my),
        c11: pixel(b, 2 * mx + 1, 3 * my + 1),
        c12: pixel(b, 2 * mx + 1, 3 * my + 2),
    }
}

/// Byte `i` of the encoded frame: in each character row, the glyphs, then
/// the foreground digits, then the background digits.
pub open spec fn frame_byte(b: Seq<u8>, i: int) -> u8 {
    let my = i / ROW_BYTES as int;
    let r = i % ROW_BYTES as int;
    let band = r / MON_WIDTH as int;
    let mx = r % MON_WIDTH as int;
    let e = tile_glyph(tile_at(b, mx, my));
    if band == 0 {
        e.0
    } else if band == 1 {
        hex_digit(e.1 as int)
    } else {
        hex_digit(e.2 as int)
    }
}

/// The encoded frame of a framebuffer's contents.
pub open spec fn encoded_frame(b: Seq<u8>) -> Seq<u8> {
    Seq::new(FRAME_LEN as nat, |i: int| frame_byte(b, i))
}

/// Every pixel is a valid palette index.
pub open spec fn colours_valid(b: Seq<u8>) -> bool {
    forall|i: int| 0 <= i < b.len() ==> #[trigger] b[i] < 16
}

/// A mutable grid of pixels, each one of the sixteen palette colours,
/// `BUF_WIDTH` wide and `BUF_HEIGHT` high, row by row.
pub struct Buffer {
    colours: Vec<Colour>,
}

impl View for Buffer {
    type V = Seq<Colour>;

    closed spec fn view(&self) -> Seq<Colour> {
        self.colours@
    }
}

impl Buffer {
    /// The buffer holds exactly one colour per pixel.
    pub open spec fn wf(&self) -> bool {
        self@.len() == BUF_SIZE
    }

    /// A buffer of colour 0 throughout.
    pub fn new() -> (r: Buffer)
        ensures
            r.wf(),
            r@ == Seq::new(BUF_SIZE as nat, |i: int| 0u8),
    {
        let r = Buffer { colours: vec![0u8; BUF_SIZE] };
        assert(r@ =~= Seq::new(BUF_SIZE as nat, |i: int| 0u8));
        r
    }

    /// The colour at column `x` and row `y`.
    pub fn get(&self, x: u32, y: u32) -> (r: Colour)
        requires
            self.wf(),
            x < BUF_WIDTH,
            y < BUF_HEIGHT,
        ensures
            r == pixel(self@, x as int, y as int),
    {
        self.colours[(x + y * BUF_WIDTH) as usize]
    }

    /// The pixels, row by row, for writing.
    pub fn as_mut_slice(&mut self) -> (r: &mut [Colour])
        ensures
            r@ == old(self)@,
            final(r)@ == final(self)@,
    {
        self.colours.as_mut_slice()
    }

    fn tile(&self, mx: u32, my: u32) -> (t: Tile)
        requires
            self.wf(),
            colours_valid(self@),
            mx < MON_WIDTH,
            my < MON_HEIGHT,
        ensures
            t == tile_at(self@, mx as int, my as int),
            tile_valid(t),
    {
        let x = mx * 2;
        let y = my * 3;
        Tile {
            c00: self.get(x, y),
            c01: self.get(x, y + 1),
            c02: self.get(x, y + 2),
            c10: self.get(x + 1, y),
            c11: self.get(x + 1, y + 1),
            c12: self.get(x + 1, y + 2),
        }
    }

    /// Encodes the buffer as teletext: for each row of characters, the glyph
    /// codes, then the foreground digits, then the background digits. A tile
    /// of more than two colours keeps only its two most common ones.
    pub fn draw(&self) -> (r: Vec<u8>)
        requires
            self.wf(),
            colours_valid(self@),
        ensures
            r@ == encoded_frame(self@),
            r@.len() == FRAME_LEN,
    {
        let mut out: Vec<u8> = Vec::with_capacity(FRAME_LEN);
        let mut my: u32 = 0;
        while my < MON_HEIGHT
            invariant
                self.wf(),
                colours_valid(self@),
                my <= MON_HEIGHT,
                out@ =~= encoded_frame(self@).take(my * ROW_BYTES),
            decreases MON_HEIGHT - my,
        {
            let mut glyphs: Vec<u8> = Vec::with_capacity(MON_WIDTH as usize);
            let mut fgs: Vec<u8> = Vec::with_capacity(MON_WIDTH as usize);
            let mut bgs: Vec<u8> = Vec::with_capacity(MON_WIDTH as usize);
            let mut mx: u32 = 0;
            while mx < MON_WIDTH
                invariant
                    self.wf(),
                    colours_valid(self@),
                    my < MON_HEIGHT,
                    mx <= MON_WIDTH,
                    glyphs@.len() == mx,
                    fgs@.len() == mx,
                    bgs@.len() == mx,
                    forall|j: int|
                        0 <= j < mx ==> #[trigger] glyphs@[j] == tile_glyph(
                            tile_at(self@, j, my as int),
                        ).0,
                    forall|j: int|
                        0 <= j < mx ==> #[trigger] fgs@[j] == hex_digit(
                            tile_glyph(tile_at(self@, j, my as int)).1 as int,
                        ),
                    forall|j: int|
                        0 <= j < mx ==> #[trigger] bgs@[j] == hex_digit(
                            tile_glyph(tile_at(self@, j, my as int)).2 as int,
                        ),
                decreases MON_WIDTH - mx,
            {
                let t = self.tile(mx, my);
                let e = encode_tile(&t);
                proof {
                    lemma_glyph_range(t);
                }
                glyphs.push(e.0);
                fgs.push(to_hex(e.1));
                bgs.push(to_hex(e.2));
                mx = mx + 1;
            }
            let ghost before = out@;
            out.append(&mut glyphs);
            out.append(&mut fgs);
            out.append(&mut bgs);
            proof {
                let b = self@;
                let base = my * ROW_BYTES;
                assert forall|i: int| base <= i < base + ROW_BYTES implies #[trigger] out@[i]
                    == frame_byte(b, i) by {
                    lemma_row_position(my as int, i - base);
                }
                assert(out@ =~= encoded_frame(self@).take((my + 1) * ROW_BYTES));
            }
            my = my + 1;
        }
        out
    }
}

proof fn lemma_row_position(my: int, r: int)
    requires
        0 <= my,
        0 <= r < ROW_BYTES,
    ensures
        (my * ROW_BYTES + r) / ROW_BYTES as int == my,
        (my * ROW_BYTES + r) % ROW_BYTES as int == r,
{
    vstd::arithmetic::div_mod::lemma_fundamental_div_mod_converse(
        my * ROW_BYTES + r,
        ROW_BYTES as int,
        my,
        r,
    );
}

/// The colours of an encoded tile are palette indices.
pub proof fn lemma_glyph_range(t: Tile)
    requires
        tile_valid(t),
    ensures
        tile_glyph(t).1 < 16,
        tile_glyph(t).2 < 16,
        tile_glyph(t).0 == 32 || 128 <= tile_glyph(t).0 < 160,
{
    lemma_ranked(t, -1, 16);
    lemma_ranked(t, tile_bg(t), 16);
}

/// A glyph byte is a space or a teletext code; a colour byte is a lowercase
/// hexadecimal digit.
pub open spec fn frame_byte_ok(b: u8, band: int) -> bool {
    if band == 0 {
        b == 32 || 128 <= b <= 191
    } else {
        (48 <= b <= 57) || (97 <= b <= 102)
    }
}

proof fn lemma_frame_index(i: int)
    requires
        0 <= i < FRAME_LEN,
    ensures
        0 <= i / ROW_BYTES as int <= MON_HEIGHT - 1,
        0 <= (i % ROW_BYTES as int) % MON_WIDTH as int <= MON_WIDTH - 1,
        0 <= (i % ROW_BYTES as int) / MON_WIDTH as int <= 2,
{
}

/// The encoded frame of any valid framebuffer is `FRAME_LEN` bytes long, its
/// glyph bytes are spaces or codes in 0x80..=0xBF and its colour bytes are
/// hexadecimal digits.
pub proof fn lemma_frame_well_formed(b: Seq<u8>)
    requires
        b.len() == BUF_SIZE,
        colours_valid(b),
    ensures
        encoded_frame(b).len() == FRAME_LEN,
        forall|i: int|
            0 <= i < FRAME_LEN ==> frame_byte_ok(
                #[trigger] encoded_frame(b)[i],
                (i % ROW_BYTES as int) / MON_WIDTH as int,
            ),
{
    assert forall|i: int| 0 <= i < FRAME_LEN implies frame_byte_ok(
        #[trigger] encoded_frame(b)[i],
        (i % ROW_BYTES as int) / MON_WIDTH as int,
    ) by {
        lemma_frame_index(i);
        let mx = (i % ROW_BYTES as int) % MON_WIDTH as int;
        let my = i / ROW_BYTES as int;
        let t = tile_at(b, mx, my);
        assert(tile_valid(t)) by {
            assert(b[2 * mx + 3 * my * BUF_WIDTH] < 16);
            assert(b[2 * mx + (3 * my + 1) * BUF_WIDTH] < 16);
            assert(b[2 * mx + (3 * my + 2) * BUF_WIDTH] < 16);
            assert(b[2 * mx + 1 + 3 * my * BUF_WIDTH] < 16);
            assert(b[2 * mx + 1 + (3 * my + 1) * BUF_WIDTH] < 16);
            assert(b[2 * mx + 1 + (3 * my + 2) * BUF_WIDTH] < 16);
        }
        lemma_glyph_range(t);
    }
}

/// A framebuffer of a single colour `c` encodes to spaces, foreground `0`
/// and background `c` throughout.
pub proof fn lemma_solid_frame(b: Seq<u8>, c: u8)
    requires
        b.len() == BUF_SIZE,
        c < 16,
        forall|i: int| 0 <= i < b.len() ==> #[trigger] b[i] == c,
    ensures
        forall|i: int|
            0 <= i < FRAME_LEN ==> #[trigger] encoded_frame(b)[i] == {
                let band = (i % ROW_BYTES as int) / MON_WIDTH as int;
                if band == 0 {
                    32u8
                } else if band == 1 {
                    hex_digit(0)
                } else {
                    hex_digit(c as int)
                }
            },
{
    assert forall|i: int| 0 <= i < FRAME_LEN implies #[trigger] encoded_frame(b)[i] == {
        let band = (i % ROW_BYTES as int) / MON_WIDTH as int;
        if band == 0 {
            32u8
        } else if band == 1 {
            hex_digit(0)
        } else {
            hex_digit(c as int)
        }
    } by {
        lemma_frame_index(i);
        let mx = (i % ROW_BYTES as int) % MON_WIDTH as int;
        let my = i / ROW_BYTES as int;
        assert(b[2 * mx + 3 * my * BUF_WIDTH] == c);
        assert(b[2 * mx + (3 * my + 1) * BUF_WIDTH] == c);
        assert(b[2 * mx + (3 * my + 2) * BUF_WIDTH] == c);
        assert(b[2 * mx + 1 + 3 * my * BUF_WIDTH] == c);
        assert(b[2 * mx + 1 + (3 * my + 1) * BUF_WIDTH] == c);
        assert(b[2 * mx + 1 + (3 * my + 2) * BUF_WIDTH] == c);
    }
}

/// A tile of exactly two colours `a` and `b` is shown as it is: each cell
/// whose glyph bit is set takes the foreground, the others the background.
pub proof fn lemma_two_colour_tile(t: Tile, a: u8, b: u8)
    requires
        tile_valid(t),
        a != b,
        tile_count(t, a as int) > 0,
        tile_count(t, b as int) > 0,
        tile_count(t, a as int) + tile_count(t, b as int) == 6,
    ensures
        decode_tile(tile_glyph(t)) == t,
{
    lemma_ranked(t, -1, 16);
    lemma_ranked(t, tile_bg(t), 16);
    let bg = tile_bg(t);
    let fg = tile_fg(t);
    assert(tile_count(t, a as int) <= tile_count(t, bg));
    assert(tile_count(t, b as int) <= tile_count(t, bg));
    assert(bg == a || bg == b);
    if bg == a {
        assert(tile_count(t, b as int) <= tile_count(t, fg));
    } else {
        assert(tile_count(t, a as int) <= tile_count(t, fg));
    }
    assert(fg == a || fg == b);
}

} // verus!
