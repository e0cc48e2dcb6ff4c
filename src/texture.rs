//! The block textures: ten 8×8 palette images decoded from bitmaps, and the
//! lookup of a hit's colour.

use crate::buffer::Colour;
use crate::ray::{Hit, Plane};
use crate::world::Block;
use vstd::prelude::*;

verus! {

/// Texture width and height in texels.
pub const TEXTURE_SIZE: usize = 8;

/// Texels in one texture.
pub const TEXTURE_LEN: usize = 64;

/// Number of textures: water, then dirt, grass and stone for X, Y and Z.
pub const TEXTURE_COUNT: usize = 10;

/// The colour shown where no block is hit: the sky.
pub const DEFAULT_COLOUR: Colour = 9;

/// Why a texture could not be loaded.
#[derive(Clone, Copy, Debug, PartialEq, Eq, Structural)]
pub enum TextureError {
    /// The bytes are not a bitmap this decoder reads, or a pixel lies
    /// outside the image.
    Malformed,
    /// The image is not 8×8: its width and height.
    WrongSize(u32, u32),
    /// An RGB value outside the palette.
    UnknownColour(u32),
}

/// The palette index of a 24-bit RGB value, if it has one.
pub open spec fn palette_index(c: u32) -> Option<Colour> {
    if c == 0xf0f0f0 {
        Some(0u8)
    } else if c == 0x73b349 {
        Some(1u8)
    } else if c == 0x5f9f35 {
        Some(2u8)
    } else if c == 0x509026 {
        Some(3u8)
    } else if c == 0x966c4a {
        Some(4u8)
    } else if c == 0x79553a {
        Some(5u8)
    } else if c == 0x593d29 {
        Some(6u8)
    } else if c == 0x3266cc {
        Some(7u8)
    } else if c == 0x4c32cc {
        Some(8u8)
    } else if c == 0x8f8f8f {
        Some(10u8)
    } else if c == 0x747474 {
        Some(11u8)
    } else if c == 0x686868 {
        Some(12u8)
    } else {
        None
    }
}

/// Maps a 24-bit RGB value to its palette index.
pub fn get_colour(c: u32) -> (r: Result<Colour, TextureError>)
    ensures
        palette_index(c) is Some ==> r == Ok::<Colour, TextureError>(palette_index(c)->0),
        palette_index(c) is None ==> r == Err::<Colour, TextureError>(
            TextureError::UnknownColour(c),
        ),
{
    match c {
        0xf0f0f0 => Ok(0),
        0x73b349 => Ok(1),
        0x5f9f35 => Ok(2),
        0x509026 => Ok(3),
        0x966c4a => Ok(4),
        0x79553a => Ok(5),
        0x593d29 => Ok(6),
        0x3266cc => Ok(7),
        0x4c32cc => Ok(8),
        0x8f8f8f => Ok(10),
        0x747474 => Ok(11),
        0x686868 => Ok(12),
        _ => Err(TextureError::UnknownColour(c)),
    }
}

/// The pixel data offset in a bitmap's file header, read little-endian
/// from bytes 10 to 13, lies within the bytes.
pub open spec fn data_start_ok(b: Seq<u8>) -> bool {
    b.len() >= 14 && b[10] + b[11] * 0x100 + b[12] * 0x10000 + b[13] * 0x1000000 <= b.len()
}

fn check_data_start(b: &[u8]) -> (r: bool)
    ensures
        r == data_start_ok(b@),
{
    if b.len() < 14 {
        return false;
    }
    let start: u64 = b[10] as u64 + b[11] as u64 * 0x100 + b[12] as u64 * 0x10000 + b[13] as u64
        * 0x1000000;
    start <= b.len() as u64
}

/// The height field of the info header, bytes 22 to 25, is not `i32::MIN`,
/// whose absolute value tinybmp would take.
pub open spec fn height_ok(b: Seq<u8>) -> bool {
    !(b.len() >= 26 && b[22] == 0 && b[23] == 0 && b[24] == 0 && b[25] == 0x80)
}

fn check_height(b: &[u8]) -> (r: bool)
    ensures
        r == height_ok(b@),
{
    !(b.len() >= 26 && b[22] == 0 && b[23] == 0 && b[24] == 0 && b[25] == 0x80)
}

/// The width and height tinybmp reads from a bitmap's header.
pub uninterp spec fn bmp_size_of(bytes: Seq<u8>) -> Option<(u32, u32)>;

/// The pixels tinybmp yields for a bitmap, each as (x, y, raw colour), in
/// the order it yields them.
pub uninterp spec fn bmp_pixels_of(bytes: Seq<u8>) -> Seq<(i32, i32, u32)>;

/// Relies on tinybmp's `RawBmp::from_slice` and `RawBmp::size`: `None` where
/// the header does not parse, else the image's size, a function of the bytes
/// alone. `from_slice` indexes the bytes at the header's data offset and
/// takes the absolute value of the height, hence the requirements.
#[verifier::external_body]
fn bmp_size(bytes: &[u8]) -> (r: Option<(u32, u32)>)
    requires
        data_start_ok(bytes@),
        height_ok(bytes@),
    ensures
        r == bmp_size_of(bytes@),
{
    let size = tinybmp::RawBmp::from_slice(bytes).ok()?.size();
    Some((size.width, size.height))
}

/// Relies on tinybmp's `RawPixels` iterator (`RawBmp::pixels`): the raw
/// pixels of an 8×8 bitmap, a function of the bytes alone. Row offsets
/// are products of the header's sizes, so only a small image is decoded.
#[verifier::external_body]
fn bmp_pixels(bytes: &[u8]) -> (r: Vec<(i32, i32, u32)>)
    requires
        data_start_ok(bytes@),
        height_ok(bytes@),
        bmp_size_of(bytes@) == Some((8u32, 8u32)),
    ensures
        r@ == bmp_pixels_of(bytes@),
{
    match tinybmp::RawBmp::from_slice(bytes) {
        Ok(bmp) => bmp.pixels().map(|p| (p.position.x, p.position.y, p.color)).collect(),
        Err(_) => Vec::new(),
    }
}

/// The image that the first `n` pixels paint on a blank 8×8 texture, or the
/// first error among them.
pub open spec fn paint(px: Seq<(i32, i32, u32)>, n: nat) -> Result<Seq<Colour>, TextureError>
    decreases n,
{
    if n == 0 || n > px.len() {
        Ok(Seq::new(TEXTURE_LEN as nat, |i: int| 0u8))
    } else {
        match paint(px, (n - 1) as nat) {
            Err(e) => Err(e),
            Ok(img) => {
                let p = px[n - 1];
                if !(0 <= p.0 < TEXTURE_SIZE && 0 <= p.1 < TEXTURE_SIZE) {
                    Err(TextureError::Malformed)
                } else {
                    match palette_index(p.2) {
                        None => Err(TextureError::UnknownColour(p.2)),
                        Some(c) => Ok(img.update(p.0 + p.1 * TEXTURE_SIZE, c)),
                    }
                }
            },
        }
    }
}

/// The texture that a bitmap's bytes give.
pub open spec fn texture_of(bytes: Seq<u8>) -> Result<Seq<Colour>, TextureError> {
    if !data_start_ok(bytes) || !height_ok(bytes) {
        Err(TextureError::Malformed)
    } else {
        match bmp_size_of(bytes) {
            None => Err(TextureError::Malformed),
            Some((w, h)) => if w != TEXTURE_SIZE || h != TEXTURE_SIZE {
                Err(TextureError::WrongSize(w, h))
            } else {
                paint(bmp_pixels_of(bytes), bmp_pixels_of(bytes).len())
            },
        }
    }
}

/// A texture's texels are palette colours other than the sky's.
pub open spec fn image_ok(img: Seq<Colour>) -> bool {
    img.len() == TEXTURE_LEN && forall|i: int| 0 <= i < img.len() ==> #[trigger] img[i] < 16
}

proof fn lemma_paint_ok(px: Seq<(i32, i32, u32)>, n: nat)
    ensures
        paint(px, n) is Ok ==> image_ok(paint(px, n)->Ok_0),
    decreases n,
{
    if n > 0 && n <= px.len() {
        lemma_paint_ok(px, (n - 1) as nat);
    }
}

proof fn lemma_paint_err(px: Seq<(i32, i32, u32)>, n: nat, m: nat)
    requires
        n <= m <= px.len(),
        paint(px, n) is Err,
    ensures
        paint(px, m) == paint(px, n),
    decreases m,
{
    if m > n {
        lemma_paint_err(px, n, (m - 1) as nat);
    }
}

proof fn lemma_load_all_err(fs: Seq<Seq<u8>>, n: nat, m: nat)
    requires
        n <= m <= fs.len(),
        load_all(fs, n) is Err,
    ensures
        load_all(fs, m) == load_all(fs, n),
    decreases m,
{
    if m > n {
        lemma_load_all_err(fs, n, (m - 1) as nat);
    }
}

/// Decodes an 8×8 bitmap into palette colours.
pub fn load_texture(bytes: &[u8]) -> (r: Result<Vec<Colour>, TextureError>)
    ensures
        r is Ok ==> texture_of(bytes@) == Ok::<Seq<Colour>, TextureError>(
            r->Ok_0@,
        ),
        r is Err ==> texture_of(bytes@) == Err::<Seq<Colour>, TextureError>(
            r->Err_0,
        ),
        r is Ok ==> image_ok(r->Ok_0@),
{
    if !check_data_start(bytes) || !check_height(bytes) {
        return Err(TextureError::Malformed);
    }
    let (width, height) = match bmp_size(bytes) {
        None => return Err(TextureError::Malformed),
        Some(d) => d,
    };
    if width != 8 || height != 8 {
        return Err(TextureError::WrongSize(width, height));
    }
    let pixels = bmp_pixels(bytes);
    let ghost px = pixels@;
    assert(texture_of(bytes@) == paint(px, px.len()));
    let mut img: Vec<Colour> = vec![0u8; TEXTURE_LEN];
    assert(img@ =~= Seq::new(TEXTURE_LEN as nat, |i: int| 0u8));
    let mut i: usize = 0;
    while i < pixels.len()
        invariant
            px == pixels@,
            texture_of(bytes@) == paint(px, px.len()),
            img@.len() == TEXTURE_LEN,
            0 <= i <= pixels.len(),
            paint(px, i as nat) == Ok::<Seq<Colour>, TextureError>(img@),
        decreases pixels.len() - i,
    {
        let (x, y, c) = pixels[i];
        assert(px[i as int] == (x, y, c));
        if !(0 <= x && x < 8 && 0 <= y && y < 8) {
            assert(paint(px, (i + 1) as nat) == Err::<Seq<Colour>, TextureError>(
                TextureError::Malformed,
            ));
            proof {
                lemma_paint_err(px, (i + 1) as nat, px.len());
            }
            return Err(TextureError::Malformed);
        }
        let colour = match get_colour(c) {
            Err(e) => {
                assert(paint(px, (i + 1) as nat) == Err::<Seq<Colour>, TextureError>(e));
                proof {
                    lemma_paint_err(px, (i + 1) as nat, px.len());
                }
                return Err(e);
            },
            Ok(colour) => colour,
        };
        img.set((x + y * 8) as usize, colour);
        i = i + 1;
    }
    proof {
        lemma_paint_ok(px, px.len());
    }
    Ok(img)
}

/// The bitmaps of the ten textures.
pub struct TextureFiles {
    pub water: Vec<u8>,
    pub dirt_x: Vec<u8>,
    pub dirt_y: Vec<u8>,
    pub dirt_z: Vec<u8>,
    pub grass_x: Vec<u8>,
    pub grass_y: Vec<u8>,
    pub grass_z: Vec<u8>,
    pub stone_x: Vec<u8>,
    pub stone_y: Vec<u8>,
    pub stone_z: Vec<u8>,
}

/// The bitmaps in texture order.
pub open spec fn files_seq(f: &TextureFiles) -> Seq<Seq<u8>> {
    seq![
        f.water@,
        f.dirt_x@,
        f.dirt_y@,
        f.dirt_z@,
        f.grass_x@,
        f.grass_y@,
        f.grass_z@,
        f.stone_x@,
        f.stone_y@,
        f.stone_z@,
    ]
}

/// The first `n` textures loaded from `files`, or the first error.
pub open spec fn load_all(files: Seq<Seq<u8>>, n: nat) -> Result<Seq<Seq<Colour>>, TextureError>
    decreases n,
{
    if n == 0 || n > files.len() {
        Ok(Seq::empty())
    } else {
        match load_all(files, (n - 1) as nat) {
            Err(e) => Err(e),
            Ok(imgs) => match texture_of(files[n - 1]) {
                Err(e) => Err(e),
                Ok(img) => Ok(imgs.push(img)),
            },
        }
    }
}

/// The position of a block's texture for a face axis: water has one for
/// every axis; dirt, grass and stone one per axis.
pub open spec fn slot(block: Block, side: Plane) -> int {
    let axis = match side {
        Plane::X => 0int,
        Plane::Y => 1int,
        Plane::Z => 2int,
    };
    match block {
        Block::Air => -1,
        Block::Water => 0,
        Block::Dirt => 1 + axis,
        Block::Grass => 4 + axis,
        Block::Stone => 7 + axis,
    }
}

/// The texel index for a hit's texel coordinates, each clamped to 0..=7.
pub open spec fn texel_index(x: usize, y: usize) -> int {
    let cx = if x > 7 {
        7int
    } else {
        x as int
    };
    let cy = if y > 7 {
        7int
    } else {
        y as int
    };
    cx + cy * 8
}

/// All textures: each block has three, one for each axis, but for water,
/// which has one. Y is the brightest (the top), Z the middle (front and
/// back), X the darkest (the sides).
pub struct Textures {
    images: Vec<Vec<Colour>>,
}

impl View for Textures {
    type V = Seq<Seq<Colour>>;

    closed spec fn view(&self) -> Seq<Seq<Colour>> {
        Seq::new(self.images@.len(), |i: int| self.images@[i]@)
    }
}

impl Textures {
    /// Ten textures of 64 palette colours each.
    pub open spec fn wf(&self) -> bool {
        self@.len() == TEXTURE_COUNT && forall|i: int|
            0 <= i < TEXTURE_COUNT ==> image_ok(#[trigger] self@[i])
    }

    /// Loads all ten textures, failing with the first error in texture order.
    pub fn new(files: &TextureFiles) -> (r: Result<Textures, TextureError>)
        ensures
            match r {
                Ok(t) => t.wf() && load_all(files_seq(files), TEXTURE_COUNT as nat) == Ok::<
                    Seq<Seq<Colour>>,
                    TextureError,
                >(t@),
                Err(e) => load_all(files_seq(files), TEXTURE_COUNT as nat) == Err::<
                    Seq<Seq<Colour>>,
                    TextureError,
                >(e),
            },
    {
        let sources: Vec<&Vec<u8>> = vec![
            &files.water,
            &files.dirt_x,
            &files.dirt_y,
            &files.dirt_z,
            &files.grass_x,
            &files.grass_y,
            &files.grass_z,
            &files.stone_x,
            &files.stone_y,
            &files.stone_z,
        ];
        let ghost fs = files_seq(files);
        assert(sources@.len() == TEXTURE_COUNT);
        let mut images: Vec<Vec<Colour>> = Vec::new();
        assert(Seq::new(images@.len(), |j: int| images@[j]@) =~= Seq::<Seq<Colour>>::empty());
        let mut i: usize = 0;
        while i < TEXTURE_COUNT
            invariant
                sources@.len() == TEXTURE_COUNT,
                forall|j: int| 0 <= j < TEXTURE_COUNT ==> (#[trigger] sources@[j])@ == fs[j],
                fs == files_seq(files),
                0 <= i <= TEXTURE_COUNT,
                images@.len() == i,
                forall|j: int| 0 <= j < i ==> image_ok(#[trigger] images@[j]@),
                load_all(fs, i as nat) == Ok::<Seq<Seq<Colour>>, TextureError>(
                    Seq::new(images@.len(), |j: int| images@[j]@),
                ),
            decreases TEXTURE_COUNT - i,
        {
            let img = match load_texture(sources[i].as_slice()) {
                Err(e) => {
                    proof {
                        lemma_load_all_err(fs, (i + 1) as nat, TEXTURE_COUNT as nat);
                    }
                    return Err(e);
                },
                Ok(img) => img,
            };
            let ghost prev = images@;
            images.push(img);
            assert(Seq::new(images@.len(), |j: int| images@[j]@) =~= Seq::new(
                prev.len(),
                |j: int| prev[j]@,
            ).push(img@));
            i = i + 1;
        }
        let t = Textures { images };
        assert(t.wf());
        Ok(t)
    }

    /// The colour under a hit: the texel of the texture for its block and
    /// face axis, with texel coordinates above 7 taken as 7; the sky for Air.
    pub fn get_colour(&self, hit: Hit) -> (r: Colour)
        requires
            self.wf(),
        ensures
            hit.block == Block::Air ==> r == DEFAULT_COLOUR,
            hit.block != Block::Air ==> r == self@[slot(hit.block, hit.side)][texel_index(
                hit.texel_x,
                hit.texel_y,
            )],
            r < 16,
    {
        let x: usize = if hit.texel_x > 7 {
            7
        } else {
            hit.texel_x
        };
        let y: usize = if hit.texel_y > 7 {
            7
        } else {
            hit.texel_y
        };
        let idx = x + y * TEXTURE_SIZE;
        let s: usize = match (hit.block, hit.side) {
            (Block::Air, _) => {
                return DEFAULT_COLOUR;
            },
            (Block::Water, _) => 0,
            (Block::Dirt, Plane::X) => 1,
            (Block::Dirt, Plane::Y) => 2,
            (Block::Dirt, Plane::Z) => 3,
            (Block::Grass, Plane::X) => 4,
            (Block::Grass, Plane::Y) => 5,
            (Block::Grass, Plane::Z) => 6,
            (Block::Stone, Plane::X) => 7,
            (Block::Stone, Plane::Y) => 8,
            (Block::Stone, Plane::Z) => 9,
        };
        assert(self@[s as int] == self.images@[s as int]@);
        self.images[s][idx]
    }

    /// The colour of a pixel whose ray found `hit`: the sky where it found
    /// nothing.
    pub fn shade(&self, hit: Option<Hit>) -> (r: Colour)
        requires
            self.wf(),
        ensures
            hit is None ==> r == DEFAULT_COLOUR,
            hit is Some ==> r == self.spec_shade(hit->0),
            r < 16,
    {
        match hit {
            None => DEFAULT_COLOUR,
            Some(h) => self.get_colour(h),
        }
    }

    /// The colour `get_colour` gives for a hit.
    pub open spec fn spec_shade(&self, hit: Hit) -> Colour {
        if hit.block == Block::Air {
            DEFAULT_COLOUR
        } else {
            self@[slot(hit.block, hit.side)][texel_index(hit.texel_x, hit.texel_y)]
        }
    }
}

} // verus!
