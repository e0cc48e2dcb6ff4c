//! The blocks and the three-dimensional grid of blocks that rays walk.

use vstd::prelude::*;
use vstd::string::*;

verus! {

/// A block in the world.
#[derive(Clone, Copy, Debug, PartialEq, Eq, Structural)]
pub enum Block {
    Air,
    Dirt,
    Grass,
    Stone,
    Water,
}

/// The block a character stands for in an uploaded world.
pub open spec fn block_of(c: char) -> Option<Block> {
    if c == ' ' {
        Some(Block::Air)
    } else if c == 'd' {
        Some(Block::Dirt)
    } else if c == 'g' {
        Some(Block::Grass)
    } else if c == 's' {
        Some(Block::Stone)
    } else if c == 'w' {
        Some(Block::Water)
    } else {
        None
    }
}

impl Block {
    /// Parses a block from a character; `None` for any other character.
    pub fn parse(c: char) -> (r: Option<Block>)
        ensures
            r == block_of(c),
    {
        match c {
            ' ' => Some(Block::Air),
            'd' => Some(Block::Dirt),
            'g' => Some(Block::Grass),
            's' => Some(Block::Stone),
            'w' => Some(Block::Water),
            _ => None,
        }
    }
}

/// Why an uploaded world was refused.
#[derive(Clone, Copy, Debug, PartialEq, Eq, Structural)]
pub enum WorldError {
    /// No plane, no row or an empty first row.
    Empty,
    /// A plane or a row whose length differs from the first one.
    NotRectangular,
    /// A character that names no block.
    UnknownBlock(char),
}

/// A world: a `width` by `height` by `depth` grid of blocks, stored with
/// `x` varying fastest, then `y`, then `z`.
pub struct World {
    pub width: usize,
    pub height: usize,
    pub depth: usize,
    /// The blocks, `x` fastest, then `y`, then `z`.
    pub blocks: Vec<Block>,
}

impl View for World {
    type V = Seq<Block>;

    open spec fn view(&self) -> Seq<Block> {
        self.blocks@
    }
}

/// The position of block (`x`, `y`, `z`) in a grid `w` wide and `h` high.
pub open spec fn block_index(w: int, h: int, x: int, y: int, z: int) -> int {
    x + y * w + z * (w * h)
}

proof fn lemma_index_bound(w: int, h: int, d: int, x: int, y: int, z: int)
    requires
        0 <= x < w,
        0 <= y < h,
        0 <= z < d,
    ensures
        0 <= y * w <= (h - 1) * w,
        0 <= z * h * w <= (d - 1) * h * w,
        0 <= z * (w * h),
        z * h * w == z * (w * h),
        0 <= z * h <= z * h * w,
        0 <= x + y * w <= block_index(w, h, x, y, z) < w * h * d,
{
    assert(0 <= y * w <= (h - 1) * w) by (nonlinear_arith)
        requires
            0 <= y < h,
            0 < w,
    ;
    assert(0 <= z * h * w <= (d - 1) * h * w) by (nonlinear_arith)
        requires
            0 <= z < d,
            0 < w,
            0 < h,
    ;
    assert(z * h * w == z * (w * h)) by (nonlinear_arith);
    assert(0 <= z * h <= z * h * w) by (nonlinear_arith)
        requires
            0 <= z,
            0 < w,
            0 < h,
    ;
    assert(w * h * d == (d - 1) * h * w + (h - 1) * w + w) by (nonlinear_arith);
}

/// A position inside a `w` by `h` by `d` grid has an index inside it.
pub proof fn lemma_index_in_world(w: int, h: int, d: int, x: int, y: int, z: int)
    requires
        0 <= x < w,
        0 <= y < h,
        0 <= z < d,
    ensures
        0 <= block_index(w, h, x, y, z) < w * h * d,
{
    lemma_index_bound(w, h, d, x, y, z);
}

impl World {
    /// The grid holds one block per position.
    pub open spec fn wf(&self) -> bool {
        self@.len() == self.width * self.height * self.depth
    }

    /// Position (`x`, `y`, `z`) lies inside the grid.
    pub open spec fn in_bounds(&self, x: int, y: int, z: int) -> bool {
        0 <= x < self.width && 0 <= y < self.height && 0 <= z < self.depth
    }

    /// The block at (`x`, `y`, `z`).
    pub open spec fn block(&self, x: int, y: int, z: int) -> Block {
        self@[block_index(self.width as int, self.height as int, x, y, z)]
    }

    /// A world of the given dimensions, all Air.
    pub fn new(width: usize, height: usize, depth: usize) -> (r: World)
        requires
            width * height * depth <= usize::MAX,
        ensures
            r.wf(),
            r.width == width,
            r.height == height,
            r.depth == depth,
            forall|i: int| 0 <= i < r@.len() ==> #[trigger] r@[i] == Block::Air,
    {
        assert(0 <= width * height <= width * height * depth || depth == 0) by (nonlinear_arith)
            requires
                width >= 0,
                height >= 0,
                depth >= 0,
        ;
        assert(0 <= width * height) by (nonlinear_arith)
            requires
                width >= 0,
                height >= 0,
        ;
        assert(0 <= width * height * depth) by (nonlinear_arith)
            requires
                width * height >= 0,
                depth >= 0,
        ;
        let n = if depth == 0 {
            0
        } else {
            width * height * depth
        };
        assert(depth == 0 ==> width * height * depth == 0) by (nonlinear_arith);
        World { width, height, depth, blocks: vec![Block::Air; n] }
    }

    /// The block at (`x`, `y`, `z`), which must lie inside the world.
    pub fn get(&self, x: usize, y: usize, z: usize) -> (r: Block)
        requires
            self.wf(),
            self.in_bounds(x as int, y as int, z as int),
        ensures
            r == self.block(x as int, y as int, z as int),
    {
        proof {
            lemma_index_bound(
                self.width as int,
                self.height as int,
                self.depth as int,
                x as int,
                y as int,
                z as int,
            );
        }
        let _n = self.blocks.len();
        self.blocks[x + y * self.width + z * self.height * self.width]
    }

    /// Replaces the block at (`x`, `y`, `z`), which must lie inside the world.
    pub fn set(&mut self, x: usize, y: usize, z: usize, block: Block)
        requires
            old(self).wf(),
            old(self).in_bounds(x as int, y as int, z as int),
        ensures
            final(self).wf(),
            final(self).width == old(self).width,
            final(self).height == old(self).height,
            final(self).depth == old(self).depth,
            final(self)@ == old(self)@.update(
                block_index(old(self).width as int, old(self).height as int, x as int, y as int, z as int),
                block,
            ),
    {
        proof {
            lemma_index_bound(
                self.width as int,
                self.height as int,
                self.depth as int,
                x as int,
                y as int,
                z as int,
            );
        }
        let _n = self.blocks.len();
        let i = x + y * self.width + z * self.height * self.width;
        self.blocks.set(i, block);
    }
}

/// The upload is missing a plane, a row or a first column.
pub open spec fn upload_empty(v: Seq<Seq<Seq<char>>>) -> bool {
    v.len() == 0 || v[0].len() == 0 || v[0][0].len() == 0
}

/// Every plane has as many rows as the first, every row as many characters.
pub open spec fn upload_rectangular(v: Seq<Seq<Seq<char>>>) -> bool {
    &&& forall|y: int| 0 <= y < v.len() ==> (#[trigger] v[y]).len() == v[0].len()
    &&& forall|y: int, z: int|
        0 <= y < v.len() && 0 <= z < v[y].len() ==> (#[trigger] v[y][z]).len() == v[0][0].len()
}

/// The character for position (`x`, `y`, `z`) of an upload, whose outer
/// index is `y`, then `z`, then `x`.
pub open spec fn upload_char(v: Seq<Seq<Seq<char>>>, x: int, y: int, z: int) -> char {
    v[y][z][x]
}

/// Position (`x`, `y`, `z`) of the upload names a block.
pub open spec fn upload_known_at(v: Seq<Seq<Seq<char>>>, x: int, y: int, z: int) -> bool {
    block_of(upload_char(v, x, y, z)) is Some
}

/// Position (`x2`, `y2`, `z2`) comes before (`x`, `y`, `z`) in upload
/// order: by `y`, then `z`, then `x`.
pub open spec fn upload_before(x2: int, y2: int, z2: int, x: int, y: int, z: int) -> bool {
    y2 < y || (y2 == y && (z2 < z || (z2 == z && x2 < x)))
}

/// Position (`x`, `y`, `z`) lies inside the upload.
pub open spec fn upload_has(v: Seq<Seq<Seq<char>>>, x: int, y: int, z: int) -> bool {
    0 <= y < v.len() && 0 <= z < v[y].len() && 0 <= x < v[y][z].len()
}

/// `c` is the first character of the upload, in upload order, that names
/// no block.
pub open spec fn first_unknown(v: Seq<Seq<Seq<char>>>, c: char) -> bool {
    exists|x: int, y: int, z: int|
        #![trigger upload_char(v, x, y, z)]
        upload_has(v, x, y, z) && upload_char(v, x, y, z) == c && block_of(c) is None && (forall|
            x2: int,
            y2: int,
            z2: int,
        |
            upload_has(v, x2, y2, z2) && upload_before(x2, y2, z2, x, y, z)
                ==> #[trigger] upload_known_at(v, x2, y2, z2))
}

/// Every character of the upload names a block.
pub open spec fn upload_known(v: Seq<Seq<Seq<char>>>) -> bool {
    forall|x: int, y: int, z: int|
        0 <= y < v.len() && 0 <= z < v[y].len() && 0 <= x < v[y][z].len()
            ==> #[trigger] upload_known_at(v, x, y, z)
}

/// The block that `b` holds for position (`x`, `y`, `z`) is the one the
/// upload names there.
pub open spec fn placed(
    b: Seq<Block>,
    v: Seq<Seq<Seq<char>>>,
    w: int,
    h: int,
    x: int,
    y: int,
    z: int,
) -> bool {
    0 <= block_index(w, h, x, y, z) < b.len() && block_of(upload_char(v, x, y, z)) == Some(
        b[block_index(w, h, x, y, z)],
    )
}

impl World {
    /// Builds a world from its upload: planes by height, each a list of rows
    /// by depth, each row a string of one character per block along `x`.
    pub fn from_rows(contents: &Vec<Vec<String>>) -> (r: Result<World, WorldError>)
        ensures
            upload_empty(contents.deep_view()) ==> r == Err::<World, WorldError>(WorldError::Empty),
            !upload_empty(contents.deep_view()) && !upload_rectangular(contents.deep_view()) ==> r
                == Err::<World, WorldError>(WorldError::NotRectangular),
            !upload_empty(contents.deep_view()) && upload_rectangular(contents.deep_view())
                && !upload_known(contents.deep_view()) ==> (r matches Err(
                WorldError::UnknownBlock(c),
            ) && first_unknown(contents.deep_view(), c)),
            !upload_empty(contents.deep_view()) && upload_rectangular(contents.deep_view())
                && upload_known(contents.deep_view()) ==> (r matches Ok(w) && w.wf() && w.width
                == contents.deep_view()[0][0].len() && w.height == contents.deep_view().len()
                && w.depth == contents.deep_view()[0].len() && forall|x: int, y: int, z: int|
                w.in_bounds(x, y, z) ==> Some(#[trigger] w.block(x, y, z)) == block_of(
                upload_char(contents.deep_view(), x, y, z),
            )),
    {
        let ghost v = contents.deep_view();
        if contents.len() == 0 || contents[0].len() == 0 {
            return Err(WorldError::Empty);
        }
        let width = contents[0][0].as_str().unicode_len();
        if width == 0 {
            return Err(WorldError::Empty);
        }
        let height = contents.len();
        let depth = contents[0].len();
        assert(v[0][0] == contents@[0]@[0]@);
        let mut y: usize = 0;
        while y < height
            invariant
                v == contents.deep_view(),
                !upload_empty(v),
                height == v.len(),
                depth == v[0].len(),
                width == v[0][0].len(),
                0 <= y <= height,
                forall|yy: int| 0 <= yy < y ==> (#[trigger] v[yy]).len() == depth,
                forall|yy: int, z: int|
                    0 <= yy < y && 0 <= z < v[yy].len() ==> (#[trigger] v[yy][z]).len() == width,
            decreases height - y,
        {
            assert(contents@[y as int]@.len() == v[y as int].len());
            if contents[y].len() != depth {
                return Err(WorldError::NotRectangular);
            }
            let mut z: usize = 0;
            while z < depth
                invariant
                    v == contents.deep_view(),
                    !upload_empty(v),
                    height == v.len(),
                    depth == v[0].len(),
                    width == v[0][0].len(),
                    0 <= y < height,
                    v[y as int].len() == depth,
                    0 <= z <= depth,
                    forall|yy: int| 0 <= yy < y ==> (#[trigger] v[yy]).len() == depth,
                    forall|yy: int, zz: int|
                        0 <= yy < y && 0 <= zz < v[yy].len() ==> (#[trigger] v[yy][zz]).len()
                            == width,
                    forall|zz: int| 0 <= zz < z ==> (#[trigger] v[y as int][zz]).len() == width,
                decreases depth - z,
            {
                assert(v[y as int][z as int] == contents@[y as int]@[z as int]@);
                if contents[y][z].as_str().unicode_len() != width {
                    return Err(WorldError::NotRectangular);
                }
                z = z + 1;
            }
            y = y + 1;
        }
        assert(upload_rectangular(v));
        let mut y: usize = 0;
        while y < height
            invariant
                v == contents.deep_view(),
                !upload_empty(v),
                upload_rectangular(v),
                height == v.len(),
                depth == v[0].len(),
                width == v[0][0].len(),
                0 <= y <= height,
                forall|xx: int, yy: int, zz: int|
                    upload_has(v, xx, yy, zz) && yy < y ==> #[trigger] upload_known_at(
                        v,
                        xx,
                        yy,
                        zz,
                    ),
            decreases height - y,
        {
            let mut z: usize = 0;
            while z < depth
                invariant
                    v == contents.deep_view(),
                    !upload_empty(v),
                    upload_rectangular(v),
                    height == v.len(),
                    depth == v[0].len(),
                    width == v[0][0].len(),
                    0 <= y < height,
                    0 <= z <= depth,
                    forall|xx: int, yy: int, zz: int|
                        upload_has(v, xx, yy, zz) && (yy < y || (yy == y && zz < z))
                            ==> #[trigger] upload_known_at(v, xx, yy, zz),
                decreases depth - z,
            {
                assert(v[y as int].len() == depth);
                assert(contents@[y as int]@.len() == v[y as int].len());
                assert(v[y as int][z as int] == contents@[y as int]@[z as int]@);
                let row = contents[y][z].as_str();
                let mut x: usize = 0;
                while x < width
                    invariant
                        v == contents.deep_view(),
                        !upload_empty(v),
                        upload_rectangular(v),
                        height == v.len(),
                        depth == v[0].len(),
                        width == v[0][0].len(),
                        row@ == v[y as int][z as int],
                        0 <= y < height,
                        0 <= z < depth,
                        0 <= x <= width,
                        forall|xx: int, yy: int, zz: int|
                            upload_has(v, xx, yy, zz) && (yy < y || (yy == y && (zz < z || (zz
                                == z && xx < x)))) ==> #[trigger] upload_known_at(v, xx, yy, zz),
                    decreases width - x,
                {
                    let c = row.get_char(x);
                    if Block::parse(c).is_none() {
                        assert(upload_char(v, x as int, y as int, z as int) == c);
                        assert(!upload_known_at(v, x as int, y as int, z as int));
                        assert(upload_has(v, x as int, y as int, z as int));
                        assert(first_unknown(v, c));
                        return Err(WorldError::UnknownBlock(c));
                    }
                    x = x + 1;
                }
                z = z + 1;
            }
            y = y + 1;
        }
        assert(upload_known(v)) by {
            assert forall|x: int, y: int, z: int|
                0 <= y < v.len() && 0 <= z < v[y].len() && 0 <= x < v[y][z].len()
                    implies #[trigger] upload_known_at(v, x, y, z) by {
                assert(upload_has(v, x, y, z));
            }
        }
        let ghost wh = width * height;
        let mut blocks: Vec<Block> = Vec::new();
        let mut z: usize = 0;
        while z < depth
            invariant
                v == contents.deep_view(),
                !upload_empty(v),
                upload_rectangular(v),
                upload_known(v),
                height == v.len(),
                depth == v[0].len(),
                width == v[0][0].len(),
                wh == width * height,
                0 <= z <= depth,
                blocks@.len() == z * wh,
                forall|xx: int, yy: int, zz: int|
                    0 <= xx < width && 0 <= yy < height && 0 <= zz < z ==> #[trigger] placed(
                        blocks@,
                        v,
                        width as int,
                        height as int,
                        xx,
                        yy,
                        zz,
                    ),
            decreases depth - z,
        {
            let mut y: usize = 0;
            while y < height
                invariant
                    v == contents.deep_view(),
                    !upload_empty(v),
                    upload_rectangular(v),
                    upload_known(v),
                    height == v.len(),
                    depth == v[0].len(),
                    width == v[0][0].len(),
                    wh == width * height,
                    0 <= z < depth,
                    0 <= y <= height,
                    blocks@.len() == z * wh + y * width,
                    forall|xx: int, yy: int, zz: int|
                        0 <= xx < width && 0 <= yy < height && 0 <= zz <= z && (zz < z || yy < y)
                            ==> #[trigger] placed(blocks@, v, width as int, height as int, xx, yy, zz),
                decreases height - y,
            {
                assert(v[y as int].len() == depth);
                assert(contents@[y as int]@.len() == v[y as int].len());
                assert(v[y as int][z as int] == contents@[y as int]@[z as int]@);
                let row = contents[y][z].as_str();
                let mut x: usize = 0;
                while x < width
                    invariant
                        v == contents.deep_view(),
                        !upload_empty(v),
                        upload_rectangular(v),
                        upload_known(v),
                        height == v.len(),
                        depth == v[0].len(),
                        width == v[0][0].len(),
                        wh == width * height,
                        row@ == v[y as int][z as int],
                        0 <= z < depth,
                        0 <= y < height,
                        0 <= x <= width,
                        blocks@.len() == z * wh + y * width + x,
                        forall|xx: int, yy: int, zz: int|
                            0 <= xx < width && 0 <= yy < height && 0 <= zz <= z && (zz < z || yy
                                < y || (yy == y && xx < x)) ==> #[trigger] placed(
                                blocks@,
                                v,
                                width as int,
                                height as int,
                                xx,
                                yy,
                                zz,
                            ),
                    decreases width - x,
                {
                    let c = row.get_char(x);
                    assert(upload_char(v, x as int, y as int, z as int) == c);
                    assert(upload_known_at(v, x as int, y as int, z as int));
                    let b = Block::parse(c).unwrap();
                    let ghost prev = blocks@;
                    blocks.push(b);
                    assert(block_index(width as int, height as int, x as int, y as int, z as int)
                        == prev.len());
                    assert forall|xx: int, yy: int, zz: int|
                        0 <= xx < width && 0 <= yy < height && 0 <= zz <= z && (zz < z || yy < y
                            || (yy == y && xx <= x)) implies #[trigger] placed(
                        blocks@,
                        v,
                        width as int,
                        height as int,
                        xx,
                        yy,
                        zz,
                    ) by {
                        if zz < z || yy < y || xx < x {
                            assert(placed(prev, v, width as int, height as int, xx, yy, zz));
                        }
                    }
                    x = x + 1;
                }
                assert((y + 1) * width == y * width + width) by (nonlinear_arith);
                y = y + 1;
            }
            assert((z + 1) * wh == z * wh + height * width) by (nonlinear_arith)
                requires
                    wh == width * height,
            ;
            z = z + 1;
        }
        assert(depth * wh == width * height * depth) by (nonlinear_arith)
            requires
                wh == width * height,
        ;
        let world = World { width, height, depth, blocks };
        assert forall|x: int, y: int, z: int| world.in_bounds(x, y, z) implies Some(
            #[trigger] world.block(x, y, z),
        ) == block_of(upload_char(v, x, y, z)) by {
            assert(placed(world.blocks@, v, width as int, height as int, x, y, z));
        }
        assert(world.wf());
        assert(world.width == v[0][0].len());
        Ok(world)
    }
}

} // verus!
