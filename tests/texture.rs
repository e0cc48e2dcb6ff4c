use c33d::ray::{Hit, Plane};
use c33d::texture::{get_colour, load_texture, TextureError, TextureFiles, Textures, DEFAULT_COLOUR};
use c33d::world::Block;

fn bmp(width: u32, height: u32, pixel: impl Fn(u32, u32) -> u32) -> Vec<u8> {
    let row = ((width * 3 + 3) / 4) * 4;
    let data = row * height;
    let mut b = Vec::new();
    b.extend_from_slice(b"BM");
    b.extend_from_slice(&(54 + data).to_le_bytes());
    b.extend_from_slice(&[0, 0, 0, 0]);
    b.extend_from_slice(&54u32.to_le_bytes());
    b.extend_from_slice(&40u32.to_le_bytes());
    b.extend_from_slice(&width.to_le_bytes());
    b.extend_from_slice(&(height as i32).to_le_bytes());
    b.extend_from_slice(&1u16.to_le_bytes());
    b.extend_from_slice(&24u16.to_le_bytes());
    b.extend_from_slice(&0u32.to_le_bytes());
    b.extend_from_slice(&data.to_le_bytes());
    b.extend_from_slice(&2835u32.to_le_bytes());
    b.extend_from_slice(&2835u32.to_le_bytes());
    b.extend_from_slice(&0u32.to_le_bytes());
    b.extend_from_slice(&0u32.to_le_bytes());
    // Rows are stored bottom-up, pixels as blue, green, red.
    for y in (0..height).rev() {
        let mut written = 0;
        for x in 0..width {
            let c = pixel(x, y);
            b.extend_from_slice(&[c as u8, (c >> 8) as u8, (c >> 16) as u8]);
            written += 3;
        }
        while written < row {
            b.push(0);
            written += 1;
        }
    }
    b
}

fn solid(c: u32) -> Vec<u8> {
    bmp(8, 8, |_, _| c)
}

#[test]
fn palette_maps_known_colours() {
    assert_eq!(get_colour(0xf0f0f0), Ok(0));
    assert_eq!(get_colour(0x73b349), Ok(1));
    assert_eq!(get_colour(0x4c32cc), Ok(8));
    assert_eq!(get_colour(0x8f8f8f), Ok(10));
    assert_eq!(get_colour(0x686868), Ok(12));
    assert_eq!(get_colour(0x123456), Err(TextureError::UnknownColour(0x123456)));
}

#[test]
fn load_uniform_texture() {
    let img = load_texture(&solid(0x966c4a)).unwrap();
    assert_eq!(img, vec![4u8; 64]);
}

#[test]
fn load_texture_places_pixels() {
    let img = load_texture(&bmp(8, 8, |x, y| if x == 2 && y == 5 { 0x3266cc } else { 0xf0f0f0 }))
        .unwrap();
    assert_eq!(img[2 + 5 * 8], 7);
    assert_eq!(img.iter().filter(|&&c| c == 0).count(), 63);
}

#[test]
fn load_texture_rejects_wrong_size() {
    assert_eq!(load_texture(&bmp(4, 8, |_, _| 0xf0f0f0)), Err(TextureError::WrongSize(4, 8)));
}

#[test]
fn load_texture_rejects_unknown_colour() {
    assert_eq!(load_texture(&solid(0x010203)), Err(TextureError::UnknownColour(0x010203)));
}

#[test]
fn load_texture_rejects_garbage() {
    assert_eq!(load_texture(b"not a bitmap at all"), Err(TextureError::Malformed));
    assert_eq!(load_texture(&[]), Err(TextureError::Malformed));
    let mut b = solid(0xf0f0f0);
    b[10] = 0xff;
    b[11] = 0xff;
    assert_eq!(load_texture(&b), Err(TextureError::Malformed));
}

fn files() -> TextureFiles {
    TextureFiles {
        water: solid(0x3266cc),
        dirt_x: solid(0x593d29),
        dirt_y: solid(0x966c4a),
        dirt_z: solid(0x79553a),
        grass_x: solid(0x509026),
        grass_y: bmp(8, 8, |x, _| if x < 4 { 0x73b349 } else { 0x5f9f35 }),
        grass_z: solid(0x5f9f35),
        stone_x: solid(0x686868),
        stone_y: solid(0x8f8f8f),
        stone_z: solid(0x747474),
    }
}

fn hit(block: Block, side: Plane, texel_x: usize, texel_y: usize) -> Hit {
    Hit { block, side, texel_x, texel_y }
}

#[test]
fn textures_sample_by_block_and_axis() {
    let t = Textures::new(&files()).unwrap();
    assert_eq!(t.get_colour(hit(Block::Water, Plane::X, 0, 0)), 7);
    assert_eq!(t.get_colour(hit(Block::Water, Plane::Y, 3, 3)), 7);
    assert_eq!(t.get_colour(hit(Block::Dirt, Plane::X, 0, 0)), 6);
    assert_eq!(t.get_colour(hit(Block::Dirt, Plane::Y, 0, 0)), 4);
    assert_eq!(t.get_colour(hit(Block::Dirt, Plane::Z, 0, 0)), 5);
    assert_eq!(t.get_colour(hit(Block::Grass, Plane::X, 0, 0)), 3);
    assert_eq!(t.get_colour(hit(Block::Grass, Plane::Y, 1, 0)), 1);
    assert_eq!(t.get_colour(hit(Block::Grass, Plane::Y, 6, 0)), 2);
    assert_eq!(t.get_colour(hit(Block::Stone, Plane::X, 0, 0)), 12);
    assert_eq!(t.get_colour(hit(Block::Stone, Plane::Y, 0, 0)), 10);
    assert_eq!(t.get_colour(hit(Block::Stone, Plane::Z, 0, 0)), 11);
    assert_eq!(t.get_colour(hit(Block::Air, Plane::Z, 0, 0)), DEFAULT_COLOUR);
}

#[test]
fn texel_coordinates_are_clamped() {
    let t = Textures::new(&files()).unwrap();
    assert_eq!(t.get_colour(hit(Block::Grass, Plane::Y, 100, 100)), 2);
    assert_eq!(t.get_colour(hit(Block::Grass, Plane::Y, 8, 0)), 2);
}

#[test]
fn no_hit_shades_sky() {
    let t = Textures::new(&files()).unwrap();
    assert_eq!(t.shade(None), 9);
    assert_eq!(t.shade(Some(hit(Block::Stone, Plane::Z, 0, 0))), 11);
}

#[test]
fn textures_report_first_bad_file() {
    let mut f = files();
    f.grass_z = solid(0x000001);
    f.stone_x = bmp(2, 2, |_, _| 0xf0f0f0);
    assert_eq!(Textures::new(&f).err(), Some(TextureError::UnknownColour(1)));
}

#[test]
fn load_texture_rejects_least_height() {
    let mut b = solid(0xf0f0f0);
    b[22..26].copy_from_slice(&i32::MIN.to_le_bytes());
    assert_eq!(load_texture(&b), Err(TextureError::Malformed));
}

#[test]
fn load_texture_rejects_huge_header_without_decoding() {
    let mut b = solid(0xf0f0f0);
    b[18..22].copy_from_slice(&u32::MAX.to_le_bytes());
    b[22..26].copy_from_slice(&i32::MAX.to_le_bytes());
    b[28..30].copy_from_slice(&32u16.to_le_bytes());
    assert_eq!(load_texture(&b), Err(TextureError::WrongSize(u32::MAX, i32::MAX as u32)));
}
