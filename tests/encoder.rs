use c33d::buffer::{encode_tile, Buffer, Tile, BUF_WIDTH, FRAME_LEN, MON_WIDTH};

fn tile(c00: u8, c01: u8, c02: u8, c10: u8, c11: u8, c12: u8) -> Tile {
    Tile { c00, c01, c02, c10, c11, c12 }
}

fn fill(b: &mut Buffer, c: u8) {
    for p in b.as_mut_slice().iter_mut() {
        *p = c;
    }
}

#[test]
fn new_buffer_is_colour_zero() {
    let mut b = Buffer::new();
    assert!(b.as_mut_slice().iter().all(|&c| c == 0));
    assert_eq!(b.as_mut_slice().len(), 76788);
    assert_eq!(b.get(323, 236), 0);
}

#[test]
fn frame_has_fixed_length() {
    let b = Buffer::new();
    assert_eq!(b.draw().len(), 162 * 79 * 3);
    assert_eq!(FRAME_LEN, 38394);
}

#[test]
fn sky_frame_is_spaces_zero_and_nine() {
    let mut b = Buffer::new();
    fill(&mut b, 9);
    let out = b.draw();
    for row in out.chunks(486) {
        assert!(row[..162].iter().all(|&c| c == b' '));
        assert!(row[162..324].iter().all(|&c| c == b'0'));
        assert!(row[324..].iter().all(|&c| c == b'9'));
    }
}

#[test]
fn solid_colour_uses_hex_letter() {
    let mut b = Buffer::new();
    fill(&mut b, 12);
    let out = b.draw();
    assert_eq!(out[0], b' ');
    assert_eq!(out[162], b'0');
    assert_eq!(out[324], b'c');
    assert_eq!(out[FRAME_LEN - 1], b'c');
}

#[test]
fn uniform_tile_is_space() {
    assert_eq!(encode_tile(&tile(5, 5, 5, 5, 5, 5)), (b' ', 0, 5));
}

#[test]
fn three_colours_keep_the_two_most_common() {
    // red = 1 three times, green = 2 twice, blue = 3 once in the bottom right.
    let t = tile(1, 2, 1, 1, 2, 3);
    let (code, fg, bg) = encode_tile(&t);
    assert_eq!((fg, bg), (2, 1));
    // last = bg = 1: set bits for cells (0,1) -> 4 and (1,1) -> 8.
    assert_eq!(code, 128 + 4 + 8);
}

#[test]
fn swapped_counts_swap_background_and_foreground() {
    let t = tile(2, 1, 2, 2, 1, 3);
    let (code, fg, bg) = encode_tile(&t);
    assert_eq!((fg, bg), (1, 2));
    assert_eq!(code, 128 + 4 + 8);
}

#[test]
fn equal_counts_prefer_lower_index_as_background() {
    let t = tile(7, 7, 7, 4, 4, 4);
    let (code, fg, bg) = encode_tile(&t);
    assert_eq!(bg, 4);
    // bottom-right is 4 = bg, so last = bg and the left column differs.
    assert_eq!((code, fg), (128 + 1 + 4 + 16, 7));
}

#[test]
fn bottom_right_foreground_swaps_colours() {
    // 3 is most common (bg), 6 the foreground and in the bottom right.
    let t = tile(3, 3, 3, 3, 6, 6);
    let (code, fg, bg) = encode_tile(&t);
    // last = 6: every cell except (1,1) differs from it.
    assert_eq!(code, 128 + 1 + 2 + 4 + 16);
    assert_eq!((fg, bg), (3, 6));
}

fn decode(e: (u8, u8, u8)) -> Tile {
    let bit = |w: u8| if e.0 & w != 0 { e.1 } else { e.2 };
    tile(bit(1), bit(4), bit(16), bit(2), bit(8), e.2)
}

#[test]
fn two_colour_tiles_round_trip() {
    let tiles = [
        tile(1, 2, 1, 2, 1, 2),
        tile(0, 15, 15, 15, 15, 0),
        tile(9, 9, 9, 9, 9, 4),
        tile(4, 9, 9, 9, 9, 9),
        tile(11, 11, 3, 3, 11, 3),
    ];
    for t in tiles.iter() {
        assert_eq!(decode(encode_tile(t)), *t);
    }
}

#[test]
fn draw_places_tile_in_the_three_bands() {
    let mut b = Buffer::new();
    fill(&mut b, 9);
    // Character (1, 1): pixels x in 2..4, y in 3..6.
    let w = BUF_WIDTH as usize;
    {
        let s = b.as_mut_slice();
        s[2 + 3 * w] = 4;
        s[3 + 5 * w] = 4;
    }
    let out = b.draw();
    let row = 486;
    let mw = MON_WIDTH as usize;
    // bg = 9 (four cells), fg = 4; bottom-right is 4 = fg, so last = fg.
    assert_eq!(out[row + 1], 128 + 2 + 4 + 8 + 16);
    assert_eq!(out[row + mw + 1], b'9');
    assert_eq!(out[row + 2 * mw + 1], b'4');
    assert_eq!(out[row], b' ');
    assert_eq!(out[row + 2 * mw], b'9');
}

#[test]
fn glyph_and_colour_bytes_stay_in_range() {
    let mut b = Buffer::new();
    {
        let s = b.as_mut_slice();
        for (i, p) in s.iter_mut().enumerate() {
            *p = ((i * 7 + i / 324) % 16) as u8;
        }
    }
    let out = b.draw();
    for row in out.chunks(486) {
        assert!(row[..162].iter().all(|&c| c == b' ' || (0x80..=0xbf).contains(&c)));
        assert!(row[162..].iter().all(|&c| c.is_ascii_digit() || (b'a'..=b'f').contains(&c)));
    }
}
