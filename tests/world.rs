use c33d::world::{Block, World, WorldError};

fn upload(planes: &[&[&str]]) -> Vec<Vec<String>> {
    planes.iter().map(|p| p.iter().map(|r| r.to_string()).collect()).collect()
}

#[test]
fn parse_known_characters() {
    assert_eq!(Block::parse(' '), Some(Block::Air));
    assert_eq!(Block::parse('d'), Some(Block::Dirt));
    assert_eq!(Block::parse('g'), Some(Block::Grass));
    assert_eq!(Block::parse('s'), Some(Block::Stone));
    assert_eq!(Block::parse('w'), Some(Block::Water));
    assert_eq!(Block::parse('x'), None);
}

#[test]
fn new_world_is_air_and_set_get() {
    let mut w = World::new(2, 3, 4);
    assert_eq!(w.get(1, 2, 3), Block::Air);
    w.set(1, 2, 3, Block::Stone);
    w.set(0, 1, 2, Block::Water);
    assert_eq!(w.get(1, 2, 3), Block::Stone);
    assert_eq!(w.get(0, 1, 2), Block::Water);
    assert_eq!(w.get(0, 0, 0), Block::Air);
    assert_eq!(w.blocks[1 + 2 * 2 + 3 * 6], Block::Stone);
}

#[test]
fn upload_builds_world() {
    // y = 0: rows z = 0, 1; y = 1: rows z = 0, 1.
    let w = World::from_rows(&upload(&[&["sd ", "gw "], &["   ", "  s"]])).unwrap();
    assert_eq!((w.width, w.height, w.depth), (3, 2, 2));
    assert_eq!(w.get(0, 0, 0), Block::Stone);
    assert_eq!(w.get(1, 0, 0), Block::Dirt);
    assert_eq!(w.get(2, 0, 0), Block::Air);
    assert_eq!(w.get(0, 0, 1), Block::Grass);
    assert_eq!(w.get(1, 0, 1), Block::Water);
    assert_eq!(w.get(2, 1, 1), Block::Stone);
    assert_eq!(w.get(0, 1, 0), Block::Air);
}

#[test]
fn upload_single_stone() {
    let w = World::from_rows(&upload(&[&["s"]])).unwrap();
    assert_eq!((w.width, w.height, w.depth), (1, 1, 1));
    assert_eq!(w.get(0, 0, 0), Block::Stone);
}

#[test]
fn upload_rejects_unknown_block() {
    assert_eq!(
        World::from_rows(&upload(&[&["sx"]])).err(),
        Some(WorldError::UnknownBlock('x'))
    );
}

#[test]
fn upload_rejects_empty() {
    assert_eq!(World::from_rows(&upload(&[])).err(), Some(WorldError::Empty));
    assert_eq!(World::from_rows(&upload(&[&[]])).err(), Some(WorldError::Empty));
    assert_eq!(World::from_rows(&upload(&[&[""]])).err(), Some(WorldError::Empty));
}

#[test]
fn upload_rejects_ragged_rows() {
    assert_eq!(
        World::from_rows(&upload(&[&["ss", "s"]])).err(),
        Some(WorldError::NotRectangular)
    );
    assert_eq!(
        World::from_rows(&upload(&[&["ss", "ss"], &["ss"]])).err(),
        Some(WorldError::NotRectangular)
    );
}

#[test]
fn upload_reports_first_unknown_in_height_depth_width_order() {
    // 'q' sits at y = 0, z = 1; 'p' at y = 1, z = 0.
    assert_eq!(
        World::from_rows(&upload(&[&["ss", "sq"], &["sp", "ss"]])).err(),
        Some(WorldError::UnknownBlock('q'))
    );
    assert_eq!(
        World::from_rows(&upload(&[&["ab"]])).err(),
        Some(WorldError::UnknownBlock('a'))
    );
}
