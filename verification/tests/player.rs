//! The sticker picker and the frame player.

use std::rc::Rc;

use gugu::player::{pick_sticker, show_pack, Player, Tick, GRID_COLS};
use gugu::stickers::{animated_sticker, Picture, RawFrame, StickerFrames, StickerPack};

/// A sticker of one-pixel-high frames, as wide as their number.
fn sticker(delays: &[u64]) -> StickerFrames {
    let raw = delays
        .iter()
        .enumerate()
        .map(|(i, &delay_ms)| RawFrame {
            picture: Picture {
                width: i as u32 + 1,
                height: 1,
                rgba: vec![0; 4 * (i + 1)],
            },
            delay_ms,
        })
        .collect();
    animated_sticker("p", Ok(raw)).unwrap()
}

fn pack(name: &str, stickers: usize) -> StickerPack {
    StickerPack {
        name: name.to_string(),
        stickers: (0..stickers)
            .map(|i| (format!("{i}.gif"), sticker(&[40])))
            .collect(),
    }
}

/// The frame shown by a tick, as (uid, frame, delay).
fn shown(tick: Tick) -> (i32, usize, u64) {
    match tick {
        Tick::Show {
            uid, frame, delay, ..
        } => (uid, frame, delay),
        other => panic!("unexpected: {other:?}"),
    }
}

#[test]
fn cells_go_row_by_row() {
    let packs = vec![pack("a", 0), pack("b", 5)];
    let grid = show_pack(&packs, 1);
    let places: Vec<(usize, usize, usize, usize)> = grid
        .cells
        .iter()
        .map(|c| (c.pack, c.index, c.row, c.col))
        .collect();
    assert_eq!(
        places,
        [(1, 0, 0, 0), (1, 1, 0, 1), (1, 2, 0, 2), (1, 3, 1, 0), (1, 4, 1, 1)]
    );
    assert_eq!(grid.rows, 2);
    assert_eq!(GRID_COLS, 3);
    assert_eq!(grid.cells[0].image.unwrap().size().width, 1);
}

#[test]
fn grid_is_as_high_as_its_cells() {
    for (n, rows) in [(0, 0), (1, 1), (3, 1), (4, 2), (6, 2), (7, 3)] {
        assert_eq!(show_pack(&vec![pack("p", n)], 0).rows, rows);
    }
}

#[test]
fn missing_pack_is_an_empty_grid() {
    let packs = vec![pack("a", 2)];
    let grid = show_pack(&packs, 1);
    assert!(grid.cells.is_empty());
    assert_eq!(grid.rows, 0);
    assert!(show_pack(&packs, usize::MAX).cells.is_empty());
}

#[test]
fn sticker_without_frames_has_no_thumbnail() {
    let empty = StickerFrames {
        frames: Vec::new(),
        delays: Vec::new(),
    };
    let packs = vec![StickerPack {
        name: "p".to_string(),
        stickers: vec![("x.gif".to_string(), empty)],
    }];
    assert!(show_pack(&packs, 0).cells[0].image.is_none());
}

#[test]
fn bad_index_picks_nothing() {
    let packs = vec![pack("a", 1), pack("b", 2)];
    assert!(pick_sticker(&packs, 1, 1).is_some());
    for (pack, index) in [(1, 2), (2, 0), (-1, 0), (0, -1), (i32::MIN, i32::MIN)] {
        assert!(pick_sticker(&packs, pack, index).is_none());
    }
}

#[test]
fn cell_leads_to_its_sticker() {
    let mut packs = vec![pack("a", 3)];
    packs[0].stickers[2].1 = sticker(&[40, 50]);
    let grid = show_pack(&packs, 0);
    let cell = &grid.cells[2];
    let picked = pick_sticker(&packs, cell.pack as i32, cell.index as i32).unwrap();
    assert_eq!(picked.frames.len(), 2);
}

#[test]
fn rows_advance_in_turn() {
    let mut player = Player::new();
    player.register(1, Rc::new(sticker(&[30, 40, 50])));
    player.register(2, Rc::new(sticker(&[60, 70])));
    let ticks: Vec<(i32, usize, u64)> = (0..6).map(|_| shown(player.tick())).collect();
    assert_eq!(
        ticks,
        [
            (1, 1, 40),
            (2, 1, 70),
            (1, 2, 50),
            (2, 0, 60),
            (1, 0, 30),
            (2, 1, 70),
        ]
    );
}

#[test]
fn tick_leads_to_its_image() {
    let mut player = Player::new();
    player.register(5, Rc::new(sticker(&[30, 40])));
    match player.tick() {
        Tick::Show { row, frame, .. } => {
            assert_eq!(player.frame(row, frame).unwrap().size().width, 2);
        }
        other => panic!("unexpected: {other:?}"),
    }
    assert!(player.frame(0, 2).is_none());
    assert!(player.frame(1, 0).is_none());
}

#[test]
fn static_sticker_is_not_animated() {
    let mut player = Player::new();
    player.register(1, Rc::new(sticker(&[30])));
    assert!(matches!(player.tick(), Tick::Idle));
}

#[test]
fn late_row_is_picked_up_in_turn() {
    let mut player = Player::new();
    player.register(1, Rc::new(sticker(&[30, 40])));
    assert_eq!(shown(player.tick()).0, 1);
    player.register(2, Rc::new(sticker(&[50, 60])));
    assert_eq!(shown(player.tick()).0, 1);
    assert_eq!(shown(player.tick()).0, 2);
    assert_eq!(shown(player.tick()).0, 1);
}

#[test]
fn frame_on_display_is_not_published_again() {
    let mut player = Player::new();
    player.register(1, Rc::new(sticker(&[30, 40])));
    player.register(1, Rc::new(sticker(&[50, 60])));
    assert_eq!(shown(player.tick()), (1, 1, 40));
    assert!(matches!(player.tick(), Tick::Keep { delay: 60 }));
    assert_eq!(shown(player.tick()), (1, 0, 30));
}

#[test]
fn delays_are_within_bounds() {
    let mut player = Player::new();
    player.register(1, Rc::new(sticker(&[0, 600_000])));
    assert_eq!(shown(player.tick()).2, 5000);
    assert_eq!(shown(player.tick()).2, 20);
}
