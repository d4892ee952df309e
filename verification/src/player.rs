//! The sticker picker and the frame player. One clock drives every animated
//! row: each tick advances one of them, round-robin, and says which frame to
//! show and how long. Timers and widgets stay with the caller.

use std::rc::Rc;

use vstd::prelude::*;

use crate::stickers::{image_model, FramesModel, StickerFrames, StickerPack};

verus! {

// ---- the picker ----

/// Columns in the sticker picker nine-grid.
pub const GRID_COLS: usize = 3;

/// One cell of the picker grid: the thumbnail of one sticker, which pack and
/// sticker it stands for, and where it is shown.
#[derive(Debug)]
pub struct StickerCell<'a> {
    /// The first frame; the grid itself never animates.
    pub image: Option<&'a slint::Image>,
    pub pack: usize,
    pub index: usize,
    pub row: usize,
    pub col: usize,
}

/// The picker grid of one pack.
#[derive(Debug)]
pub struct Grid<'a> {
    pub cells: Vec<StickerCell<'a>>,
    /// How many rows of cells there are.
    pub rows: usize,
}

/// The first frame of a sticker.
pub open spec fn thumbnail(sticker: StickerFrames) -> Option<&'static slint::Image> {
    if sticker.frames@.len() == 0 {
        None
    } else {
        Some(&sticker.frames@[0])
    }
}

/// The stickers of a pack; none when there is no such pack.
pub open spec fn stickers_of(packs: Seq<StickerPack>, pack: int) -> Seq<(String, StickerFrames)> {
    if 0 <= pack < packs.len() {
        packs[pack].stickers@
    } else {
        Seq::empty()
    }
}

/// Rows that `n` cells take.
pub open spec fn rows_for(n: int) -> int {
    (n + GRID_COLS - 1) / GRID_COLS as int
}

/// Whether a cell is that of the sticker `i` of a pack: its first frame, its
/// place row by row.
pub open spec fn cell_shows(
    cell: StickerCell,
    packs: Seq<StickerPack>,
    pack: int,
    i: int,
) -> bool {
    &&& cell.image == thumbnail(stickers_of(packs, pack)[i].1)
    &&& cell.pack == pack
    &&& cell.index == i
    &&& cell.row == i / GRID_COLS as int
    &&& cell.col == i % GRID_COLS as int
}

/// Lay out the picker grid for one pack: first-frame thumbnails, row-major,
/// `GRID_COLS` per row. A missing pack index yields an empty grid.
pub fn show_pack<'a>(packs: &'a Vec<StickerPack>, pack: usize) -> (grid: Grid<'a>)
    ensures
        grid.cells@.len() == stickers_of(packs@, pack as int).len(),
        grid.rows == rows_for(grid.cells@.len() as int),
        forall|i: int|
            0 <= i < grid.cells@.len() ==> cell_shows(
                #[trigger] grid.cells@[i],
                packs@,
                pack as int,
                i,
            ),
{
    let mut cells: Vec<StickerCell<'a>> = Vec::new();
    if pack < packs.len() {
        let stickers = &packs[pack].stickers;
        for i in 0..stickers.len()
            invariant
                pack < packs@.len(),
                *stickers == packs@[pack as int].stickers,
                cells@.len() == i,
                forall|j: int|
                    0 <= j < i ==> cell_shows(#[trigger] cells@[j], packs@, pack as int, j),
        {
            let frames = &stickers[i].1.frames;
            let image = if frames.len() > 0 {
                Some(&frames[0])
            } else {
                None
            };
            cells.push(
                StickerCell { image, pack, index: i, row: i / GRID_COLS, col: i % GRID_COLS },
            );
        }
    }
    let n: usize = cells.len();
    let rows: usize = if n % GRID_COLS == 0 {
        n / GRID_COLS
    } else {
        n / GRID_COLS + 1
    };
    Grid { cells, rows }
}

/// The sticker that stands at an index of a pack, if there is one.
pub open spec fn sticker_at(packs: Seq<StickerPack>, pack: int, index: int) -> Option<
    StickerFrames,
> {
    if 0 <= index < stickers_of(packs, pack).len() {
        Some(stickers_of(packs, pack)[index].1)
    } else {
        None
    }
}

/// The sticker that was picked from the grid; a bad index picks nothing.
pub fn pick_sticker(packs: &Vec<StickerPack>, pack: i32, index: i32) -> (out: Option<
    &StickerFrames,
>)
    ensures
        out == if 0 <= index < stickers_of(packs@, pack as int).len() {
            Some(&stickers_of(packs@, pack as int)[index as int].1)
        } else {
            None
        },
        match out {
            Some(sticker) => sticker_at(packs@, pack as int, index as int) == Some(*sticker),
            None => sticker_at(packs@, pack as int, index as int) is None,
        },
{
    if pack < 0 || index < 0 || pack as usize >= packs.len() {
        return None;
    }
    let stickers = &packs[pack as usize].stickers;
    if index as usize >= stickers.len() {
        return None;
    }
    Some(&stickers[index as usize].1)
}

// ---- the frame player ----

/// One registered sticker animation: the row's `uid`, its decoded frames, and
/// the index of the frame currently on display.
#[derive(Debug)]
struct AnimRow {
    uid: i32,
    frames: Rc<StickerFrames>,
    idx: usize,
}

/// What an animated row is at.
#[verifier::ext_equal]
pub struct AnimModel {
    pub uid: i32,
    pub frames: FramesModel,
    pub idx: int,
}

impl AnimModel {
    /// The frame after the one on display; the animation repeats.
    pub open spec fn next(self) -> int {
        (self.idx + 1) % (self.frames.frames.len() as int)
    }

    /// The row with the next frame on display.
    pub open spec fn advanced(self) -> AnimModel {
        AnimModel { idx: self.next(), ..self }
    }

    /// More than one frame, a delay for each, and one of them on display.
    pub open spec fn wf(self) -> bool {
        &&& 1 < self.frames.frames.len() <= self.frames.delays.len()
        &&& 0 <= self.idx < self.frames.frames.len()
    }
}

/// The state of the frame player: the animated rows, in the order they were
/// registered; whose turn it is; and the row and frame that were published
/// last (-1 for no row).
#[verifier::ext_equal]
pub struct PlayerModel {
    pub rows: Seq<AnimModel>,
    pub cursor: int,
    pub last: (i32, int),
}

/// What a tick asks for.
#[derive(Debug)]
pub enum Tick {
    /// Nothing is animated.
    Idle,
    /// Nothing is animated any more: show no frame.
    Clear,
    /// Show this frame of the row registered at `row`; the next tick comes
    /// after `delay` ms.
    Show { row: usize, uid: i32, frame: usize, delay: u64 },
    /// The frame is on display already; the next tick comes after `delay` ms.
    Keep { delay: u64 },
}

impl PlayerModel {
    /// Every row can be advanced.
    pub open spec fn wf(self) -> bool {
        &&& 0 <= self.cursor
        &&& forall|i: int| 0 <= i < self.rows.len() ==> (#[trigger] self.rows[i]).wf()
    }

    /// The row whose turn it is.
    pub open spec fn turn(self) -> int {
        self.cursor % (self.rows.len() as int)
    }

    /// The state once a row is registered. A sticker of one frame is not.
    pub open spec fn registered(self, uid: i32, frames: FramesModel) -> PlayerModel {
        if frames.frames.len() <= 1 {
            self
        } else {
            PlayerModel { rows: self.rows.push(AnimModel { uid, frames, idx: 0 }), ..self }
        }
    }

    /// The row and frame that the next tick brings on display.
    pub open spec fn upcoming(self) -> (i32, int) {
        (self.rows[self.turn()].uid, self.rows[self.turn()].next())
    }

    /// The state after a tick: the row whose turn it is has advanced, its
    /// frame is the one published last, and it is the turn of the next row.
    pub open spec fn ticked(self) -> PlayerModel {
        if self.rows.len() == 0 {
            PlayerModel { last: if self.last.0 != -1 { (-1i32, 0) } else { self.last }, ..self }
        } else {
            let i = self.turn();
            PlayerModel {
                rows: self.rows.update(i, self.rows[i].advanced()),
                cursor: (i + 1) % (self.rows.len() as int),
                last: self.upcoming(),
            }
        }
    }

    /// Whether a tick in this state asks for `tick`: a frame is published
    /// only when the displayed frame changes.
    pub open spec fn asks(self, tick: Tick) -> bool {
        let i = self.turn();
        if self.rows.len() == 0 {
            if self.last.0 != -1 {
                tick is Clear
            } else {
                tick is Idle
            }
        } else if self.upcoming() == self.last {
            tick matches Tick::Keep { delay } && delay
                == self.rows[i].frames.delays[self.rows[i].next()]
        } else {
            tick matches Tick::Show { row, uid, frame, delay } && row == i && (uid, frame as int)
                == self.upcoming() && delay == self.rows[i].frames.delays[self.rows[i].next()]
        }
    }
}

/// The frame player.
#[derive(Debug)]
pub struct Player {
    rows: Vec<AnimRow>,
    cursor: usize,
    last: (i32, usize),
}

spec fn row_models(rows: Seq<AnimRow>) -> Seq<AnimModel> {
    rows.map_values(
        |row: AnimRow| AnimModel { uid: row.uid, frames: row.frames@, idx: row.idx as int },
    )
}

impl View for Player {
    type V = PlayerModel;

    closed spec fn view(&self) -> PlayerModel {
        PlayerModel {
            rows: row_models(self.rows@),
            cursor: self.cursor as int,
            last: (self.last.0, self.last.1 as int),
        }
    }
}

impl Player {
    pub fn new() -> (player: Player)
        ensures
            player@ == (PlayerModel { rows: Seq::empty(), cursor: 0, last: (-1i32, 0) }),
            player@.wf(),
    {
        let player = Player { rows: Vec::new(), cursor: 0, last: (-1, 0) };
        assert(player@.rows =~= Seq::empty());
        player
    }

    /// Register one row's animation; the round-robin cursor picks it up when
    /// its turn comes. Single-frame stickers are skipped: their only frame is
    /// on display already.
    pub fn register(&mut self, uid: i32, frames: Rc<StickerFrames>)
        requires
            old(self)@.wf(),
            frames.frames@.len() <= frames.delays@.len(),
        ensures
            final(self)@.wf(),
            final(self)@ == old(self)@.registered(uid, frames@),
    {
        let ghost before = self@;
        let ghost model = AnimModel { uid, frames: frames@, idx: 0 };
        if frames.frames.len() <= 1 {
            return;
        }
        self.rows.push(AnimRow { uid, frames, idx: 0 });
        assert(self@.rows =~= before.rows.push(model));
    }

    /// Advance one animated row, round-robin.
    pub fn tick(&mut self) -> (tick: Tick)
        requires
            old(self)@.wf(),
        ensures
            final(self)@.wf(),
            final(self)@ == old(self)@.ticked(),
            old(self)@.asks(tick),
    {
        let ghost before = self@;
        if self.rows.len() == 0 {
            if self.last.0 != -1 {
                self.last = (-1, 0);
                return Tick::Clear;
            }
            return Tick::Idle;
        }
        let i: usize = self.cursor % self.rows.len();
        assert(before.rows[i as int].wf());
        let uid: i32 = self.rows[i].uid;
        let count: usize = self.rows[i].frames.frames.len();
        assert(self.rows@[i as int].idx < count);
        let next: usize = (self.rows[i].idx + 1) % count;
        let delay: u64 = self.rows[i].frames.delays[next];
        let fresh = uid != self.last.0 || next != self.last.1;
        self.last = (uid, next);
        self.rows[i].idx = next;
        self.cursor = (i + 1) % self.rows.len();
        assert(self@.rows =~= before.rows.update(i as int, before.rows[i as int].advanced()));
        if fresh {
            Tick::Show { row: i, uid, frame: next, delay }
        } else {
            Tick::Keep { delay }
        }
    }

    /// A frame of a registered row.
    pub fn frame(&self, row: usize, frame: usize) -> (image: Option<&slint::Image>)
        ensures
            (image is Some) == (row < self@.rows.len() && frame
                < self@.rows[row as int].frames.frames.len()),
            image matches Some(image) ==> image_model(*image)
                == self@.rows[row as int].frames.frames[frame as int],
    {
        if row >= self.rows.len() || frame >= self.rows[row].frames.frames.len() {
            return None;
        }
        Some(&self.rows[row].frames.frames[frame])
    }
}

} // verus!
