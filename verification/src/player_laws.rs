//! Laws of the sticker picker and the frame player.

use vstd::prelude::*;

use crate::player::{
    cell_shows, rows_for, sticker_at, stickers_of, thumbnail, AnimModel, PlayerModel, StickerCell, Tick,
    GRID_COLS,
};
use crate::stickers::{FramesModel, StickerPack, MAX_DELAY_MS, MIN_DELAY_MS};

verus! {

// ---- the picker ----

/// No two cells of a grid share a place: cells go row by row, and from left to
/// right within a row.
pub proof fn law_cells_do_not_overlap(
    a: StickerCell,
    b: StickerCell,
    packs: Seq<StickerPack>,
    pack: int,
    i: int,
    k: int,
)
    requires
        0 <= i < k,
        cell_shows(a, packs, pack, i),
        cell_shows(b, packs, pack, k),
    ensures
        a.row < b.row || (a.row == b.row && a.col < b.col),
{
}

/// Every cell is within the grid, and no row of the grid is without a cell.
pub proof fn law_grid_is_as_high_as_its_cells(
    cell: StickerCell,
    packs: Seq<StickerPack>,
    pack: int,
    i: int,
)
    requires
        0 <= i < stickers_of(packs, pack).len(),
        cell_shows(cell, packs, pack, i),
    ensures
        cell.col < GRID_COLS,
        cell.row < rows_for(stickers_of(packs, pack).len() as int),
        i == stickers_of(packs, pack).len() - 1 ==> cell.row == rows_for(
            stickers_of(packs, pack).len() as int,
        ) - 1,
{
}

/// A cell leads back to the sticker it shows: the pack and index that it
/// carries are that sticker's.
pub proof fn law_cell_leads_to_its_sticker(
    cell: StickerCell,
    packs: Seq<StickerPack>,
    pack: int,
    i: int,
)
    requires
        cell_shows(cell, packs, pack, i),
    ensures
        stickers_of(packs, cell.pack as int)[cell.index as int] == stickers_of(packs, pack)[i],
        cell.image == thumbnail(stickers_of(packs, cell.pack as int)[cell.index as int].1),
{
}

/// The image of a cell is the frame at index 0 of the sticker that the cell
/// stands for; there is no image only when the sticker has no frames.
pub proof fn law_cell_image_is_the_first_frame(
    cell: StickerCell,
    packs: Seq<StickerPack>,
    pack: int,
    i: int,
)
    requires
        0 <= pack < packs.len(),
        0 <= i < packs[pack].stickers@.len(),
        cell_shows(cell, packs, pack, i),
    ensures
        cell.image is None <==> packs[pack].stickers@[i].1.frames@.len() == 0,
        cell.image matches Some(image) ==> *image == packs[pack].stickers@[i].1.frames@[0],
{
}

/// A cell's place and number go together: three cells to a row, counted row by
/// row, and the cell names its own pack and sticker.
pub proof fn law_cell_is_at_its_number(
    cell: StickerCell,
    packs: Seq<StickerPack>,
    pack: int,
    i: int,
)
    requires
        0 <= i,
        cell_shows(cell, packs, pack, i),
    ensures
        3 * cell.row + cell.col == i,
        0 <= cell.col < 3,
        cell.pack == pack,
        cell.index == i,
{
}

/// The stickers on show are all those of the pack, in order, and none when
/// there is no such pack.
pub proof fn law_shown_stickers_are_the_packs(packs: Seq<StickerPack>, pack: int)
    ensures
        0 <= pack < packs.len() ==> stickers_of(packs, pack) == packs[pack].stickers@,
        !(0 <= pack < packs.len()) ==> stickers_of(packs, pack).len() == 0,
{
}

/// Picking what a cell stands for gives the sticker whose first frame the cell
/// shows; an index that no sticker of the pack has picks nothing.
pub proof fn law_picking_a_cell_gives_its_sticker(
    cell: StickerCell,
    packs: Seq<StickerPack>,
    pack: int,
    i: int,
)
    ensures
        0 <= pack < packs.len() && 0 <= i < packs[pack].stickers@.len() && cell_shows(
            cell,
            packs,
            pack,
            i,
        ) ==> sticker_at(packs, cell.pack as int, cell.index as int) == Some(
            packs[pack].stickers@[i].1,
        ),
        !(0 <= pack < packs.len() && 0 <= i < packs[pack].stickers@.len()) ==> sticker_at(
            packs,
            pack,
            i,
        ) is None,
{
}

/// A grid has the fewest rows of three that hold its cells.
pub proof fn law_grid_has_the_fewest_rows(n: int)
    requires
        n >= 0,
    ensures
        n <= 3 * rows_for(n) < n + 3,
{
}

// ---- the frame player ----

/// The state after some ticks.
pub open spec fn after(player: PlayerModel, ticks: nat) -> PlayerModel
    decreases ticks,
{
    if ticks == 0 {
        player
    } else {
        after(player, (ticks - 1) as nat).ticked()
    }
}

/// Whether the row at `i` is among the `ticks` rows whose turn comes from
/// `cursor` on.
pub open spec fn had_turn(i: int, cursor: int, rows: int, ticks: int) -> bool {
    if i >= cursor {
        i < cursor + ticks
    } else {
        i + rows < cursor + ticks
    }
}

/// In at most as many ticks as there are rows, the rows from the cursor on
/// advance by one frame each, and the others not at all.
proof fn lemma_turns(player: PlayerModel, ticks: nat)
    requires
        0 <= player.cursor < player.rows.len(),
        ticks <= player.rows.len(),
    ensures
        ({
            let end = after(player, ticks);
            let n = player.rows.len();
            &&& end.rows.len() == n
            &&& end.cursor == if player.cursor + ticks < n {
                player.cursor + ticks
            } else {
                player.cursor + ticks - n
            }
            &&& forall|i: int|
                0 <= i < n ==> #[trigger] end.rows[i] == if had_turn(
                    i,
                    player.cursor,
                    n as int,
                    ticks as int,
                ) {
                    player.rows[i].advanced()
                } else {
                    player.rows[i]
                }
        }),
    decreases ticks,
{
    if ticks > 0 {
        lemma_turns(player, (ticks - 1) as nat);
        let before = after(player, (ticks - 1) as nat);
        let n = player.rows.len() as int;
        vstd::arithmetic::div_mod::lemma_small_mod(before.cursor as nat, n as nat);
        assert(before.turn() == before.cursor);
        if before.cursor + 1 < n {
            vstd::arithmetic::div_mod::lemma_small_mod((before.cursor + 1) as nat, n as nat);
        } else {
            vstd::arithmetic::div_mod::lemma_mod_self_0(n);
        }
    }
}

/// Round-robin: in as many ticks as there are animated rows, every row
/// advances by exactly one frame, and it is the turn of the same row again.
pub proof fn law_every_row_gets_its_turn(player: PlayerModel)
    requires
        0 <= player.cursor < player.rows.len(),
    ensures
        after(player, player.rows.len()).rows == player.rows.map_values(
            |row: AnimModel| row.advanced(),
        ),
        after(player, player.rows.len()).cursor == player.cursor,
{
    lemma_turns(player, player.rows.len());
    assert(after(player, player.rows.len()).rows =~= player.rows.map_values(
        |row: AnimModel| row.advanced(),
    ));
}

/// The cursor stays on a row: a tick leaves it on one, and a row that is
/// registered does not move it off.
pub proof fn law_cursor_stays_on_a_row(player: PlayerModel, uid: i32, frames: FramesModel)
    requires
        0 <= player.cursor,
        player.rows.len() > 0,
    ensures
        0 <= player.ticked().cursor < player.ticked().rows.len(),
        player.cursor < player.rows.len() ==> player.registered(uid, frames).cursor
            < player.registered(uid, frames).rows.len(),
{
}

/// A row after some advances.
pub open spec fn advanced_by(row: AnimModel, times: nat) -> AnimModel
    decreases times,
{
    if times == 0 {
        row
    } else {
        advanced_by(row, (times - 1) as nat).advanced()
    }
}

proof fn lemma_advanced_by(row: AnimModel, times: nat)
    requires
        row.wf(),
    ensures
        advanced_by(row, times).frames == row.frames,
        advanced_by(row, times).uid == row.uid,
        advanced_by(row, times).idx == (row.idx + times) % (row.frames.frames.len() as int),
    decreases times,
{
    let n = row.frames.frames.len() as int;
    if times == 0 {
        vstd::arithmetic::div_mod::lemma_small_mod(row.idx as nat, n as nat);
    } else {
        lemma_advanced_by(row, (times - 1) as nat);
        vstd::arithmetic::div_mod::lemma_add_mod_noop(row.idx + times - 1, 1, n);
        vstd::arithmetic::div_mod::lemma_small_mod(1, n as nat);
    }
}

/// An animation repeats: as many advances as it has frames bring a row back to
/// the frame it started from, and fewer do not.
pub proof fn law_animation_repeats(row: AnimModel, times: nat)
    requires
        row.wf(),
        0 < times <= row.frames.frames.len(),
    ensures
        (advanced_by(row, times) == row) == (times == row.frames.frames.len()),
{
    lemma_advanced_by(row, times);
    let n = row.frames.frames.len() as int;
    if times == n {
        vstd::arithmetic::div_mod::lemma_mod_add_multiples_vanish(row.idx, n);
        vstd::arithmetic::div_mod::lemma_small_mod(row.idx as nat, n as nat);
    } else if row.idx + times < n {
        vstd::arithmetic::div_mod::lemma_small_mod((row.idx + times) as nat, n as nat);
    } else {
        vstd::arithmetic::div_mod::lemma_mod_add_multiples_vanish(row.idx + times - n, n);
        vstd::arithmetic::div_mod::lemma_small_mod((row.idx + times - n) as nat, n as nat);
    }
}

/// A frame is published only when the displayed frame changes: what a tick
/// shows is not what was shown before it.
pub proof fn law_no_frame_is_published_twice(player: PlayerModel, tick: Tick)
    requires
        player.wf(),
        player.asks(tick),
    ensures
        tick matches Tick::Show { row, uid, frame, delay } ==> (uid, frame as int)
            != player.last && player.ticked().last == (uid, frame as int),
        tick is Keep ==> player.ticked().last == player.last,
{
}

/// With one animated row, every tick after the first shows another frame.
pub proof fn law_single_row_keeps_moving(player: PlayerModel, tick: Tick)
    requires
        player.wf(),
        player.rows.len() == 1,
        player.ticked().asks(tick),
    ensures
        tick is Show,
{
    let row = player.rows[0];
    assert(row.wf());
    let n = row.frames.frames.len() as int;
    assert(player.turn() == 0) by {
        vstd::arithmetic::div_mod::lemma_mod_self_0(1);
    }
    let next = row.next();
    if row.idx + 1 < n {
        vstd::arithmetic::div_mod::lemma_small_mod((row.idx + 1) as nat, n as nat);
    } else {
        vstd::arithmetic::div_mod::lemma_mod_self_0(n);
    }
    if next + 1 < n {
        vstd::arithmetic::div_mod::lemma_small_mod((next + 1) as nat, n as nat);
    } else {
        vstd::arithmetic::div_mod::lemma_mod_self_0(n);
    }
    assert(row.advanced().next() != next);
}

/// The wait after a frame is that frame's own delay, so with well-formed
/// stickers it is neither too short nor too long.
pub proof fn law_waits_are_within_bounds(player: PlayerModel, tick: Tick)
    requires
        player.wf(),
        player.asks(tick),
        forall|i: int| 0 <= i < player.rows.len() ==> (#[trigger] player.rows[i]).frames.wf(),
    ensures
        tick matches Tick::Show { row, uid, frame, delay } ==> MIN_DELAY_MS <= delay
            <= MAX_DELAY_MS && delay == player.rows[row as int].frames.delays[frame as int],
        tick matches Tick::Keep { delay } ==> MIN_DELAY_MS <= delay <= MAX_DELAY_MS,
{
    if player.rows.len() > 0 {
        let i = player.turn();
        assert(0 <= i < player.rows.len());
        let row = player.rows[i];
        assert(row.wf() && row.frames.wf());
        assert(0 <= row.next() < row.frames.frames.len());
    }
}

/// A sticker of one frame is never animated.
pub proof fn law_static_sticker_is_not_animated(
    player: PlayerModel,
    uid: i32,
    frames: FramesModel,
)
    requires
        frames.frames.len() == 1,
    ensures
        player.registered(uid, frames) == player,
{
}

/// Registering a row leaves the rows before it and what is on display alone.
pub proof fn law_registering_disturbs_nothing(
    player: PlayerModel,
    uid: i32,
    frames: FramesModel,
    i: int,
)
    requires
        0 <= i < player.rows.len(),
    ensures
        player.registered(uid, frames).rows[i] == player.rows[i],
        player.registered(uid, frames).last == player.last,
        player.registered(uid, frames).cursor == player.cursor,
{
}

/// The frame after another is the next one, and the first one after the last;
/// advancing changes the frame on display and nothing else.
pub proof fn law_next_frame_follows(row: AnimModel)
    requires
        0 <= row.idx < row.frames.frames.len(),
    ensures
        row.idx + 1 < row.frames.frames.len() ==> row.next() == row.idx + 1,
        row.idx + 1 == row.frames.frames.len() ==> row.next() == 0,
        row.advanced().idx == row.next(),
        row.advanced().uid == row.uid,
        row.advanced().frames == row.frames,
{
    let n = row.frames.frames.len() as int;
    if row.idx + 1 < n {
        vstd::arithmetic::div_mod::lemma_small_mod((row.idx + 1) as nat, n as nat);
    } else {
        vstd::arithmetic::div_mod::lemma_mod_self_0(n);
    }
}

/// A tick advances the row at the cursor to its next frame, leaves all others
/// as they are, remembers that row and frame as the last published, and moves
/// the cursor to the next row, or to the first one after the last.
pub proof fn law_tick_advances_one_row(player: PlayerModel, i: int)
    requires
        0 <= player.cursor < player.rows.len(),
        player.rows[player.cursor].wf(),
        0 <= i < player.rows.len(),
    ensures
        ({
            let row = player.rows[player.cursor];
            let next = if row.idx + 1 < row.frames.frames.len() {
                row.idx + 1
            } else {
                0
            };
            let after = player.ticked();
            &&& after.rows.len() == player.rows.len()
            &&& i != player.cursor ==> after.rows[i] == player.rows[i]
            &&& after.rows[player.cursor].idx == next
            &&& after.rows[player.cursor].uid == row.uid
            &&& after.rows[player.cursor].frames == row.frames
            &&& after.last.0 == row.uid && after.last.1 == next
            &&& player.cursor + 1 < player.rows.len() ==> after.cursor == player.cursor + 1
            &&& player.cursor + 1 == player.rows.len() ==> after.cursor == 0
        }),
{
    let n = player.rows.len();
    vstd::arithmetic::div_mod::lemma_small_mod(player.cursor as nat, n);
    assert(player.turn() == player.cursor);
    law_next_frame_follows(player.rows[player.cursor]);
    if player.cursor + 1 < n {
        vstd::arithmetic::div_mod::lemma_small_mod((player.cursor + 1) as nat, n);
    } else {
        vstd::arithmetic::div_mod::lemma_mod_self_0(n as int);
    }
}

/// What a tick asks for: the next frame of the row at the cursor, for the
/// delay of that very frame, unless that row and frame are on display already,
/// when only the delay counts.
pub proof fn law_tick_shows_the_next_frame(player: PlayerModel, tick: Tick)
    requires
        0 <= player.cursor < player.rows.len(),
        player.rows[player.cursor].wf(),
        player.asks(tick),
    ensures
        ({
            let row = player.rows[player.cursor];
            let next = if row.idx + 1 < row.frames.frames.len() {
                row.idx + 1
            } else {
                0
            };
            if player.last.0 == row.uid && player.last.1 == next {
                tick matches Tick::Keep { delay } && delay == row.frames.delays[next]
            } else {
                tick matches Tick::Show { row: at, uid, frame, delay } && at == player.cursor
                    && uid == row.uid && frame == next && delay == row.frames.delays[next]
            }
        }),
{
    let n = player.rows.len();
    vstd::arithmetic::div_mod::lemma_small_mod(player.cursor as nat, n);
    assert(player.turn() == player.cursor);
    law_next_frame_follows(player.rows[player.cursor]);
}

/// Without animated rows a tick clears what is on display, once, and then
/// rests.
pub proof fn law_tick_without_rows_clears_once(player: PlayerModel, tick: Tick)
    requires
        player.rows.len() == 0,
        player.asks(tick),
    ensures
        player.last.0 != -1 ==> tick is Clear && player.ticked().last.0 == -1,
        player.last.0 == -1 ==> tick is Idle && player.ticked() == player,
        player.ticked().rows.len() == 0,
{
}

/// A sticker of two frames or more is registered last, on its first frame,
/// under its row's identity; one of fewer is not registered.
pub proof fn law_registered_row_starts_at_its_first_frame(
    player: PlayerModel,
    uid: i32,
    frames: FramesModel,
)
    ensures
        frames.frames.len() <= 1 ==> player.registered(uid, frames) == player,
        frames.frames.len() > 1 ==> ({
            let after = player.registered(uid, frames);
            &&& after.rows.len() == player.rows.len() + 1
            &&& after.rows.drop_last() == player.rows
            &&& after.rows.last().uid == uid
            &&& after.rows.last().frames == frames
            &&& after.rows.last().idx == 0
            &&& after.cursor == player.cursor && after.last == player.last
        }),
{
    if frames.frames.len() > 1 {
        assert(player.registered(uid, frames).rows.drop_last() =~= player.rows);
    }
}

} // verus!
