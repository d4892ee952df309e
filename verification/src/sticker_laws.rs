//! What holds of stickers and packs, whatever the files hold.

use vstd::prelude::*;

use crate::order::{
    is_sorted, law_nothing_picked, law_picked_has_an_origin, law_picked_is_there,
    law_picking_ignores_listing_order, law_sorting_is_deterministic, law_sorting_sorts,
    names_differ, sorted_by_name,
};
use crate::stickers::{
    animated, clamped, extension, extension_is, pack_of, packs_in, same_but_case, small, still,
    sticker_name, sticker_of, stickers_in, ErrorModel, FramesModel, PackEntry, PictureModel,
    RawFrameModel, RootEntry, StickerFile, MAX_DELAY_MS, MIN_DELAY_MS,
};

verus! {

/// A delay ends up within bounds, stays as it is when it was, and keeps its
/// order to other delays.
pub proof fn law_delays_are_clamped(a: u64, b: u64)
    ensures
        MIN_DELAY_MS <= clamped(a) <= MAX_DELAY_MS,
        MIN_DELAY_MS <= a <= MAX_DELAY_MS ==> clamped(a) == a,
        a <= b ==> clamped(a) <= clamped(b),
{
}

/// Whatever the decoders give, a sticker that loads has at least one frame, a
/// delay for each, and every delay within bounds.
pub proof fn law_loaded_sticker_is_playable(file: StickerFile)
    ensures
        file.as_gif() matches Ok(sticker) ==> sticker.wf(),
        file.as_still() matches Ok(sticker) ==> sticker.wf(),
        file.as_sticker() matches Ok(sticker) ==> sticker.wf(),
{
}

/// A GIF keeps all its frames, in order.
pub proof fn law_gif_keeps_its_frames(path: Seq<char>, raw: Seq<RawFrameModel>, i: int)
    requires
        0 <= i < raw.len(),
    ensures
        animated(path, Ok(raw)) matches Ok(sticker) && sticker.frames.len() == raw.len()
            && sticker.frames[i] == raw[i].picture && sticker.delays[i] == clamped(
            raw[i].delay_ms,
        ),
{
}

/// A still image is one frame.
pub proof fn law_still_is_one_frame(path: Seq<char>, picture: PictureModel)
    ensures
        still(path, Ok(picture)) matches Ok(sticker) && sticker.frames == seq![picture]
            && sticker.delays.len() == 1,
{
}

/// A file that could not be read is an I/O error, whatever its name, and one
/// that was read never is: what is broken or cut short does not decode.
pub proof fn law_unreadable_file_is_io(file: StickerFile)
    ensures
        file.content matches Err(source) ==> file.as_sticker() == Err::<FramesModel, ErrorModel>(
            ErrorModel::Io { path: file.path@, source: source@ },
        ),
        file.content is Ok ==> !(file.as_gif() matches Err(ErrorModel::Io { .. })),
        file.content is Ok ==> !(file.as_still() matches Err(ErrorModel::Io { .. })),
        file.content is Ok ==> !(file.as_sticker() matches Err(ErrorModel::Io { .. })),
{
}

/// Every error is about the file that was loaded, and its message names it.
pub proof fn law_error_names_the_file(file: StickerFile)
    requires
        file.as_sticker() is Err,
    ensures
        file.as_sticker()->Err_0.path() == file.path@,
        exists|k: int|
            0 <= k && k + file.path@.len() <= file.as_sticker()->Err_0.message().len()
                && #[trigger] file.as_sticker()->Err_0.message().subrange(
                k,
                k + file.path@.len(),
            ) == file.path@,
{
    let e = file.as_sticker()->Err_0;
    let k = match e {
        ErrorModel::Io { path, source } => "cannot read sticker "@.len() as int,
        ErrorModel::Decode { path, source } => "cannot decode sticker "@.len() as int,
        ErrorModel::Empty { path } => "sticker "@.len() as int,
    };
    assert(e.message().subrange(k, k + file.path@.len()) =~= file.path@);
}

/// The case of an extension does not matter.
pub proof fn law_extension_ignores_case(name: Seq<char>, a: Seq<char>, b: Seq<char>)
    requires
        same_but_case(a, b),
    ensures
        extension_is(name, a) == extension_is(name, b),
{
    if extension_is(name, a) {
        let e = extension(name)->0;
        assert forall|i: int| 0 <= i < e.len() implies small(
            #[trigger] e[i] as int,
        ) == small(b[i] as int) by {
            assert(small(a[i] as int) == small(b[i] as int));
        }
    }
    if extension_is(name, b) {
        let e = extension(name)->0;
        assert forall|i: int| 0 <= i < e.len() implies small(
            #[trigger] e[i] as int,
        ) == small(a[i] as int) by {
            assert(small(a[i] as int) == small(b[i] as int));
        }
    }
}

/// A scan comes out sorted: the packs by name, and the stickers of each pack
/// by file name.
pub proof fn law_scan_is_sorted(root: Seq<RootEntry>, i: int)
    ensures
        is_sorted(sorted_by_name(packs_in(root))),
        0 <= i < sorted_by_name(packs_in(root)).len() ==> is_sorted(
            sorted_by_name(packs_in(root))[i].1,
        ),
{
    let packs = packs_in(root);
    let sorted = sorted_by_name(packs);
    law_sorting_sorts(packs);
    if 0 <= i < sorted.len() {
        broadcast use vstd::seq_lib::group_to_multiset_ensures;

        assert(sorted.contains(sorted[i]));
        assert(sorted.to_multiset().count(sorted[i]) > 0);
        assert(packs.to_multiset().count(sorted[i]) > 0);
        assert(packs.contains(sorted[i]));
        let j = choose|j: int| 0 <= j < packs.len() && packs[j] == sorted[i];
        let pick = |entry: RootEntry| pack_of(entry);
        law_picked_has_an_origin(root, j, pick);
        let k = choose|k: int| 0 <= k < root.len() && pick(#[trigger] root[k]) == Some(packs[j]);
        law_sorting_sorts(stickers_in(root[k].entries@));
    }
}

/// The scan does not depend on the order in which the root is listed, as long
/// as no two packs have one name.
pub proof fn law_scan_ignores_root_order(a: Seq<RootEntry>, b: Seq<RootEntry>)
    requires
        a.to_multiset() == b.to_multiset(),
        names_differ(packs_in(a)),
    ensures
        sorted_by_name(packs_in(a)) == sorted_by_name(packs_in(b)),
{
    law_picking_ignores_listing_order(a, b, |entry: RootEntry| pack_of(entry));
    law_sorting_is_deterministic(packs_in(a), packs_in(b));
}

/// A pack does not depend on the order in which its directory is listed, as
/// long as no two stickers have one name.
pub proof fn law_pack_ignores_listing_order(a: Seq<PackEntry>, b: Seq<PackEntry>)
    requires
        a.to_multiset() == b.to_multiset(),
        names_differ(stickers_in(a)),
    ensures
        sorted_by_name(stickers_in(a)) == sorted_by_name(stickers_in(b)),
{
    law_picking_ignores_listing_order(a, b, |entry: PackEntry| sticker_of(entry));
    law_sorting_is_deterministic(stickers_in(a), stickers_in(b));
}

/// What is no directory is no pack: the scan is the one without it.
pub proof fn law_loose_entries_are_skipped(
    before: Seq<RootEntry>,
    entry: RootEntry,
    after: Seq<RootEntry>,
)
    requires
        !entry.is_dir,
    ensures
        packs_in(before.push(entry) + after) == packs_in(before + after),
{
    law_nothing_picked(before, entry, after, |entry: RootEntry| pack_of(entry));
}

/// What is no regular file, has no sticker's name or does not decode is
/// skipped: the pack is the one without it.
pub proof fn law_broken_stickers_are_skipped(
    before: Seq<PackEntry>,
    entry: PackEntry,
    after: Seq<PackEntry>,
)
    requires
        !entry.is_file || !sticker_name(entry.file.name@) || entry.file.as_sticker() is Err,
    ensures
        stickers_in(before.push(entry) + after) == stickers_in(before + after),
{
    law_nothing_picked(before, entry, after, |entry: PackEntry| sticker_of(entry));
}

/// Every directory is a pack, with stickers or without.
pub proof fn law_every_directory_is_a_pack(root: Seq<RootEntry>, i: int)
    requires
        0 <= i < root.len(),
        root[i].is_dir,
    ensures
        packs_in(root).contains(
            (root[i].name@, sorted_by_name(stickers_in(root[i].entries@))),
        ),
{
    law_picked_is_there(root, i, |entry: RootEntry| pack_of(entry));
}

/// Every sticker file that decodes is in its pack.
pub proof fn law_every_good_file_is_a_sticker(entries: Seq<PackEntry>, i: int)
    requires
        0 <= i < entries.len(),
        entries[i].is_file,
        sticker_name(entries[i].file.name@),
        entries[i].file.as_sticker() is Ok,
    ensures
        stickers_in(entries).contains(
            (entries[i].file.name@, entries[i].file.as_sticker()->Ok_0),
        ),
{
    law_picked_is_there(entries, i, |entry: PackEntry| sticker_of(entry));
}

} // verus!
