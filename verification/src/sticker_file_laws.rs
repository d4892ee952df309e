//! Laws of sticker files and scans, stated over file names, what the decoders
//! give and what a listing holds.

use vstd::prelude::*;

use crate::order::{
    law_picked_has_an_origin, law_picked_is_there, law_sorting_sorts, precedes, sorted_by_name,
};
use crate::stickers::{
    all_wf, clamped, extension, extension_is, gif_decoded, gif_model, image_model, image_rgba,
    image_size, last_dot, load_model, pack_models, pack_of, packs_in, raw_models, same_but_case,
    small, still_decoded, still_model, sticker_models, sticker_name, sticker_of, stickers_in,
    ErrorModel, FramesModel, PackEntry, Picture, PictureModel, RawFrame, RawFrameModel, RootEntry,
    StickerError, StickerFile, StickerFrames, StickerPack,
};

verus! {

// ---- file names ----

proof fn lemma_last_dot_is(name: Seq<char>, at: int)
    requires
        0 <= at < name.len(),
        name[at] == '.',
        forall|j: int| at < j < name.len() ==> #[trigger] name[j] != '.',
    ensures
        last_dot(name) == at,
    decreases name.len(),
{
    if at < name.len() - 1 {
        assert(name[name.len() - 1] != '.');
        assert forall|j: int| at < j < name.len() - 1 implies #[trigger] name.drop_last()[j]
            != '.' by {
            assert(name[j] != '.');
        }
        lemma_last_dot_is(name.drop_last(), at);
    }
}

proof fn lemma_dotless(name: Seq<char>)
    requires
        forall|j: int| 0 <= j < name.len() ==> #[trigger] name[j] != '.',
    ensures
        last_dot(name) == -1,
    decreases name.len(),
{
    if name.len() > 0 {
        assert(name[name.len() - 1] != '.');
        assert forall|j: int| 0 <= j < name.len() - 1 implies #[trigger] name.drop_last()[j]
            != '.' by {
            assert(name[j] != '.');
        }
        lemma_dotless(name.drop_last());
    }
}

/// The extension of a name is what stands behind its last dot, however long
/// the parts before and behind it, as long as something stands before it.
pub proof fn law_extension_is_behind_the_last_dot(stem: Seq<char>, ext: Seq<char>)
    requires
        stem.len() > 0,
        forall|j: int| 0 <= j < ext.len() ==> #[trigger] ext[j] != '.',
        !(stem.len() == 1 && stem[0] == '.' && ext.len() == 0),
    ensures
        extension(stem.push('.') + ext) == Some(ext),
{
    let name = stem.push('.') + ext;
    assert(name[stem.len() as int] == '.');
    assert forall|j: int| stem.len() < j < name.len() implies #[trigger] name[j] != '.' by {
        assert(name[j] == ext[j - stem.len() - 1]);
    }
    lemma_last_dot_is(name, stem.len() as int);
    assert(name.skip(stem.len() as int + 1) =~= ext);
    if name == seq!['.', '.'] {
        assert(name.len() == 2);
        assert(name[0] == stem[0] && name[0] == '.');
        assert(false);
    }
}

/// A name without a dot, or whose only dot begins it, has no extension, and
/// neither has `..`.
pub proof fn law_name_without_an_inner_dot_has_no_extension(name: Seq<char>)
    requires
        (forall|j: int| 0 < j < name.len() ==> #[trigger] name[j] != '.') || (name.len() == 2
            && name[0] == '.' && name[1] == '.'),
    ensures
        extension(name) is None,
{
    if name.len() == 2 && name[0] == '.' && name[1] == '.' {
        assert(name =~= seq!['.', '.']);
    } else if name.len() > 0 && name[0] == '.' {
        lemma_last_dot_is(name, 0);
    } else {
        lemma_dotless(name);
    }
}

/// Two texts differ in case alone when they are as long and each character is
/// the same or the same ASCII letter in the other case.
pub proof fn law_case_is_that_of_ascii_letters(a: Seq<char>, b: Seq<char>)
    ensures
        same_but_case(a, b) <==> a.len() == b.len() && forall|i: int|
            0 <= i < a.len() ==> {
                ||| #[trigger] a[i] == b[i]
                ||| 'A' <= a[i] <= 'Z' && b[i] as int == a[i] as int + 32
                ||| 'A' <= b[i] <= 'Z' && a[i] as int == b[i] as int + 32
            },
{
    if same_but_case(a, b) {
        assert forall|i: int| 0 <= i < a.len() implies {
            ||| #[trigger] a[i] == b[i]
            ||| 'A' <= a[i] <= 'Z' && b[i] as int == a[i] as int + 32
            ||| 'A' <= b[i] <= 'Z' && a[i] as int == b[i] as int + 32
        } by {
            assert(small(a[i] as int) == small(b[i] as int));
        }
    }
}

/// A name has an extension when it has one and that differs from it in case
/// alone; a sticker's name has `gif` or `png`.
pub proof fn law_extension_is_tested_whole(name: Seq<char>, ext: Seq<char>)
    ensures
        extension(name) is None ==> !extension_is(name, ext),
        extension(name) matches Some(e) ==> extension_is(name, ext) == same_but_case(e, ext),
        sticker_name(name) == (extension_is(name, seq!['g', 'i', 'f']) || extension_is(
            name,
            seq!['p', 'n', 'g'],
        )),
{
    reveal_strlit("gif");
    reveal_strlit("png");
    assert("gif"@ =~= seq!['g', 'i', 'f']);
    assert("png"@ =~= seq!['p', 'n', 'g']);
}

// ---- loading ----

/// Whether a sticker is made of these decoded frames: as many, each with its
/// picture, and each shown for its own delay brought up to 20 ms or down to
/// 5000 ms.
pub open spec fn made_of(sticker: FramesModel, raw: Seq<RawFrameModel>) -> bool {
    &&& sticker.frames.len() == raw.len()
    &&& sticker.delays.len() == raw.len()
    &&& forall|i: int|
        0 <= i < raw.len() ==> {
            &&& sticker.frames[i] == (#[trigger] raw[i]).picture
            &&& raw[i].delay_ms <= 20 ==> sticker.delays[i] == 20
            &&& 20 <= raw[i].delay_ms <= 5000 ==> sticker.delays[i] == raw[i].delay_ms
            &&& raw[i].delay_ms >= 5000 ==> sticker.delays[i] == 5000
        }
}

/// Every file that was read and whose name ends in `.gif`, in any case, is what
/// the GIF decoder makes of its bytes, whatever their number: all frames that
/// were decoded, or the decoder's error, or an error when there are none.
pub proof fn law_gif_file_is_all_its_frames(
    file: StickerFile,
    stem: Seq<char>,
    ext: Seq<char>,
    bytes: Vec<u8>,
)
    requires
        stem.len() > 0,
        file.name@ == stem.push('.') + ext,
        ext.len() == 3,
        ext[0] == 'g' || ext[0] == 'G',
        ext[1] == 'i' || ext[1] == 'I',
        ext[2] == 'f' || ext[2] == 'F',
        file.content == Ok::<Vec<u8>, String>(bytes),
    ensures
        match gif_decoded(bytes@) {
            Ok(raw) => if raw.len() > 0 {
                file.as_sticker() matches Ok(sticker) && made_of(sticker, raw)
            } else {
                file.as_sticker() == Err::<FramesModel, ErrorModel>(
                    ErrorModel::Empty { path: file.path@ },
                )
            },
            Err(source) => file.as_sticker() == Err::<FramesModel, ErrorModel>(
                ErrorModel::Decode { path: file.path@, source },
            ),
        },
{
    law_extension_is_behind_the_last_dot(stem, ext);
    reveal_strlit("gif");
    assert forall|i: int| 0 <= i < 3 implies small(#[trigger] ext[i] as int) == small(
        "gif"@[i] as int,
    ) by {
        assert(i == 0 || i == 1 || i == 2);
    }
    assert(extension_is(file.name@, "gif"@));
}

/// A file whose name has another extension than `gif`, or none, is a still
/// image: what the still decoder makes of its name and bytes, as one frame of
/// the nominal delay, or the decoder's error.
pub proof fn law_other_file_is_one_still_frame(file: StickerFile, bytes: Vec<u8>)
    requires
        file.content == Ok::<Vec<u8>, String>(bytes),
        !extension_is(file.name@, seq!['g', 'i', 'f']),
        !extension_is(file.name@, Seq::empty()),
    ensures
        match still_decoded(file.name@, bytes@) {
            Ok(picture) => file.as_sticker() matches Ok(sticker) && sticker.frames == seq![picture]
                && sticker.delays == seq![100u64],
            Err(source) => file.as_sticker() == Err::<FramesModel, ErrorModel>(
                ErrorModel::Decode { path: file.path@, source },
            ),
        },
{
    reveal_strlit("gif");
    assert("gif"@ =~= seq!['g', 'i', 'f']);
}

/// Loaded as a still image, a file is what the still decoder makes of its name
/// and bytes, whatever the name's extension.
pub proof fn law_still_file_is_what_the_decoder_gives(file: StickerFile, bytes: Vec<u8>)
    requires
        file.content == Ok::<Vec<u8>, String>(bytes),
        !extension_is(file.name@, Seq::empty()),
    ensures
        match still_decoded(file.name@, bytes@) {
            Ok(picture) => file.as_still() matches Ok(sticker) && sticker.frames == seq![picture]
                && sticker.delays == seq![100u64],
            Err(source) => file.as_still() == Err::<FramesModel, ErrorModel>(
                ErrorModel::Decode { path: file.path@, source },
            ),
        },
{
}

/// A name that ends in a dot tells the still decoder no more than no name.
pub proof fn law_trailing_dot_tells_no_format(file: StickerFile, bytes: Vec<u8>, stem: Seq<char>)
    requires
        file.content == Ok::<Vec<u8>, String>(bytes),
        stem.len() > 0,
        file.name@ == stem.push('.'),
        !(stem.len() == 1 && stem[0] == '.'),
    ensures
        file.as_sticker() is Ok <==> still_decoded(Seq::empty(), bytes@) is Ok,
{
    law_extension_is_behind_the_last_dot(stem, Seq::empty());
    assert(stem.push('.') + Seq::<char>::empty() =~= stem.push('.'));
    reveal_strlit("gif");
}

/// A file that could not be read is that error, under its path, whatever its
/// name and however it is loaded.
pub proof fn law_unread_file_is_its_error(file: StickerFile, source: String)
    requires
        file.content == Err::<Vec<u8>, String>(source),
    ensures
        file.as_gif() == Err::<FramesModel, ErrorModel>(
            ErrorModel::Io { path: file.path@, source: source@ },
        ),
        file.as_still() == Err::<FramesModel, ErrorModel>(
            ErrorModel::Io { path: file.path@, source: source@ },
        ),
        file.as_sticker() == Err::<FramesModel, ErrorModel>(
            ErrorModel::Io { path: file.path@, source: source@ },
        ),
{
}

/// Loaded as a GIF, a file is what the GIF decoder makes of its bytes whatever
/// its name; loaded as a still image, it is one frame whatever its name.
pub proof fn law_name_does_not_bear_on_the_loader(file: StickerFile, bytes: Vec<u8>)
    requires
        file.content == Ok::<Vec<u8>, String>(bytes),
    ensures
        gif_decoded(bytes@) matches Ok(raw) ==> (raw.len() > 0 ==> (file.as_gif() matches Ok(
            sticker,
        ) && made_of(sticker, raw))),
        gif_decoded(bytes@) matches Err(source) ==> file.as_gif() == Err::<
            FramesModel,
            ErrorModel,
        >(ErrorModel::Decode { path: file.path@, source }),
        file.as_still() matches Ok(sticker) ==> sticker.frames.len() == 1 && sticker.delays
            == seq![100u64],
        file.as_gif() is Err ==> !(file.as_gif()->Err_0 is Io),
        file.as_still() is Err ==> file.as_still()->Err_0 is Decode,
{
}

/// A delay is brought up to 20 ms, down to 5000 ms, and else kept.
pub proof fn law_delay_bounds(ms: u64)
    ensures
        ms <= 20 ==> clamped(ms) == 20,
        20 <= ms <= 5000 ==> clamped(ms) == ms,
        ms >= 5000 ==> clamped(ms) == 5000,
{
}

/// The message of an error says what went wrong, then the file, then the
/// cause, each whole.
pub proof fn law_message_says_file_and_cause(path: Seq<char>, source: Seq<char>)
    ensures
        ({
            let n = path.len() as int;
            let io = (ErrorModel::Io { path, source }).message();
            let decode = (ErrorModel::Decode { path, source }).message();
            let empty = (ErrorModel::Empty { path }).message();
            &&& io.len() == 20 + path.len() + 2 + source.len()
            &&& io.take(20) == "cannot read sticker "@
            &&& io.subrange(20, 20 + n) == path
            &&& io.subrange(20 + n, 22 + n) == ": "@
            &&& io.skip(22 + n) == source
            &&& decode.len() == 22 + path.len() + 2 + source.len()
            &&& decode.take(22) == "cannot decode sticker "@
            &&& decode.subrange(22, 22 + n) == path
            &&& decode.subrange(22 + n, 24 + n) == ": "@
            &&& decode.skip(24 + n) == source
            &&& empty.len() == 8 + path.len() + 19
            &&& empty.take(8) == "sticker "@
            &&& empty.subrange(8, 8 + n) == path
            &&& empty.skip(8 + n) == " contains no frames"@
        }),
{
    reveal_strlit("cannot read sticker ");
    reveal_strlit("cannot decode sticker ");
    reveal_strlit("sticker ");
    reveal_strlit(": ");
    reveal_strlit(" contains no frames");
    let io = (ErrorModel::Io { path, source }).message();
    let decode = (ErrorModel::Decode { path, source }).message();
    let empty = (ErrorModel::Empty { path }).message();
    let n = path.len() as int;
    assert(io.take(20) =~= "cannot read sticker "@);
    assert(io.subrange(20, 20 + n) =~= path);
    assert(io.subrange(20 + n, 22 + n) =~= ": "@);
    assert(io.skip(22 + n) =~= source);
    assert(decode.take(22) =~= "cannot decode sticker "@);
    assert(decode.subrange(22, 22 + n) =~= path);
    assert(decode.subrange(22 + n, 24 + n) =~= ": "@);
    assert(decode.skip(24 + n) =~= source);
    assert(empty.take(8) =~= "sticker "@);
    assert(empty.subrange(8, 8 + n) =~= path);
    assert(empty.skip(8 + n) =~= " contains no frames"@);
}

// ---- what values say ----

/// Pictures, frames, stickers and images say what they hold, lists of them
/// each at its place.
pub proof fn law_pictures_say_what_they_hold(
    picture: Picture,
    frame: RawFrame,
    frames: Seq<RawFrame>,
    image: slint::Image,
    sticker: StickerFrames,
    i: int,
)
    ensures
        picture@.width == picture.width,
        picture@.height == picture.height,
        picture@.rgba == picture.rgba@,
        frame@.picture == frame.picture@,
        frame@.delay_ms == frame.delay_ms,
        raw_models(frames).len() == frames.len(),
        0 <= i < frames.len() ==> raw_models(frames)[i] == frames[i]@,
        image_model(image).rgba == image_rgba(image),
        image_model(image).width == image_size(image).0,
        image_model(image).height == image_size(image).1,
        sticker@.delays == sticker.delays@,
        sticker@.frames.len() == sticker.frames@.len(),
        0 <= i < sticker.frames@.len() ==> sticker@.frames[i] == image_model(sticker.frames@[i]),
{
}

/// Errors and the outcomes of decoding and loading say what they hold.
pub proof fn law_outcomes_say_what_they_hold(
    error: StickerError,
    sticker: StickerFrames,
    frames: Vec<RawFrame>,
    picture: Picture,
    text: String,
)
    ensures
        error matches StickerError::Io { path, source } ==> error@ == (ErrorModel::Io {
            path: path@,
            source: source@,
        }),
        error matches StickerError::Decode { path, source } ==> error@ == (ErrorModel::Decode {
            path: path@,
            source: source@,
        }),
        error matches StickerError::Empty { path } ==> error@ == (ErrorModel::Empty {
            path: path@,
        }),
        load_model(Ok(sticker)) == Ok::<FramesModel, ErrorModel>(sticker@),
        load_model(Err(error)) == Err::<FramesModel, ErrorModel>(error@),
        gif_model(Ok(frames)) == Ok::<Seq<RawFrameModel>, Seq<char>>(raw_models(frames@)),
        gif_model(Err(text)) == Err::<Seq<RawFrameModel>, Seq<char>>(text@),
        still_model(Ok(picture)) == Ok::<PictureModel, Seq<char>>(picture@),
        still_model(Err(text)) == Err::<PictureModel, Seq<char>>(text@),
{
}

/// A decoded picture is whole when it has four bytes for each pixel.
pub proof fn law_whole_picture_has_four_bytes_a_pixel(
    frames: Seq<RawFrameModel>,
    picture: PictureModel,
)
    ensures
        picture.wf() <==> picture.rgba.len() == 4 * (picture.width * picture.height),
        all_wf(frames) <==> forall|i: int|
            0 <= i < frames.len() ==> (#[trigger] frames[i]).picture.rgba.len() == 4 * (
            frames[i].picture.width * frames[i].picture.height),
{
    if all_wf(frames) {
        assert forall|i: int| 0 <= i < frames.len() implies (
        #[trigger] frames[i]).picture.rgba.len() == 4 * (frames[i].picture.width
            * frames[i].picture.height) by {
            assert(frames[i].picture.wf());
        }
    }
}

// ---- scanning ----

/// An entry of a pack's directory is a sticker exactly when it is a regular
/// file with a sticker's name that loads, and then under its own file name and
/// as it was loaded.
pub proof fn law_sticker_is_a_file_that_loads(entry: PackEntry)
    ensures
        sticker_of(entry) is Some <==> entry.is_file && sticker_name(entry.file.name@)
            && entry.file.as_sticker() is Ok,
        sticker_of(entry) matches Some((name, frames)) ==> name == entry.file.name@
            && entry.file.as_sticker() == Ok::<FramesModel, ErrorModel>(frames),
{
}

/// One more entry in the listing of a directory adds its sticker, or nothing
/// when it is none; an empty directory holds no stickers.
pub proof fn law_each_file_adds_its_sticker(entries: Seq<PackEntry>, entry: PackEntry)
    ensures
        stickers_in(Seq::empty()).len() == 0,
        sticker_of(entry) matches Some(sticker) ==> stickers_in(entries.push(entry))
            == stickers_in(entries).push(sticker),
        sticker_of(entry) is None ==> stickers_in(entries.push(entry)) == stickers_in(entries),
{
    let pick = |entry: PackEntry| sticker_of(entry);
    assert(entries.push(entry).drop_last() =~= entries);
    assert(entries.push(entry).last() == entry);
    assert(pick(entry) == sticker_of(entry));
}

/// An entry of the root is a pack exactly when it is a directory, under its own
/// name, with the stickers of its listing put in order.
pub proof fn law_pack_is_a_directory(entry: RootEntry)
    ensures
        pack_of(entry) is Some <==> entry.is_dir,
        pack_of(entry) matches Some((name, stickers)) ==> {
            &&& name == entry.name@
            &&& stickers.to_multiset() == stickers_in(entry.entries@).to_multiset()
            &&& forall|i: int, j: int|
                0 <= i < j < stickers.len() ==> !precedes(
                    (#[trigger] stickers[j]).0,
                    (#[trigger] stickers[i]).0,
                )
        },
{
    law_sorting_sorts(stickers_in(entry.entries@));
}

/// One more entry in the listing of the root adds its pack, or nothing when it
/// is none; an empty root holds no packs.
pub proof fn law_each_directory_adds_its_pack(entries: Seq<RootEntry>, entry: RootEntry)
    ensures
        packs_in(Seq::empty()).len() == 0,
        pack_of(entry) matches Some(pack) ==> packs_in(entries.push(entry)) == packs_in(
            entries,
        ).push(pack),
        pack_of(entry) is None ==> packs_in(entries.push(entry)) == packs_in(entries),
{
    let pick = |entry: RootEntry| pack_of(entry);
    assert(entries.push(entry).drop_last() =~= entries);
    assert(entries.push(entry).last() == entry);
    assert(pick(entry) == pack_of(entry));
}

/// A scan holds every directory of the root as a pack, under its name and with
/// the stickers of its files, and its packs are in the order of their names.
pub proof fn law_scan_holds_every_directory(root: Seq<RootEntry>, i: int)
    requires
        0 <= i < root.len(),
        root[i].is_dir,
    ensures
        ({
            let scan = sorted_by_name(packs_in(root));
            &&& scan.to_multiset() == packs_in(root).to_multiset()
            &&& forall|a: int, b: int|
                0 <= a < b < scan.len() ==> !precedes(
                    (#[trigger] scan[b]).0,
                    (#[trigger] scan[a]).0,
                )
            &&& exists|k: int|
                0 <= k < scan.len() && (#[trigger] scan[k]).0 == root[i].name@
                    && scan[k].1.to_multiset() == stickers_in(root[i].entries@).to_multiset()
        }),
{
    broadcast use vstd::seq_lib::group_to_multiset_ensures;

    let packs = packs_in(root);
    let scan = sorted_by_name(packs);
    law_sorting_sorts(packs);
    let pick = |entry: RootEntry| pack_of(entry);
    law_picked_is_there(root, i, pick);
    let pack = pack_of(root[i])->0;
    assert(pick(root[i]) == Some(pack));
    assert(packs.contains(pack));
    assert(packs.to_multiset().count(pack) > 0);
    assert(scan.to_multiset().count(pack) > 0);
    assert(scan.contains(pack));
    let k = choose|k: int| 0 <= k < scan.len() && scan[k] == pack;
    law_sorting_sorts(stickers_in(root[i].entries@));
    assert(scan[k].0 == root[i].name@);
}

/// Every sticker of a scan is the content of a regular file with a sticker's
/// name, loaded by that name.
pub proof fn law_every_sticker_has_a_file(entries: Seq<PackEntry>, j: int)
    requires
        0 <= j < stickers_in(entries).len(),
    ensures
        exists|i: int|
            0 <= i < entries.len() && (#[trigger] entries[i]).is_file && sticker_name(
                entries[i].file.name@,
            ) && stickers_in(entries)[j].0 == entries[i].file.name@ && entries[i].file.as_sticker()
                == Ok::<FramesModel, ErrorModel>(stickers_in(entries)[j].1),
{
    let pick = |entry: PackEntry| sticker_of(entry);
    law_picked_has_an_origin(entries, j, pick);
    let i = choose|i: int|
        0 <= i < entries.len() && pick(#[trigger] entries[i]) == Some(stickers_in(entries)[j]);
    assert(sticker_of(entries[i]) == Some(stickers_in(entries)[j]));
}

/// Stickers and packs say what they hold, each at its place.
pub proof fn law_packs_say_what_they_hold(
    stickers: Seq<(String, StickerFrames)>,
    packs: Seq<StickerPack>,
    i: int,
)
    ensures
        sticker_models(stickers).len() == stickers.len(),
        0 <= i < stickers.len() ==> sticker_models(stickers)[i].0 == stickers[i].0@
            && sticker_models(stickers)[i].1 == stickers[i].1@,
        pack_models(packs).len() == packs.len(),
        0 <= i < packs.len() ==> pack_models(packs)[i].0 == packs[i].name@ && pack_models(
            packs,
        )[i].1 == sticker_models(packs[i].stickers@),
{
}

} // verus!
