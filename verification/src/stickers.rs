//! Local sticker-pack layer: decoded frames for the UI's frame player, and
//! the packs that a directory listing makes.
//!
//! Slint has no native GIF animation, so frames are decoded with `image` and
//! swapped by a timer. Files are read by the caller; this module gets what
//! was read and never touches any Slint component state.
//!
//! On-disk layout for [`scan_packs`]: every sub-directory of the root is a
//! pack, every `*.gif` / `*.png` file inside it is one sticker, e.g.
//! `assets/stickers/pepe/wave.gif`. A PNG (or any single-frame file) is a
//! perfectly valid static sticker.

use vstd::prelude::*;

use crate::order::{
    comes_before, lemma_place_is, picked, place_for, precedes, sorted_by_name,
};
use crate::text::{char_code, chars_of};

verus! {

/// Lower clamp for per-frame delay (ms): a shorter timer tick would just spin
/// the event loop.
pub const MIN_DELAY_MS: u64 = 20;

/// Upper clamp for per-frame delay (ms): beyond this the animation is treated
/// as broken/frozen rather than slow.
pub const MAX_DELAY_MS: u64 = 5000;

/// Nominal delay reported for a static single-frame sticker. Consumers must
/// not start an animation timer when `frames.len() == 1`, so this value is
/// never actually displayed; it exists so `delays.len() == frames.len()`
/// always holds.
pub const STATIC_DELAY_MS: u64 = 100;

// ---- errors ----

/// Failure to load one sticker file.
#[derive(Debug)]
pub enum StickerError {
    /// The file could not be opened or read (missing, denied, I/O failure).
    Io {
        /// File that could not be read.
        path: String,
        /// What the I/O error says.
        source: String,
    },
    /// The file was readable but is not a decodable image (bad header,
    /// truncated stream, unsupported format).
    Decode {
        /// File that could not be decoded.
        path: String,
        /// What the decoder error says.
        source: String,
    },
    /// The container parsed but yielded zero frames.
    Empty {
        /// File that contained no frames.
        path: String,
    },
}

/// What a [`StickerError`] says.
#[verifier::ext_equal]
pub enum ErrorModel {
    Io { path: Seq<char>, source: Seq<char> },
    Decode { path: Seq<char>, source: Seq<char> },
    Empty { path: Seq<char> },
}

impl View for StickerError {
    type V = ErrorModel;

    open spec fn view(&self) -> ErrorModel {
        match *self {
            StickerError::Io { path, source } => ErrorModel::Io { path: path@, source: source@ },
            StickerError::Decode { path, source } => ErrorModel::Decode {
                path: path@,
                source: source@,
            },
            StickerError::Empty { path } => ErrorModel::Empty { path: path@ },
        }
    }
}

impl ErrorModel {
    /// The message of the error.
    pub open spec fn message(self) -> Seq<char> {
        match self {
            ErrorModel::Io { path, source } => "cannot read sticker "@ + path + ": "@ + source,
            ErrorModel::Decode { path, source } => "cannot decode sticker "@ + path + ": "@
                + source,
            ErrorModel::Empty { path } => "sticker "@ + path + " contains no frames"@,
        }
    }

    /// The file that the error is about.
    pub open spec fn path(self) -> Seq<char> {
        match self {
            ErrorModel::Io { path, source } => path,
            ErrorModel::Decode { path, source } => path,
            ErrorModel::Empty { path } => path,
        }
    }
}

impl StickerError {
    /// The message of the error, which names the file.
    pub fn to_string(&self) -> (out: String)
        ensures
            out@ == self@.message(),
    {
        match self {
            StickerError::Io { path, source } => {
                let mut out = "cannot read sticker ".to_owned();
                out.append(path.as_str());
                out.append(": ");
                out.append(source.as_str());
                out
            },
            StickerError::Decode { path, source } => {
                let mut out = "cannot decode sticker ".to_owned();
                out.append(path.as_str());
                out.append(": ");
                out.append(source.as_str());
                out
            },
            StickerError::Empty { path } => {
                let mut out = "sticker ".to_owned();
                out.append(path.as_str());
                out.append(" contains no frames");
                out
            },
        }
    }

    /// What the underlying error says, if there is one.
    pub fn source(&self) -> (out: Option<&str>)
        ensures
            match self@ {
                ErrorModel::Io { path, source } => out matches Some(s) && s@ == source,
                ErrorModel::Decode { path, source } => out matches Some(s) && s@ == source,
                ErrorModel::Empty { path } => out is None,
            },
    {
        match self {
            StickerError::Io { path: _, source } => Some(source.as_str()),
            StickerError::Decode { path: _, source } => Some(source.as_str()),
            StickerError::Empty { path: _ } => None,
        }
    }
}

// ---- pictures ----

/// One decoded picture: RGBA, straight alpha, row by row.
#[derive(Debug)]
pub struct Picture {
    pub width: u32,
    pub height: u32,
    pub rgba: Vec<u8>,
}

/// What a [`Picture`] shows.
#[verifier::ext_equal]
pub struct PictureModel {
    pub width: u32,
    pub height: u32,
    pub rgba: Seq<u8>,
}

impl PictureModel {
    /// Four bytes for each pixel.
    pub open spec fn wf(self) -> bool {
        self.rgba.len() == 4 * (self.width * self.height)
    }
}

impl View for Picture {
    type V = PictureModel;

    open spec fn view(&self) -> PictureModel {
        PictureModel { width: self.width, height: self.height, rgba: self.rgba@ }
    }
}

/// One decoded animation frame: a complete picture and how long it is shown,
/// as the file has it.
#[derive(Debug)]
pub struct RawFrame {
    pub picture: Picture,
    pub delay_ms: u64,
}

/// What a [`RawFrame`] says.
#[verifier::ext_equal]
pub struct RawFrameModel {
    pub picture: PictureModel,
    pub delay_ms: u64,
}

impl View for RawFrame {
    type V = RawFrameModel;

    open spec fn view(&self) -> RawFrameModel {
        RawFrameModel { picture: self.picture@, delay_ms: self.delay_ms }
    }
}

/// What a list of frames says, in order.
pub open spec fn raw_models(frames: Seq<RawFrame>) -> Seq<RawFrameModel> {
    frames.map_values(|f: RawFrame| f@)
}

/// Whether every picture has four bytes for each pixel.
pub open spec fn all_wf(frames: Seq<RawFrameModel>) -> bool {
    forall|i: int| 0 <= i < frames.len() ==> (#[trigger] frames[i]).picture.wf()
}

// ---- the outside image ----

/// The image type of `slint`.
#[verifier::external_type_specification]
#[verifier::external_body]
pub struct ExImage(slint::Image);

/// The bytes of the pixels that a `slint::Image` holds.
pub uninterp spec fn image_rgba(image: slint::Image) -> Seq<u8>;

/// The width and height of a `slint::Image`.
pub uninterp spec fn image_size(image: slint::Image) -> (u32, u32);

/// What a `slint::Image` shows.
pub open spec fn image_model(image: slint::Image) -> PictureModel {
    PictureModel {
        width: image_size(image).0,
        height: image_size(image).1,
        rgba: image_rgba(image),
    }
}

/// `slint::Image::from_rgba8` on a `slint::SharedPixelBuffer` cloned from the
/// bytes: an image of that size that holds those pixels, straight alpha.
#[verifier::external_body]
fn to_slint_image(picture: &Picture) -> (image: slint::Image)
    requires
        picture@.wf(),
    ensures
        image_rgba(image) == picture.rgba@,
        image_size(image) == (picture.width, picture.height),
{
    let shared = slint::SharedPixelBuffer::<slint::Rgba8Pixel>::clone_from_slice(
        picture.rgba.as_slice(),
        picture.width,
        picture.height,
    );
    slint::Image::from_rgba8(shared)
}

// ---- decoding ----

/// What the GIF decoder of `image` makes of some bytes: all frames in playback
/// order, or what the first error says.
pub uninterp spec fn gif_decoded(bytes: Seq<u8>) -> Result<Seq<RawFrameModel>, Seq<char>>;

/// What a decoding of a GIF says.
pub open spec fn gif_model(raw: Result<Vec<RawFrame>, String>) -> Result<
    Seq<RawFrameModel>,
    Seq<char>,
> {
    match raw {
        Ok(frames) => Ok(raw_models(frames@)),
        Err(text) => Err(text@),
    }
}

/// `image::codecs::gif::GifDecoder` over the bytes, its frames collected. The
/// frame iterator composes each frame into a complete RGBA buffer of the
/// screen's size, four bytes for each pixel; the delay is the frame's
/// `Duration` in whole milliseconds. The outcome depends on the bytes alone.
#[verifier::external_body]
fn decode_gif(bytes: &[u8]) -> (raw: Result<Vec<RawFrame>, String>)
    ensures
        gif_model(raw) == gif_decoded(bytes@),
        raw matches Ok(frames) ==> all_wf(raw_models(frames@)),
{
    let decoder = image::codecs::gif::GifDecoder::new(std::io::Cursor::new(bytes));
    match decoder.and_then(|d| image::AnimationDecoder::into_frames(d).collect_frames()) {
        Ok(frames) => Ok(frames.into_iter().map(|frame| {
            let delay_ms = std::time::Duration::from(frame.delay()).as_millis() as u64;
            let buffer = frame.into_buffer();
            let (width, height) = buffer.dimensions();
            RawFrame { picture: Picture { width, height, rgba: buffer.into_raw() }, delay_ms }
        }).collect()),
        Err(e) => Err(e.to_string()),
    }
}

/// What `image` makes of a file's name and bytes: the picture, or what the
/// error says.
pub uninterp spec fn still_decoded(name: Seq<char>, bytes: Seq<u8>) -> Result<
    PictureModel,
    Seq<char>,
>;

/// What a decoding of a still image says.
pub open spec fn still_model(raw: Result<Picture, String>) -> Result<PictureModel, Seq<char>> {
    match raw {
        Ok(picture) => Ok(picture@),
        Err(text) => Err(text@),
    }
}

/// `image::load_from_memory_with_format` with the format that
/// `ImageFormat::from_path` takes from the file name's extension, then
/// `into_rgba8`: the picture, four bytes for each pixel, or what the error
/// says. The outcome depends on the name and the bytes alone.
#[verifier::external_body]
fn decode_still(name: &str, bytes: &[u8]) -> (raw: Result<Picture, String>)
    ensures
        still_model(raw) == still_decoded(name@, bytes@),
        raw matches Ok(picture) ==> picture@.wf(),
{
    let image = image::ImageFormat::from_path(name).and_then(
        |format| image::load_from_memory_with_format(bytes, format),
    );
    match image {
        Ok(image) => {
            let buffer = image.into_rgba8();
            let (width, height) = buffer.dimensions();
            Ok(Picture { width, height, rgba: buffer.into_raw() })
        },
        Err(e) => Err(e.to_string()),
    }
}

// ---- stickers ----

/// All decoded frames of one sticker, ready for the UI's frame player.
///
/// `frames` and `delays` are the same length; `delays[i]` is how long
/// `frames[i]` should be displayed, already clamped to 20..=5000 ms. A static
/// sticker is one frame, not an error.
#[derive(Debug, Clone)]
pub struct StickerFrames {
    /// Frames in playback order (RGBA, straight alpha).
    pub frames: Vec<slint::Image>,
    /// Per-frame display duration in ms, clamped to 20..=5000.
    pub delays: Vec<u64>,
}

/// What [`StickerFrames`] show.
#[verifier::ext_equal]
pub struct FramesModel {
    pub frames: Seq<PictureModel>,
    pub delays: Seq<u64>,
}

impl FramesModel {
    /// At least one frame, a delay for each, and each delay within bounds.
    pub open spec fn wf(self) -> bool {
        &&& self.frames.len() > 0
        &&& self.frames.len() == self.delays.len()
        &&& forall|i: int|
            0 <= i < self.delays.len() ==> MIN_DELAY_MS <= #[trigger] self.delays[i]
                <= MAX_DELAY_MS
    }
}

/// What a list of images shows, in order.
pub open spec fn image_models(images: Seq<slint::Image>) -> Seq<PictureModel> {
    images.map_values(|image: slint::Image| image_model(image))
}

impl View for StickerFrames {
    type V = FramesModel;

    open spec fn view(&self) -> FramesModel {
        FramesModel { frames: image_models(self.frames@), delays: self.delays@ }
    }
}

/// What a load says.
pub open spec fn load_model(out: Result<StickerFrames, StickerError>) -> Result<
    FramesModel,
    ErrorModel,
> {
    match out {
        Ok(frames) => Ok(frames@),
        Err(e) => Err(e@),
    }
}

/// A delay brought within bounds.
pub open spec fn clamped(ms: u64) -> u64 {
    if ms < MIN_DELAY_MS {
        MIN_DELAY_MS
    } else if ms > MAX_DELAY_MS {
        MAX_DELAY_MS
    } else {
        ms
    }
}

/// The sticker that the frames of a GIF make: an error as it is, none at all
/// is an error too, and else every frame with its delay brought within bounds.
pub open spec fn animated(path: Seq<char>, raw: Result<Seq<RawFrameModel>, Seq<char>>) -> Result<
    FramesModel,
    ErrorModel,
> {
    match raw {
        Err(source) => Err(ErrorModel::Decode { path, source }),
        Ok(frames) => if frames.len() == 0 {
            Err(ErrorModel::Empty { path })
        } else {
            Ok(
                FramesModel {
                    frames: frames.map_values(|f: RawFrameModel| f.picture),
                    delays: frames.map_values(|f: RawFrameModel| clamped(f.delay_ms)),
                },
            )
        },
    }
}

/// Turn the decoded frames of a GIF into a sticker.
pub fn animated_sticker(path: &str, raw: Result<Vec<RawFrame>, String>) -> (out: Result<
    StickerFrames,
    StickerError,
>)
    requires
        raw matches Ok(frames) ==> all_wf(raw_models(frames@)),
    ensures
        load_model(out) == animated(path@, gif_model(raw)),
        out matches Ok(sticker) ==> sticker@.wf(),
{
    match raw {
        Err(source) => Err(StickerError::Decode { path: path.to_owned(), source }),
        Ok(list) => {
            let ghost models = raw_models(list@);
            let mut frames: Vec<slint::Image> = Vec::new();
            let mut delays: Vec<u64> = Vec::new();
            for i in 0..list.len()
                invariant
                    models == raw_models(list@),
                    all_wf(models),
                    frames@.len() == i,
                    delays@.len() == i,
                    forall|j: int|
                        0 <= j < i ==> image_model(#[trigger] frames@[j]) == models[j].picture,
                    forall|j: int|
                        0 <= j < i ==> #[trigger] delays@[j] == clamped(models[j].delay_ms),
            {
                assert(models[i as int] == list@[i as int]@);
                let ms: u64 = list[i].delay_ms;
                frames.push(to_slint_image(&list[i].picture));
                delays.push(
                    if ms < MIN_DELAY_MS {
                        MIN_DELAY_MS
                    } else if ms > MAX_DELAY_MS {
                        MAX_DELAY_MS
                    } else {
                        ms
                    },
                );
            }
            if frames.len() == 0 {
                return Err(StickerError::Empty { path: path.to_owned() });
            }
            proof {
                assert(image_models(frames@) =~= models.map_values(|f: RawFrameModel| f.picture));
                assert(delays@ =~= models.map_values(|f: RawFrameModel| clamped(f.delay_ms)));
            }
            Ok(StickerFrames { frames, delays })
        },
    }
}

/// The sticker that a still image makes: one frame, under the nominal delay.
/// Data that were read and do not decode, cut short or otherwise broken, are a
/// decoding error.
pub open spec fn still(path: Seq<char>, raw: Result<PictureModel, Seq<char>>) -> Result<
    FramesModel,
    ErrorModel,
> {
    match raw {
        Ok(picture) => Ok(FramesModel { frames: seq![picture], delays: seq![STATIC_DELAY_MS] }),
        Err(source) => Err(ErrorModel::Decode { path, source }),
    }
}

/// Turn a decoded still image into a one-frame sticker.
pub fn still_sticker(path: &str, raw: Result<Picture, String>) -> (out: Result<
    StickerFrames,
    StickerError,
>)
    requires
        raw matches Ok(picture) ==> picture@.wf(),
    ensures
        load_model(out) == still(path@, still_model(raw)),
        out matches Ok(sticker) ==> sticker@.wf(),
{
    match raw {
        Ok(picture) => {
            let mut frames: Vec<slint::Image> = Vec::new();
            frames.push(to_slint_image(&picture));
            let mut delays: Vec<u64> = Vec::new();
            delays.push(STATIC_DELAY_MS);
            proof {
                assert(image_models(frames@) =~= seq![picture@]);
                assert(delays@ =~= seq![STATIC_DELAY_MS]);
            }
            Ok(StickerFrames { frames, delays })
        },
        Err(source) => Err(StickerError::Decode { path: path.to_owned(), source }),
    }
}

/// A sticker file as the caller found it: its path for messages, its file
/// name, and its bytes or what the I/O error says.
#[derive(Debug)]
pub struct StickerFile {
    pub path: String,
    pub name: String,
    pub content: Result<Vec<u8>, String>,
}

/// The name that tells the format of a still image: the file's name, or an
/// empty one when nothing follows its last dot.
pub open spec fn format_name(name: Seq<char>) -> Seq<char> {
    if extension_is(name, Seq::empty()) {
        Seq::empty()
    } else {
        name
    }
}

impl StickerFile {
    /// What loading the file as a GIF gives.
    pub open spec fn as_gif(self) -> Result<FramesModel, ErrorModel> {
        match self.content {
            Ok(bytes) => animated(self.path@, gif_decoded(bytes@)),
            Err(source) => Err(ErrorModel::Io { path: self.path@, source: source@ }),
        }
    }

    /// What loading the file as a still image gives.
    pub open spec fn as_still(self) -> Result<FramesModel, ErrorModel> {
        match self.content {
            Ok(bytes) => still(self.path@, still_decoded(format_name(self.name@), bytes@)),
            Err(source) => Err(ErrorModel::Io { path: self.path@, source: source@ }),
        }
    }

    /// What loading the file by its name gives.
    pub open spec fn as_sticker(self) -> Result<FramesModel, ErrorModel> {
        if extension_is(self.name@, "gif"@) {
            self.as_gif()
        } else {
            self.as_still()
        }
    }
}

/// Decode every frame of an animated GIF into Slint images.
///
/// Compositing/disposal is handled by the `image` crate's frame iterator, so
/// each frame is a complete RGBA buffer. A single-frame GIF yields one frame
/// (a valid static sticker).
///
/// Errors: [`StickerError::Io`] when the file could not be read,
/// [`StickerError::Decode`] on a broken or truncated GIF,
/// [`StickerError::Empty`] when it parses but contains zero frames.
pub fn load_gif(file: &StickerFile) -> (out: Result<StickerFrames, StickerError>)
    ensures
        load_model(out) == file.as_gif(),
        out matches Ok(sticker) ==> sticker@.wf(),
{
    match &file.content {
        Ok(bytes) => animated_sticker(file.path.as_str(), decode_gif(bytes.as_slice())),
        Err(source) => Err(
            StickerError::Io { path: file.path.clone(), source: source.clone() },
        ),
    }
}

/// Decode a static image (PNG etc.) as a one-frame sticker.
///
/// Errors: [`StickerError::Io`] when the file could not be read,
/// [`StickerError::Decode`] when it was read and is no image that decodes.
pub fn load_still(file: &StickerFile) -> (out: Result<StickerFrames, StickerError>)
    ensures
        load_model(out) == file.as_still(),
        out matches Ok(sticker) ==> sticker@.wf(),
{
    match &file.content {
        Ok(bytes) => {
            proof {
                reveal_strlit("");
                assert(""@ =~= Seq::<char>::empty());
            }
            let name = if has_extension(file.name.as_str(), "") {
                ""
            } else {
                file.name.as_str()
            };
            still_sticker(file.path.as_str(), decode_still(name, bytes.as_slice()))
        },
        Err(source) => Err(
            StickerError::Io { path: file.path.clone(), source: source.clone() },
        ),
    }
}

/// Load any sticker file: `*.gif` goes through [`load_gif`] (animated),
/// everything else is decoded as a static single-frame image.
///
/// Errors as per [`load_gif`], plus [`StickerError::Decode`] for unknown or
/// unsupported formats.
pub fn load_sticker(file: &StickerFile) -> (out: Result<StickerFrames, StickerError>)
    ensures
        load_model(out) == file.as_sticker(),
        out matches Ok(sticker) ==> sticker@.wf(),
{
    if has_extension(file.name.as_str(), "gif") {
        load_gif(file)
    } else {
        load_still(file)
    }
}

// ---- file names ----

/// Where the last dot of a name stands; -1 when there is none.
pub open spec fn last_dot(name: Seq<char>) -> int
    decreases name.len(),
{
    if name.len() == 0 {
        -1
    } else if name.last() == '.' {
        name.len() - 1
    } else {
        last_dot(name.drop_last())
    }
}

/// The extension of a file name: what follows its last dot, unless that dot
/// begins the name. `..` is no file name and has none.
pub open spec fn extension(name: Seq<char>) -> Option<Seq<char>> {
    if last_dot(name) <= 0 || name == seq!['.', '.'] {
        None
    } else {
        Some(name.skip(last_dot(name) + 1))
    }
}

/// A code point with ASCII capitals made small.
pub open spec fn small(code: int) -> int {
    if 65 <= code <= 90 {
        code + 32
    } else {
        code
    }
}

/// Whether two texts are the same but for the case of ASCII letters.
pub open spec fn same_but_case(a: Seq<char>, b: Seq<char>) -> bool {
    &&& a.len() == b.len()
    &&& forall|i: int| 0 <= i < a.len() ==> small(#[trigger] a[i] as int) == small(b[i] as int)
}

/// Whether a file name has this extension, whatever the case.
pub open spec fn extension_is(name: Seq<char>, ext: Seq<char>) -> bool {
    extension(name) matches Some(e) && same_but_case(e, ext)
}

fn small_code(c: char) -> (code: u32)
    ensures
        code == small(c as int),
{
    let code: u32 = char_code(c);
    if 65 <= code && code <= 90 {
        code + 32
    } else {
        code
    }
}

proof fn lemma_last_dot(name: Seq<char>, i: int)
    requires
        0 <= i < name.len(),
        name[i] == '.',
        forall|j: int| i < j < name.len() ==> name[j] != '.',
    ensures
        last_dot(name) == i,
    decreases name.len(),
{
    if i < name.len() - 1 {
        assert(name.drop_last()[i] == name[i]);
        lemma_last_dot(name.drop_last(), i);
    }
}

proof fn lemma_no_dot(name: Seq<char>)
    requires
        forall|j: int| 0 <= j < name.len() ==> name[j] != '.',
    ensures
        last_dot(name) == -1,
    decreases name.len(),
{
    if name.len() > 0 {
        lemma_no_dot(name.drop_last());
    }
}

/// Case-insensitive extension test on a file name, without directories.
pub fn has_extension(name: &str, ext: &str) -> (out: bool)
    ensures
        out == extension_is(name@, ext@),
{
    let chars = chars_of(name);
    let wanted = chars_of(ext);
    let mut dot: usize = chars.len();
    while dot > 0 && chars[dot - 1] != '.'
        invariant
            chars@ == name@,
            dot <= chars@.len(),
            forall|j: int| dot <= j < chars@.len() ==> chars@[j] != '.',
        decreases dot,
    {
        dot -= 1;
    }
    if dot == 0 {
        proof {
            lemma_no_dot(name@);
        }
        return false;
    }
    proof {
        lemma_last_dot(name@, dot - 1);
    }
    if dot == 1 || (chars.len() == 2 && chars[0] == '.' && chars[1] == '.') {
        proof {
            if dot != 1 {
                assert(name@ =~= seq!['.', '.']);
            }
        }
        return false;
    }
    let ghost tail = name@.skip(dot as int);
    assert(name@ != seq!['.', '.']) by {
        if name@ == seq!['.', '.'] {
            assert(chars@[0] == '.' && chars@[1] == '.');
        }
    }
    let total: usize = chars.len();
    if total - dot != wanted.len() {
        return false;
    }
    for i in 0..wanted.len()
        invariant
            total == chars@.len(),
            chars@ == name@,
            wanted@ == ext@,
            dot + wanted@.len() == chars@.len(),
            tail == name@.skip(dot as int),
            extension(name@) == Some(tail),
            forall|j: int| 0 <= j < i ==> small(#[trigger] tail[j] as int) == small(ext@[j] as int),
    {
        assert(tail[i as int] == chars@[dot + i]);
        if small_code(chars[dot + i]) != small_code(wanted[i]) {
            assert(small(tail[i as int] as int) != small(ext@[i as int] as int));
            return false;
        }
    }
    true
}

/// Whether the file name looks like a sticker.
pub open spec fn sticker_name(name: Seq<char>) -> bool {
    extension_is(name, "gif"@) || extension_is(name, "png"@)
}

/// Whether the file name looks like a sticker (`.gif` / `.png`).
pub fn is_sticker_file(name: &str) -> (out: bool)
    ensures
        out == sticker_name(name@),
{
    has_extension(name, "gif") || has_extension(name, "png")
}

// ---- packs ----

/// A named directory of stickers, i.e. one sub-directory of the scan root.
#[derive(Debug, Clone)]
pub struct StickerPack {
    /// Pack name: the directory's file name, e.g. `"pepe"`.
    pub name: String,
    /// Stickers sorted by file name; each key is the file name, e.g.
    /// `"wave.gif"`.
    pub stickers: Vec<(String, StickerFrames)>,
}

/// An entry of a sub-directory, as the caller found it.
#[derive(Debug)]
pub struct PackEntry {
    /// Whether the entry is a regular file.
    pub is_file: bool,
    pub file: StickerFile,
}

/// An entry of the scan root, as the caller found it.
#[derive(Debug)]
pub struct RootEntry {
    pub name: String,
    pub is_dir: bool,
    /// What the directory holds; nothing when it could not be read.
    pub entries: Vec<PackEntry>,
}

/// A list of named stickers.
pub open spec fn sticker_models(stickers: Seq<(String, StickerFrames)>) -> Seq<
    (Seq<char>, FramesModel),
> {
    stickers.map_values(|s: (String, StickerFrames)| (s.0@, s.1@))
}

/// A list of named packs.
pub open spec fn pack_models(packs: Seq<StickerPack>) -> Seq<
    (Seq<char>, Seq<(Seq<char>, FramesModel)>),
> {
    packs.map_values(|p: StickerPack| (p.name@, sticker_models(p.stickers@)))
}

/// The sticker that an entry of a pack's directory makes: a regular file with
/// a sticker's name that decodes, under its file name.
pub open spec fn sticker_of(entry: PackEntry) -> Option<(Seq<char>, FramesModel)> {
    if entry.is_file && sticker_name(entry.file.name@) && entry.file.as_sticker() is Ok {
        Some((entry.file.name@, entry.file.as_sticker()->Ok_0))
    } else {
        None
    }
}

/// The stickers of one directory, as listed.
pub open spec fn stickers_in(entries: Seq<PackEntry>) -> Seq<(Seq<char>, FramesModel)> {
    picked(entries, |entry: PackEntry| sticker_of(entry))
}

/// The pack that an entry of the root makes: a directory, under its name, its
/// stickers sorted by file name.
pub open spec fn pack_of(entry: RootEntry) -> Option<
    (Seq<char>, Seq<(Seq<char>, FramesModel)>),
> {
    if entry.is_dir {
        Some((entry.name@, sorted_by_name(stickers_in(entry.entries@))))
    } else {
        None
    }
}

/// The packs of the root, as listed.
pub open spec fn packs_in(entries: Seq<RootEntry>) -> Seq<
    (Seq<char>, Seq<(Seq<char>, FramesModel)>),
> {
    picked(entries, |entry: RootEntry| pack_of(entry))
}

/// Put a sticker in its place in a list sorted by name.
fn add_sticker(list: &mut Vec<(String, StickerFrames)>, name: String, frames: StickerFrames)
    ensures
        0 <= place_for(sticker_models(old(list)@), name@) <= old(list)@.len(),
        final(list)@ == old(list)@.insert(
            place_for(sticker_models(old(list)@), name@),
            (name, frames),
        ),
{
    let ghost models = sticker_models(list@);
    let mut i: usize = list.len();
    while i > 0 && comes_before(name.as_str(), list[i - 1].0.as_str())
        invariant
            models == sticker_models(list@),
            *list == *old(list),
            i <= list@.len(),
            forall|j: int| i <= j < models.len() ==> precedes(name@, (#[trigger] models[j]).0),
        decreases i,
    {
        i -= 1;
        assert(models[i as int].0 == list@[i as int].0@);
    }
    proof {
        if i > 0 {
            assert(models[i - 1].0 == list@[i - 1].0@);
        }
        lemma_place_is(models, i as int, name@);
    }
    list.insert(i, (name, frames));
}

/// Put a pack in its place in a list sorted by name.
fn add_pack(list: &mut Vec<StickerPack>, pack: StickerPack)
    ensures
        0 <= place_for(pack_models(old(list)@), pack.name@) <= old(list)@.len(),
        final(list)@ == old(list)@.insert(
            place_for(pack_models(old(list)@), pack.name@),
            pack,
        ),
{
    let ghost models = pack_models(list@);
    let mut i: usize = list.len();
    while i > 0 && comes_before(pack.name.as_str(), list[i - 1].name.as_str())
        invariant
            models == pack_models(list@),
            *list == *old(list),
            i <= list@.len(),
            forall|j: int|
                i <= j < models.len() ==> precedes(pack.name@, (#[trigger] models[j]).0),
        decreases i,
    {
        i -= 1;
        assert(models[i as int].0 == list@[i as int].name@);
    }
    proof {
        if i > 0 {
            assert(models[i - 1].0 == list@[i - 1].name@);
        }
        lemma_place_is(models, i as int, pack.name@);
    }
    list.insert(i, pack);
}

/// The stickers of one directory, sorted by file name.
fn scan_pack(entries: &Vec<PackEntry>) -> (out: Vec<(String, StickerFrames)>)
    ensures
        sticker_models(out@) == sorted_by_name(stickers_in(entries@)),
        forall|i: int| 0 <= i < out@.len() ==> (#[trigger] out@[i]).1@.wf(),
{
    let mut out: Vec<(String, StickerFrames)> = Vec::new();
    assert(sticker_models(out@) =~= sorted_by_name(stickers_in(entries@.take(0))));
    for i in 0..entries.len()
        invariant
            sticker_models(out@) == sorted_by_name(stickers_in(entries@.take(i as int))),
            forall|j: int| 0 <= j < out@.len() ==> (#[trigger] out@[j]).1@.wf(),
    {
        let entry = &entries[i];
        let ghost found = stickers_in(entries@.take(i as int));
        let ghost before = out@;
        proof {
            assert(entries@.take(i + 1).drop_last() =~= entries@.take(i as int));
            assert(entries@.take(i + 1).last() == *entry);
        }
        if entry.is_file && is_sticker_file(entry.file.name.as_str()) {
            match load_sticker(&entry.file) {
                Ok(decoded) => {
                    let ghost item = (entry.file.name@, decoded@);
                    proof {
                        assert(found.push(item).drop_last() =~= found);
                    }
                    add_sticker(&mut out, entry.file.name.clone(), decoded);
                    proof {
                        let p = place_for(sticker_models(before), item.0);
                        assert(sticker_models(out@) =~= sticker_models(before).insert(p, item));
                    }
                },
                Err(_) => {},
            }
        }
    }
    assert(entries@.take(entries@.len() as int) =~= entries@);
    out
}

/// Scan a sticker root directory: each sub-directory is one pack, each
/// `*.gif` / `*.png` file inside it one sticker.
///
/// The scan never fails: an unreadable root has no entries and yields an empty
/// `Vec`, and non-directories under the root, non-image files, and individual
/// broken images are skipped. Output is deterministic: packs sorted by name,
/// stickers sorted by file name.
pub fn scan_packs(root: &Vec<RootEntry>) -> (packs: Vec<StickerPack>)
    ensures
        pack_models(packs@) == sorted_by_name(packs_in(root@)),
        forall|i: int, j: int|
            0 <= i < packs@.len() && 0 <= j < packs@[i].stickers@.len()
                ==> (#[trigger] packs@[i].stickers@[j]).1@.wf(),
{
    let mut packs: Vec<StickerPack> = Vec::new();
    assert(pack_models(packs@) =~= sorted_by_name(packs_in(root@.take(0))));
    for i in 0..root.len()
        invariant
            pack_models(packs@) == sorted_by_name(packs_in(root@.take(i as int))),
            forall|p: int, q: int|
                0 <= p < packs@.len() && 0 <= q < packs@[p].stickers@.len()
                    ==> (#[trigger] packs@[p].stickers@[q]).1@.wf(),
    {
        let entry = &root[i];
        let ghost found = packs_in(root@.take(i as int));
        proof {
            assert(root@.take(i + 1).drop_last() =~= root@.take(i as int));
            assert(root@.take(i + 1).last() == *entry);
        }
        if entry.is_dir {
            let stickers = scan_pack(&entry.entries);
            let ghost item = (entry.name@, sticker_models(stickers@));
            assert(found.push(item).drop_last() =~= found);
            let ghost before = packs@;
            add_pack(&mut packs, StickerPack { name: entry.name.clone(), stickers });
            proof {
                let p = place_for(pack_models(before), item.0);
                assert(pack_models(packs@) =~= pack_models(before).insert(p, item));
                assert forall|x: int, y: int|
                    0 <= x < packs@.len() && 0 <= y < packs@[x].stickers@.len() implies (
                #[trigger] packs@[x].stickers@[y]).1@.wf() by {
                    if x < p {
                        assert(packs@[x] == before[x]);
                    } else if x > p {
                        assert(packs@[x] == before[x - 1]);
                    }
                }
            }
        }
    }
    assert(root@.take(root@.len() as int) =~= root@);
    packs
}

} // verus!