//! Stickers and packs, from file contents made in memory.

use gugu::stickers::{
    animated_sticker, has_extension, is_sticker_file, load_gif, load_sticker, load_still,
    scan_packs, still_sticker, PackEntry, Picture, RawFrame, RootEntry, StickerError, StickerFile,
    StickerPack,
};
use image::codecs::gif::GifEncoder;
use image::{Delay, Frame, RgbaImage};

/// A 4x4 solid-colour GIF with the given per-frame delays (ms).
fn gif_bytes(delays_ms: &[u32]) -> Vec<u8> {
    let frames = delays_ms.iter().enumerate().map(|(i, &d)| {
        let img = RgbaImage::from_pixel(4, 4, image::Rgba([i as u8 * 60, 90, 30, 255]));
        Frame::from_parts(img, 0, 0, Delay::from_numer_denom_ms(d, 1))
    });
    let mut bytes = Vec::new();
    GifEncoder::new(&mut bytes).encode_frames(frames).unwrap();
    bytes
}

/// A tiny 3x3 static PNG.
fn png_bytes() -> Vec<u8> {
    let mut bytes = std::io::Cursor::new(Vec::new());
    RgbaImage::from_pixel(3, 3, image::Rgba([7, 7, 7, 255]))
        .write_to(&mut bytes, image::ImageFormat::Png)
        .unwrap();
    bytes.into_inner()
}

fn file(name: &str, content: Vec<u8>) -> StickerFile {
    StickerFile {
        path: format!("packs/{name}"),
        name: name.to_string(),
        content: Ok(content),
    }
}

fn unreadable(name: &str) -> StickerFile {
    StickerFile {
        path: format!("packs/{name}"),
        name: name.to_string(),
        content: Err("No such file or directory".to_string()),
    }
}

fn entry(name: &str, content: Vec<u8>) -> PackEntry {
    PackEntry {
        is_file: true,
        file: file(name, content),
    }
}

fn dir(name: &str, entries: Vec<PackEntry>) -> RootEntry {
    RootEntry {
        name: name.to_string(),
        is_dir: true,
        entries,
    }
}

fn loose(name: &str) -> RootEntry {
    RootEntry {
        name: name.to_string(),
        is_dir: false,
        entries: Vec::new(),
    }
}

fn shape(packs: &[StickerPack]) -> Vec<(String, Vec<String>)> {
    packs
        .iter()
        .map(|p| {
            (
                p.name.clone(),
                p.stickers.iter().map(|s| s.0.clone()).collect::<Vec<_>>(),
            )
        })
        .collect()
}

#[test]
fn multi_frame_gif_yields_all_frames_with_clamped_delays() {
    // 0 ms clamps up to 20; 30 ms passes through; 600 s clamps down to 5000.
    let gif = file("anim.gif", gif_bytes(&[0, 30, 600_000]));

    let sticker = load_gif(&gif).expect("synthesized gif must decode");
    assert_eq!(sticker.frames.len(), 3);
    assert_eq!(sticker.delays, vec![20, 30, 5000]);
}

#[test]
fn garbage_or_missing_gif_yields_typed_error_not_panic() {
    let bad = file(
        "broken.gif",
        b"GIF89a\xff\x00not really a gif at all".to_vec(),
    );
    let err = load_gif(&bad).expect_err("garbage must not decode");
    assert!(
        matches!(err, StickerError::Decode { .. } | StickerError::Empty { .. }),
        "unexpected variant: {err:?}"
    );
    assert!(
        err.to_string().contains("broken.gif"),
        "error should name the file"
    );

    let missing = unreadable("nope.gif");
    let err = load_gif(&missing).expect_err("missing file must error");
    assert!(matches!(err, StickerError::Io { .. }), "unexpected: {err:?}");
}

#[test]
fn scan_packs_skips_non_directories_and_broken_entries() {
    let root = vec![
        dir(
            "alpha",
            vec![
                entry("a1.gif", gif_bytes(&[40, 40])),
                entry("broken.gif", b"junk".to_vec()),
            ],
        ),
        dir("beta", vec![entry("b1.png", png_bytes())]),
        // Non-directory entries at the root must not become packs.
        loose("root-note.txt"),
        loose("loose.gif"),
    ];

    let packs = scan_packs(&root);
    let names: Vec<&str> = packs.iter().map(|p| p.name.as_str()).collect();
    assert_eq!(names, ["alpha", "beta"]);

    assert_eq!(packs[0].stickers.len(), 1, "broken gif must be skipped");
    assert_eq!(packs[0].stickers[0].0, "a1.gif");
    assert_eq!(packs[0].stickers[0].1.frames.len(), 2);

    // A static PNG is a valid one-frame sticker of the right size.
    assert_eq!(packs[1].stickers[0].0, "b1.png");
    let size = packs[1].stickers[0].1.frames[0].size();
    assert_eq!((size.width, size.height), (3, 3));

    // Unreadable root: empty scan, no panic.
    assert!(scan_packs(&Vec::new()).is_empty());
}

#[test]
fn scan_packs_ordering_is_deterministic() {
    // Packs and files in scrambled order, so that the listing differs from the
    // expected sorted output.
    let listing = || {
        vec![
            dir(
                "beta",
                vec![
                    entry("z.gif", gif_bytes(&[50])),
                    entry("a.gif", gif_bytes(&[50])),
                ],
            ),
            dir(
                "alpha",
                vec![
                    entry("m.gif", gif_bytes(&[50])),
                    entry("b.gif", gif_bytes(&[50])),
                ],
            ),
        ]
    };
    let mut reversed = listing();
    reversed.reverse();

    let once = scan_packs(&listing());
    let twice = scan_packs(&reversed);
    assert_eq!(shape(&once), shape(&twice));
    assert_eq!(
        shape(&once),
        vec![
            ("alpha".to_string(), vec!["b.gif".to_string(), "m.gif".to_string()]),
            ("beta".to_string(), vec!["a.gif".to_string(), "z.gif".to_string()]),
        ]
    );
}

/// An image of one colour, as text.
fn solid(width: u32, height: u32, colour: [u8; 4]) -> String {
    let bytes = colour.repeat((width * height) as usize);
    let buffer = slint::SharedPixelBuffer::<slint::Rgba8Pixel>::clone_from_slice(
        &bytes, width, height,
    );
    format!("{:?}", slint::Image::from_rgba8(buffer))
}

#[test]
fn frames_hold_the_decoded_pixels() {
    let sticker = load_gif(&file("two.gif", gif_bytes(&[40, 40]))).unwrap();
    for (i, frame) in sticker.frames.iter().enumerate() {
        assert_eq!(format!("{frame:?}"), solid(4, 4, [i as u8 * 60, 90, 30, 255]));
    }
    let png = load_still(&file("b1.png", png_bytes())).unwrap();
    assert_eq!(format!("{:?}", png.frames[0]), solid(3, 3, [7, 7, 7, 255]));
}

#[test]
fn still_image_is_one_frame_of_nominal_delay() {
    let sticker = load_sticker(&file("b1.png", png_bytes())).unwrap();
    assert_eq!(sticker.frames.len(), 1);
    assert_eq!(sticker.delays, vec![100]);
}

#[test]
fn single_frame_gif_is_a_static_sticker() {
    let sticker = load_sticker(&file("one.GIF", gif_bytes(&[40]))).unwrap();
    assert_eq!(sticker.frames.len(), 1);
    assert_eq!(sticker.delays, vec![40]);
}

#[test]
fn gif_without_frames_is_empty() {
    let err = animated_sticker("packs/none.gif", Ok(Vec::new())).expect_err("no frames");
    assert!(matches!(err, StickerError::Empty { .. }));
    assert_eq!(err.to_string(), "sticker packs/none.gif contains no frames");
    assert_eq!(err.source(), None);
}

#[test]
fn errors_say_the_file_and_the_cause() {
    let err = load_gif(&unreadable("nope.gif")).unwrap_err();
    assert_eq!(
        err.to_string(),
        "cannot read sticker packs/nope.gif: No such file or directory"
    );
    assert_eq!(err.source(), Some("No such file or directory"));
    let err = animated_sticker("p", Err("cut short".to_string())).unwrap_err();
    assert_eq!(err.to_string(), "cannot decode sticker p: cut short");
    assert_eq!(err.source(), Some("cut short"));
}

#[test]
fn still_image_that_does_not_decode_is_typed() {
    let err = still_sticker("p", Err("odd".to_string())).unwrap_err();
    assert!(matches!(err, StickerError::Decode { .. }), "{err:?}");
    assert_eq!(err.to_string(), "cannot decode sticker p: odd");
    let picture = Picture {
        width: 1,
        height: 1,
        rgba: vec![1, 2, 3, 4],
    };
    assert_eq!(still_sticker("p", Ok(picture)).unwrap().delays, vec![100]);
}

#[test]
fn unknown_formats_do_not_decode() {
    let err = load_sticker(&file("note.txt", b"hello".to_vec())).unwrap_err();
    assert!(matches!(err, StickerError::Decode { .. }), "{err:?}");
    let unnamed = load_still(&file("wave", png_bytes())).unwrap_err();
    let dotted = load_still(&file("wave.", png_bytes())).unwrap_err();
    assert!(matches!(unnamed, StickerError::Decode { .. }), "{unnamed:?}");
    assert_eq!(unnamed.source(), dotted.source());
}

/// A readable file whose stream is cut short does not decode, wherever it is
/// cut; only a file that cannot be read is an I/O failure.
#[test]
fn truncated_still_image_is_a_decoding_error() {
    let whole = png_bytes();
    for len in [0, 4, 8, 20, 40, whole.len() - 20] {
        let cut = file("cut.png", whole[..len].to_vec());
        for err in [load_still(&cut).unwrap_err(), load_sticker(&cut).unwrap_err()] {
            assert!(matches!(err, StickerError::Decode { .. }), "{len}: {err:?}");
            assert!(err.to_string().contains("cut.png"));
        }
    }
    let err = load_still(&unreadable("gone.png")).unwrap_err();
    assert!(matches!(err, StickerError::Io { .. }), "{err:?}");
}

#[test]
fn delays_are_clamped_at_both_ends() {
    let frame = |delay_ms: u64| RawFrame {
        picture: Picture {
            width: 1,
            height: 1,
            rgba: vec![0, 0, 0, 0],
        },
        delay_ms,
    };
    let raw = [0, 19, 20, 21, 4999, 5000, 5001, u64::MAX].map(frame).into();
    let sticker = animated_sticker("p", Ok(raw)).unwrap();
    assert_eq!(
        sticker.delays,
        vec![20, 20, 20, 21, 4999, 5000, 5000, 5000]
    );
}

#[test]
fn sticker_files_are_told_by_extension() {
    for name in ["a.gif", "a.GIF", "a.Png", "x.y.png", ".a.gif"] {
        assert!(is_sticker_file(name), "{name}");
    }
    for name in ["gif", ".gif", "a.gif.txt", "a.", "", "a.jpg", "a.gifx"] {
        assert!(!is_sticker_file(name), "{name}");
    }
    assert!(has_extension("A.JPEG", "jpeg"));
    for name in ["a.gif", ".gif", "gif", "a.b.gif", "a.", "..gif", "a.GIF"] {
        let std_says = std::path::Path::new(name)
            .extension()
            .is_some_and(|e| e.eq_ignore_ascii_case("gif"));
        assert_eq!(has_extension(name, "gif"), std_says, "{name}");
    }
}

#[test]
fn directories_inside_a_pack_are_skipped() {
    let mut inner = entry("dir.gif", gif_bytes(&[40]));
    inner.is_file = false;
    let packs = scan_packs(&vec![dir(
        "p",
        vec![inner, entry("note.txt", png_bytes()), entry("b.png", png_bytes())],
    )]);
    assert_eq!(
        shape(&packs),
        vec![("p".to_string(), vec!["b.png".to_string()])]
    );
}

#[test]
fn directory_without_stickers_is_an_empty_pack() {
    let packs = scan_packs(&vec![dir("empty", Vec::new())]);
    assert_eq!(shape(&packs), vec![("empty".to_string(), Vec::new())]);
}
