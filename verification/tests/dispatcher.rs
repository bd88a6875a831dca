use rooq::dispatcher::{
    category_for, category_for_extension, category_from_extension, category_from_mime, detect,
    FfmpegReason, FileCategory, ImageRoute, InMemoryImageKind, OnasReason, TextKind,
};

#[test]
fn detects_png_by_magic_bytes_even_with_wrong_extension() {
    let png_sig: &[u8] = &[0x89, 0x50, 0x4E, 0x47, 0x0D, 0x0A, 0x1A, 0x0A];
    let cat = detect(Some(png_sig), "ql_test_fake.txt");
    assert_eq!(
        cat,
        FileCategory::Image(ImageRoute::InMemory(InMemoryImageKind::Png))
    );
}

#[test]
fn falls_back_to_extension_for_markdown() {
    let cat = detect(Some(b"# hello"), "ql_test.md");
    assert_eq!(cat, FileCategory::Text(TextKind::Markdown));
}

#[test]
fn unknown_extension_defaults_to_plain_text() {
    let cat = detect(Some(b"fn main() {}"), "ql_test.myweirdlang");
    assert_eq!(cat, FileCategory::Text(TextKind::PlainOrCode));
}

#[test]
fn webp_routes_to_onas() {
    let cat = detect(Some(b"not real webp bytes but ext matches"), "ql_test.webp");
    assert_eq!(
        cat,
        FileCategory::RequiresOnas(OnasReason::ImageWebpOrAvif)
    );
}

#[test]
fn mkv_routes_to_ffmpeg() {
    let cat = detect(Some(b"not real mkv bytes but ext matches"), "ql_test.mkv");
    assert_eq!(
        cat,
        FileCategory::RequiresFfmpeg(FfmpegReason::VideoMkvOrWebm)
    );
}

#[test]
fn unreadable_file_is_routed_by_extension() {
    assert_eq!(detect(None, "scan.PDF"), FileCategory::Pdf);
}

#[test]
fn sniffed_type_without_route_falls_back_to_extension() {
    // A zip archive is recognised by content but not routed by it.
    let zip: &[u8] = &[0x50, 0x4B, 0x03, 0x04, 0x14, 0x00, 0x00, 0x00];
    assert_eq!(detect(Some(zip), "notes.md"), FileCategory::Text(TextKind::Markdown));
}

#[test]
fn jpeg_magic_wins_over_pdf_extension() {
    let jpeg: &[u8] = &[0xFF, 0xD8, 0xFF, 0xE0, 0x00, 0x10];
    assert_eq!(
        detect(Some(jpeg), "report.pdf"),
        FileCategory::Image(ImageRoute::InMemory(InMemoryImageKind::Jpeg))
    );
}

#[test]
fn mime_table() {
    assert_eq!(category_from_mime("application/pdf"), Some(FileCategory::Pdf));
    assert_eq!(
        category_from_mime("image/avif"),
        Some(FileCategory::RequiresOnas(OnasReason::ImageWebpOrAvif))
    );
    assert_eq!(
        category_from_mime("video/webm"),
        Some(FileCategory::RequiresFfmpeg(FfmpegReason::VideoMkvOrWebm))
    );
    assert_eq!(
        category_from_mime("image/gif"),
        Some(FileCategory::Image(ImageRoute::InMemory(InMemoryImageKind::Gif)))
    );
    assert_eq!(category_from_mime("application/zip"), None);
    assert_eq!(category_from_mime("IMAGE/PNG"), None);
}

#[test]
fn extension_table_ignores_ascii_case() {
    assert_eq!(
        category_for_extension(Some("JPeG")),
        FileCategory::Image(ImageRoute::InMemory(InMemoryImageKind::Jpeg))
    );
    assert_eq!(category_for_extension(Some("Markdown")), FileCategory::Text(TextKind::Markdown));
    assert_eq!(category_for_extension(None), FileCategory::Text(TextKind::PlainOrCode));
    assert_eq!(category_for_extension(Some("")), FileCategory::Text(TextKind::PlainOrCode));
}

#[test]
fn extension_comes_from_the_file_name() {
    assert_eq!(category_from_extension("dir.png/readme"), FileCategory::Text(TextKind::PlainOrCode));
    assert_eq!(category_from_extension(".gif"), FileCategory::Text(TextKind::PlainOrCode));
    assert_eq!(
        category_from_extension("a/b/movie.WEBM"),
        FileCategory::RequiresFfmpeg(FfmpegReason::VideoMkvOrWebm)
    );
}

#[test]
fn sniffed_mime_decides_before_extension() {
    assert_eq!(category_for(Some("image/png"), Some("md")),
        FileCategory::Image(ImageRoute::InMemory(InMemoryImageKind::Png)));
    assert_eq!(category_for(Some("text/plain"), Some("md")), FileCategory::Text(TextKind::Markdown));
    assert_eq!(category_for(None, Some("pdf")), FileCategory::Pdf);
}

#[test]
fn extension_table_routes_bare_file_names() {
    assert_eq!(
        category_from_extension("A.JPG"),
        FileCategory::Image(ImageRoute::InMemory(InMemoryImageKind::Jpeg))
    );
    assert_eq!(category_from_extension("notes.markdown"), FileCategory::Text(TextKind::Markdown));
    assert_eq!(category_from_extension("clip.webm"), FileCategory::RequiresFfmpeg(FfmpegReason::VideoMkvOrWebm));
    assert_eq!(category_from_extension("photo.avif"), FileCategory::RequiresOnas(OnasReason::ImageWebpOrAvif));
    assert_eq!(category_from_extension("archive.tar.pdf"), FileCategory::Pdf);
    assert_eq!(category_from_extension(".md"), FileCategory::Text(TextKind::PlainOrCode));
    assert_eq!(category_from_extension("README"), FileCategory::Text(TextKind::PlainOrCode));
}

#[test]
fn full_paths_route_by_their_file_name() {
    assert_eq!(category_from_extension("docs/2024/notes.MD"), FileCategory::Text(TextKind::Markdown));
    assert_eq!(category_from_extension("/tmp/a.b/clip.mkv"), FileCategory::RequiresFfmpeg(FfmpegReason::VideoMkvOrWebm));
    assert_eq!(category_from_extension("a.pdf/readme"), FileCategory::Text(TextKind::PlainOrCode));
    assert_eq!(detect(Some(b"# hello"), "/var/tmp/ql_test.md"), FileCategory::Text(TextKind::Markdown));
}
