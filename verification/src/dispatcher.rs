//! File type detection and routing. Magic bytes are trusted over the
//! extension: users rename files often.

use vstd::prelude::*;
use crate::text_ops::{
    ascii_lowercase, equals_ascii_lowercase, lemma_ascii_lowercase_idempotent, str_equals,
};

verus! {

#[derive(Debug, Clone, Copy, PartialEq, Eq, Structural)]
pub enum FileCategory {
    Image(ImageRoute),
    Pdf,
    Text(TextKind),
    RequiresOnas(OnasReason),
    RequiresFfmpeg(FfmpegReason),
    Unsupported,
}

#[derive(Debug, Clone, Copy, PartialEq, Eq, Structural)]
pub enum ImageRoute {
    InMemory(InMemoryImageKind),
}

#[derive(Debug, Clone, Copy, PartialEq, Eq, Structural)]
pub enum InMemoryImageKind {
    Jpeg,
    Png,
    Gif,
}

#[derive(Debug, Clone, Copy, PartialEq, Eq, Structural)]
pub enum OnasReason {
    ImageWebpOrAvif,
}

#[derive(Debug, Clone, Copy, PartialEq, Eq, Structural)]
pub enum FfmpegReason {
    VideoMkvOrWebm,
}

#[derive(Debug, Clone, Copy, PartialEq, Eq, Structural)]
pub enum TextKind {
    Markdown,
    PlainOrCode,
}

/// The MIME type that `infer` recognises from the leading bytes of a file,
/// if any of its matchers accepts them.
pub uninterp spec fn sniffed_mime(head: Seq<u8>) -> Option<Seq<char>>;

/// Calls `infer::get`, which runs infer's table of magic-byte matchers over
/// `head` and reports the first match; the MIME type of that match is
/// returned. The contract only ties the answer to `head` through
/// `sniffed_mime`: which bytes each matcher accepts is infer's table.
#[verifier::external_body]
fn sniff_mime(head: &[u8]) -> (mime: Option<&'static str>)
    ensures
        match mime {
            Some(m) => sniffed_mime(head@) == Some(m@),
            None => sniffed_mime(head@) is None,
        },
{
    infer::get(head).map(|kind| kind.mime_type())
}

/// A path that is a bare file name on every platform: not empty, without a
/// separator (`/`, or `\` on Windows), without a drive prefix (`:`), and
/// neither `.` nor `..`.
pub open spec fn simple_file_name(path: Seq<char>) -> bool {
    &&& path.len() > 0
    &&& !path.contains('/')
    &&& !path.contains('\\')
    &&& !path.contains(':')
    &&& path != seq!['.']
    &&& path != seq!['.', '.']
}

/// `i` is the position of the last `.` in `name`.
pub open spec fn is_last_dot(name: Seq<char>, i: int) -> bool {
    &&& 0 <= i < name.len()
    &&& name[i] == '.'
    &&& forall|j: int| i < j < name.len() ==> name[j] != '.'
}

/// The extension of a file name: what follows its last `.`; none when the
/// name has no `.` or its last `.` is its first character (a hidden file
/// such as `.bashrc`).
pub open spec fn name_extension(name: Seq<char>) -> Option<Seq<char>> {
    if exists|i: int| 0 < i && #[trigger] is_last_dot(name, i) {
        let i = choose|i: int| 0 < i && #[trigger] is_last_dot(name, i);
        Some(name.subrange(i + 1, name.len() as int))
    } else {
        None
    }
}

/// `i` is the position of the last `/` in `path`.
pub open spec fn is_last_slash(path: Seq<char>, i: int) -> bool {
    &&& 0 <= i < path.len()
    &&& path[i] == '/'
    &&& forall|j: int| i < j < path.len() ==> path[j] != '/'
}

/// The part of `path` after its last `/` (all of it when it has none).
pub open spec fn last_segment(path: Seq<char>) -> Seq<char> {
    if exists|i: int| #[trigger] is_last_slash(path, i) {
        let i = choose|i: int| #[trigger] is_last_slash(path, i);
        path.subrange(i + 1, path.len() as int)
    } else {
        path
    }
}

/// A `/`-separated path whose file name is its last part on every
/// platform: it holds no `\` and no `:` (so no Windows prefix), does not
/// start with `//`, and its last part is a bare file name.
pub open spec fn plain_file_path(path: Seq<char>) -> bool {
    &&& !path.contains('\\')
    &&& !path.contains(':')
    &&& !(path.len() >= 2 && path[0] == '/' && path[1] == '/')
    &&& simple_file_name(last_segment(path))
}

/// The extension of the file that `path` names, for a plain file path.
pub open spec fn path_extension(path: Seq<char>) -> Option<Seq<char>> {
    name_extension(last_segment(path))
}

/// A bare file name is a plain file path that names itself.
pub proof fn lemma_bare_name_is_plain_path(path: Seq<char>)
    requires
        simple_file_name(path),
    ensures
        plain_file_path(path),
        last_segment(path) == path,
        path_extension(path) == name_extension(path),
{
    if exists|i: int| #[trigger] is_last_slash(path, i) {
        let i = choose|i: int| #[trigger] is_last_slash(path, i);
        assert(path.contains(path[i]));
    }
}

/// Calls `std::path::Path::extension` on `path` and keeps the result when it
/// is valid UTF-8. How a path splits into components depends on the
/// platform (`\` separates components on Windows only), so the contract
/// states what the documentation promises everywhere: an extension is the
/// part of the file name after its last `.`, so it holds no `.` and no `/`
/// (a separator on every platform), and a path without any `.` has no
/// extension. For a plain file path (no `\`, no `:`, no leading `//`, and
/// a bare file name after its last `/`), that last part is the path's file
/// name on every platform, and the result is exactly `name_extension` of
/// it (std splits the name at its last `.` and gives no extension when
/// nothing precedes that `.`); the part after an ASCII `.` of valid UTF-8
/// is valid UTF-8, so the conversion keeps it.
#[verifier::external_body]
pub(crate) fn file_extension(path: &str) -> (ext: Option<&str>)
    ensures
        ext matches Some(e) ==> !e@.contains('.') && !e@.contains('/'),
        !path@.contains('.') ==> ext is None,
        plain_file_path(path@) ==> match ext {
            Some(e) => path_extension(path@) == Some(e@),
            None => path_extension(path@) is None,
        },
{
    std::path::Path::new(path).extension().and_then(|e| e.to_str())
}

pub open spec fn jpeg_image() -> FileCategory {
    FileCategory::Image(ImageRoute::InMemory(InMemoryImageKind::Jpeg))
}

pub open spec fn png_image() -> FileCategory {
    FileCategory::Image(ImageRoute::InMemory(InMemoryImageKind::Png))
}

pub open spec fn gif_image() -> FileCategory {
    FileCategory::Image(ImageRoute::InMemory(InMemoryImageKind::Gif))
}

/// The route for a MIME type reported by content sniffing; `None` for a type
/// the previewer does not route by content.
pub open spec fn mime_category(mime: Seq<char>) -> Option<FileCategory> {
    if mime == "image/jpeg"@ {
        Some(jpeg_image())
    } else if mime == "image/png"@ {
        Some(png_image())
    } else if mime == "image/gif"@ {
        Some(gif_image())
    } else if mime == "image/webp"@ || mime == "image/avif"@ {
        Some(FileCategory::RequiresOnas(OnasReason::ImageWebpOrAvif))
    } else if mime == "application/pdf"@ {
        Some(FileCategory::Pdf)
    } else if mime == "video/x-matroska"@ || mime == "video/webm"@ {
        Some(FileCategory::RequiresFfmpeg(FfmpegReason::VideoMkvOrWebm))
    } else {
        None
    }
}

/// The route for a file extension, compared without regard to ASCII case; a
/// file without extension, or with an unknown one, is shown as text.
pub open spec fn extension_category(ext: Option<Seq<char>>) -> FileCategory {
    match ext {
        None => FileCategory::Text(TextKind::PlainOrCode),
        Some(e) => {
            let l = ascii_lowercase(e);
            if l == "jpg"@ || l == "jpeg"@ {
                jpeg_image()
            } else if l == "png"@ {
                png_image()
            } else if l == "gif"@ {
                gif_image()
            } else if l == "webp"@ || l == "avif"@ {
                FileCategory::RequiresOnas(OnasReason::ImageWebpOrAvif)
            } else if l == "mkv"@ || l == "webm"@ {
                FileCategory::RequiresFfmpeg(FfmpegReason::VideoMkvOrWebm)
            } else if l == "pdf"@ {
                FileCategory::Pdf
            } else if l == "md"@ || l == "markdown"@ {
                FileCategory::Text(TextKind::Markdown)
            } else {
                FileCategory::Text(TextKind::PlainOrCode)
            }
        },
    }
}

/// The routes by extension: JPEG, PNG and GIF images are decoded in
/// memory, WebP and AVIF go to onas, Matroska and WebM video to ffmpeg, PDF
/// is rendered, Markdown is shown as Markdown; the extension is compared in
/// any ASCII case, and a file without extension or with any other one is
/// shown as plain text (never as unsupported).
pub proof fn lemma_extension_routes(ext: Seq<char>)
    ensures
        extension_category(Some("jpg"@)) == FileCategory::Image(ImageRoute::InMemory(InMemoryImageKind::Jpeg)),
        extension_category(Some("jpeg"@)) == FileCategory::Image(ImageRoute::InMemory(InMemoryImageKind::Jpeg)),
        extension_category(Some("png"@)) == FileCategory::Image(ImageRoute::InMemory(InMemoryImageKind::Png)),
        extension_category(Some("gif"@)) == FileCategory::Image(ImageRoute::InMemory(InMemoryImageKind::Gif)),
        extension_category(Some("webp"@)) == FileCategory::RequiresOnas(OnasReason::ImageWebpOrAvif),
        extension_category(Some("avif"@)) == FileCategory::RequiresOnas(OnasReason::ImageWebpOrAvif),
        extension_category(Some("mkv"@)) == FileCategory::RequiresFfmpeg(FfmpegReason::VideoMkvOrWebm),
        extension_category(Some("webm"@)) == FileCategory::RequiresFfmpeg(FfmpegReason::VideoMkvOrWebm),
        extension_category(Some("pdf"@)) == FileCategory::Pdf,
        extension_category(Some("md"@)) == FileCategory::Text(TextKind::Markdown),
        extension_category(Some("markdown"@)) == FileCategory::Text(TextKind::Markdown),
        extension_category(Some(ext)) == extension_category(Some(ascii_lowercase(ext))),
        ({
            let l = ascii_lowercase(ext);
            l != "jpg"@ && l != "jpeg"@ && l != "png"@ && l != "gif"@ && l != "webp"@ && l != "avif"@ && l != "mkv"@ && l != "webm"@ && l != "pdf"@ && l != "md"@ && l != "markdown"@
        }) ==> extension_category(Some(ext)) == FileCategory::Text(TextKind::PlainOrCode),
        extension_category(None) == FileCategory::Text(TextKind::PlainOrCode),
        extension_category(Some(ext)) != FileCategory::Unsupported,
{
    lemma_ascii_lowercase_idempotent(ext);
    reveal_strlit("jpg");
    reveal_strlit("jpeg");
    reveal_strlit("png");
    reveal_strlit("gif");
    reveal_strlit("webp");
    reveal_strlit("avif");
    reveal_strlit("mkv");
    reveal_strlit("webm");
    reveal_strlit("pdf");
    reveal_strlit("md");
    reveal_strlit("markdown");
    assert("jpg"@.len() == 3 && "jpg"@[0] == 'j' && "jpg"@[1] == 'p' && "jpg"@[2] == 'g');
    assert(ascii_lowercase("jpg"@) =~= "jpg"@);
    assert("jpeg"@.len() == 4 && "jpeg"@[0] == 'j' && "jpeg"@[1] == 'p' && "jpeg"@[2] == 'e' && "jpeg"@[3] == 'g');
    assert(ascii_lowercase("jpeg"@) =~= "jpeg"@);
    assert("png"@.len() == 3 && "png"@[0] == 'p' && "png"@[1] == 'n' && "png"@[2] == 'g');
    assert(ascii_lowercase("png"@) =~= "png"@);
    assert("gif"@.len() == 3 && "gif"@[0] == 'g' && "gif"@[1] == 'i' && "gif"@[2] == 'f');
    assert(ascii_lowercase("gif"@) =~= "gif"@);
    assert("webp"@.len() == 4 && "webp"@[0] == 'w' && "webp"@[1] == 'e' && "webp"@[2] == 'b' && "webp"@[3] == 'p');
    assert(ascii_lowercase("webp"@) =~= "webp"@);
    assert("avif"@.len() == 4 && "avif"@[0] == 'a' && "avif"@[1] == 'v' && "avif"@[2] == 'i' && "avif"@[3] == 'f');
    assert(ascii_lowercase("avif"@) =~= "avif"@);
    assert("mkv"@.len() == 3 && "mkv"@[0] == 'm' && "mkv"@[1] == 'k' && "mkv"@[2] == 'v');
    assert(ascii_lowercase("mkv"@) =~= "mkv"@);
    assert("webm"@.len() == 4 && "webm"@[0] == 'w' && "webm"@[1] == 'e' && "webm"@[2] == 'b' && "webm"@[3] == 'm');
    assert(ascii_lowercase("webm"@) =~= "webm"@);
    assert("pdf"@.len() == 3 && "pdf"@[0] == 'p' && "pdf"@[1] == 'd' && "pdf"@[2] == 'f');
    assert(ascii_lowercase("pdf"@) =~= "pdf"@);
    assert("md"@.len() == 2 && "md"@[0] == 'm' && "md"@[1] == 'd');
    assert(ascii_lowercase("md"@) =~= "md"@);
    assert("markdown"@.len() == 8 && "markdown"@[0] == 'm' && "markdown"@[1] == 'a' && "markdown"@[2] == 'r' && "markdown"@[3] == 'k' && "markdown"@[4] == 'd' && "markdown"@[5] == 'o' && "markdown"@[6] == 'w' && "markdown"@[7] == 'n');
    assert(ascii_lowercase("markdown"@) =~= "markdown"@);
}

/// A category that some extension of a path can lead to (the extension
/// itself comes from the platform's path rules).
pub open spec fn some_extension_category(category: FileCategory) -> bool {
    exists|ext: Option<Seq<char>>|
        (ext matches Some(e) ==> !e.contains('.') && !e.contains('/')) && #[trigger] extension_category(ext)
            == category
}

/// The route for a file whose leading bytes sniffed as `sniffed` and whose
/// extension is `ext`: a recognised MIME type wins, the extension decides
/// otherwise.
pub open spec fn detected_category(sniffed: Option<Seq<char>>, ext: Option<Seq<char>>) -> FileCategory {
    match sniffed {
        Some(m) => match mime_category(m) {
            Some(c) => c,
            None => extension_category(ext),
        },
        None => extension_category(ext),
    }
}

/// The routes by content: JPEG, PNG and GIF are decoded in memory, WebP
/// and AVIF go to onas, PDF is rendered, Matroska and WebM video go to
/// ffmpeg, and no other MIME type routes a file by its content.
pub proof fn lemma_mime_routes(mime: Seq<char>)
    ensures
        mime_category("image/jpeg"@) == Some(
            FileCategory::Image(ImageRoute::InMemory(InMemoryImageKind::Jpeg)),
        ),
        mime_category("image/png"@) == Some(
            FileCategory::Image(ImageRoute::InMemory(InMemoryImageKind::Png)),
        ),
        mime_category("image/gif"@) == Some(
            FileCategory::Image(ImageRoute::InMemory(InMemoryImageKind::Gif)),
        ),
        mime_category("image/webp"@) == Some(FileCategory::RequiresOnas(OnasReason::ImageWebpOrAvif)),
        mime_category("image/avif"@) == Some(FileCategory::RequiresOnas(OnasReason::ImageWebpOrAvif)),
        mime_category("application/pdf"@) == Some(FileCategory::Pdf),
        mime_category("video/x-matroska"@) == Some(
            FileCategory::RequiresFfmpeg(FfmpegReason::VideoMkvOrWebm),
        ),
        mime_category("video/webm"@) == Some(FileCategory::RequiresFfmpeg(FfmpegReason::VideoMkvOrWebm)),
        mime != "image/jpeg"@ && mime != "image/png"@ && mime != "image/gif"@ && mime
            != "image/webp"@ && mime != "image/avif"@ && mime != "application/pdf"@ && mime
            != "video/x-matroska"@ && mime != "video/webm"@ ==> mime_category(mime) is None,
        mime_category(mime) != Some(FileCategory::Unsupported),
        mime_category(mime) matches Some(c) ==> !(c is Text),
{
    reveal_strlit("image/jpeg");
    reveal_strlit("image/png");
    reveal_strlit("image/gif");
    reveal_strlit("image/webp");
    reveal_strlit("image/avif");
    reveal_strlit("application/pdf");
    reveal_strlit("video/x-matroska");
    reveal_strlit("video/webm");
    assert("image/jpeg"@.len() == 10 && "image/jpeg"@[0] == 'i' && "image/jpeg"@[6] == 'j');
    assert("image/png"@.len() == 9 && "image/png"@[0] == 'i' && "image/png"@[6] == 'p');
    assert("image/gif"@.len() == 9 && "image/gif"@[0] == 'i' && "image/gif"@[6] == 'g');
    assert("image/webp"@.len() == 10 && "image/webp"@[0] == 'i' && "image/webp"@[6] == 'w');
    assert("image/avif"@.len() == 10 && "image/avif"@[0] == 'i' && "image/avif"@[6] == 'a');
    assert("application/pdf"@.len() == 15 && "application/pdf"@[0] == 'a' && "application/pdf"@[6] == 'a');
    assert("video/x-matroska"@.len() == 16 && "video/x-matroska"@[0] == 'v' && "video/x-matroska"@[6] == 'x');
    assert("video/webm"@.len() == 10 && "video/webm"@[0] == 'v' && "video/webm"@[6] == 'w');
}

/// Magic bytes are trusted over the extension: once sniffing recognises a
/// routed type, renaming the file changes nothing.
pub proof fn lemma_content_wins_over_extension(
    mime: Seq<char>,
    ext: Option<Seq<char>>,
    other_ext: Option<Seq<char>>,
)
    requires
        mime_category(mime) is Some,
    ensures
        detected_category(Some(mime), ext) == detected_category(Some(mime), other_ext),
        detected_category(Some(mime), ext) == mime_category(mime)->0,
{
}

/// When content sniffing recognises nothing, or a type that is not routed
/// by content, the extension alone decides.
pub proof fn lemma_extension_decides_otherwise(sniffed: Option<Seq<char>>, ext: Option<Seq<char>>)
    requires
        !(sniffed matches Some(m) && mime_category(m) is Some),
    ensures
        detected_category(sniffed, ext) == extension_category(ext),
{
}

/// The extension of a file name is what follows its last `.`: it holds no
/// `.`, the name is the part before that `.`, the `.` and the extension,
/// and that part is not empty. A name has no extension exactly when no `.`
/// follows its first character.
pub proof fn lemma_name_extension_splits_at_last_dot(name: Seq<char>)
    ensures
        name_extension(name) matches Some(e) ==> {
            &&& !e.contains('.')
            &&& e.len() < name.len() - 1
            &&& name =~= name.subrange(0, name.len() - e.len() - 1) + seq!['.'] + e
        },
        name_extension(name) is None <==> forall|i: int| 0 < i < name.len() ==> name[i] != '.',
{
    if exists|i: int| 0 < i && #[trigger] is_last_dot(name, i) {
        let i = choose|i: int| 0 < i && #[trigger] is_last_dot(name, i);
        let e = name.subrange(i + 1, name.len() as int);
        assert forall|k: int| 0 <= k < e.len() implies e[k] != '.' by {
            assert(e[k] == name[i + 1 + k]);
        }
        assert(name =~= name.subrange(0, i) + seq!['.'] + e);
    } else {
        assert forall|i: int| 0 < i < name.len() implies name[i] != '.' by {
            if name[i] == '.' {
                lemma_last_dot_exists(name, i);
            }
        }
    }
}

/// Some `.` at `i` or after means a last `.` at `i` or after.
proof fn lemma_last_dot_exists(name: Seq<char>, i: int)
    requires
        0 <= i < name.len(),
        name[i] == '.',
    ensures
        exists|j: int| i <= j && #[trigger] is_last_dot(name, j),
    decreases name.len() - i,
{
    if exists|k: int| i < k < name.len() && name[k] == '.' {
        let k = choose|k: int| i < k < name.len() && name[k] == '.';
        lemma_last_dot_exists(name, k);
    } else {
        assert(is_last_dot(name, i));
    }
}

/// The last part of a path holds no `/`, and the path ends with it, right
/// after its last `/` when it has one.
pub proof fn lemma_last_segment_is_after_last_slash(path: Seq<char>)
    ensures
        !last_segment(path).contains('/'),
        path.contains('/') ==> path =~= path.subrange(
            0,
            path.len() - last_segment(path).len() - 1,
        ) + seq!['/'] + last_segment(path),
        !path.contains('/') ==> last_segment(path) == path,
{
    if exists|i: int| #[trigger] is_last_slash(path, i) {
        let i = choose|i: int| #[trigger] is_last_slash(path, i);
        let e = path.subrange(i + 1, path.len() as int);
        assert forall|k: int| 0 <= k < e.len() implies e[k] != '/' by {
            assert(e[k] == path[i + 1 + k]);
        }
        assert(path =~= path.subrange(0, i) + seq!['/'] + e);
    } else {
        if path.contains('/') {
            let i = choose|i: int| 0 <= i < path.len() && path[i] == '/';
            lemma_last_slash_exists(path, i);
        }
    }
}

/// Some `/` at `i` or after means a last `/` at `i` or after.
proof fn lemma_last_slash_exists(path: Seq<char>, i: int)
    requires
        0 <= i < path.len(),
        path[i] == '/',
    ensures
        exists|j: int| i <= j && #[trigger] is_last_slash(path, j),
    decreases path.len() - i,
{
    if exists|k: int| i < k < path.len() && path[k] == '/' {
        let k = choose|k: int| i < k < path.len() && path[k] == '/';
        lemma_last_slash_exists(path, k);
    } else {
        assert(is_last_slash(path, i));
    }
}

pub fn category_from_mime(mime: &str) -> (category: Option<FileCategory>)
    ensures
        category == mime_category(mime@),
{
    if str_equals(mime, "image/jpeg") {
        Some(FileCategory::Image(ImageRoute::InMemory(InMemoryImageKind::Jpeg)))
    } else if str_equals(mime, "image/png") {
        Some(FileCategory::Image(ImageRoute::InMemory(InMemoryImageKind::Png)))
    } else if str_equals(mime, "image/gif") {
        Some(FileCategory::Image(ImageRoute::InMemory(InMemoryImageKind::Gif)))
    } else if str_equals(mime, "image/webp") || str_equals(mime, "image/avif") {
        Some(FileCategory::RequiresOnas(OnasReason::ImageWebpOrAvif))
    } else if str_equals(mime, "application/pdf") {
        Some(FileCategory::Pdf)
    } else if str_equals(mime, "video/x-matroska") || str_equals(mime, "video/webm") {
        Some(FileCategory::RequiresFfmpeg(FfmpegReason::VideoMkvOrWebm))
    } else {
        None
    }
}

/// Routes by an already extracted file extension.
pub fn category_for_extension(ext: Option<&str>) -> (category: FileCategory)
    ensures
        category == extension_category(
            match ext {
                Some(e) => Some(e@),
                None => None,
            },
        ),
{
    match ext {
        None => FileCategory::Text(TextKind::PlainOrCode),
        Some(e) => {
            if equals_ascii_lowercase(e, "jpg") || equals_ascii_lowercase(e, "jpeg") {
                FileCategory::Image(ImageRoute::InMemory(InMemoryImageKind::Jpeg))
            } else if equals_ascii_lowercase(e, "png") {
                FileCategory::Image(ImageRoute::InMemory(InMemoryImageKind::Png))
            } else if equals_ascii_lowercase(e, "gif") {
                FileCategory::Image(ImageRoute::InMemory(InMemoryImageKind::Gif))
            } else if equals_ascii_lowercase(e, "webp") || equals_ascii_lowercase(e, "avif") {
                FileCategory::RequiresOnas(OnasReason::ImageWebpOrAvif)
            } else if equals_ascii_lowercase(e, "mkv") || equals_ascii_lowercase(e, "webm") {
                FileCategory::RequiresFfmpeg(FfmpegReason::VideoMkvOrWebm)
            } else if equals_ascii_lowercase(e, "pdf") {
                FileCategory::Pdf
            } else if equals_ascii_lowercase(e, "md") || equals_ascii_lowercase(e, "markdown") {
                FileCategory::Text(TextKind::Markdown)
            } else {
                FileCategory::Text(TextKind::PlainOrCode)
            }
        },
    }
}

/// Routes by the extension of `path`; a path without any `.` is text. For a
/// bare file name the extension is what follows its last `.`.
pub fn category_from_extension(path: &str) -> (category: FileCategory)
    ensures
        some_extension_category(category),
        !path@.contains('.') ==> category == FileCategory::Text(TextKind::PlainOrCode),
        simple_file_name(path@) ==> category == extension_category(name_extension(path@)),
        plain_file_path(path@) ==> category == extension_category(path_extension(path@)),
{
    let ext = file_extension(path);
    let category = category_for_extension(ext);
    proof {
        if simple_file_name(path@) {
            lemma_bare_name_is_plain_path(path@);
        }
        let ghost e = match ext {
            Some(e) => Some(e@),
            None => None,
        };
        assert(extension_category(e) == category);
    }
    category
}

/// Routes by content and name: `sniffed` is the MIME type that sniffing
/// reported (if any) and `ext` the file's extension (if any).
pub fn category_for(sniffed: Option<&str>, ext: Option<&str>) -> (category: FileCategory)
    ensures
        category == detected_category(
            match sniffed {
                Some(m) => Some(m@),
                None => None,
            },
            match ext {
                Some(e) => Some(e@),
                None => None,
            },
        ),
{
    if let Some(mime) = sniffed {
        if let Some(category) = category_from_mime(mime) {
            return category;
        }
    }
    category_for_extension(ext)
}

/// Detects how a file is previewed from its leading bytes (`None` when they
/// could not be read) and its path (its file name is enough). Content sniffing wins whenever it
/// recognises a routed type; otherwise the extension decides.
pub fn detect(head: Option<&[u8]>, path: &str) -> (category: FileCategory)
    ensures
        ({
            let sniffed = match head {
                Some(h) => sniffed_mime(h@),
                None => None,
            };
            match sniffed {
                Some(m) => match mime_category(m) {
                    Some(c) => category == c,
                    None => some_extension_category(category),
                },
                None => some_extension_category(category),
            }
        }),
        ({
            let sniffed = match head {
                Some(h) => sniffed_mime(h@),
                None => None,
            };
            !(sniffed matches Some(m) && mime_category(m) is Some) && !path@.contains('.')
                ==> category == FileCategory::Text(TextKind::PlainOrCode)
        }),
        ({
            let sniffed = match head {
                Some(h) => sniffed_mime(h@),
                None => None,
            };
            !(sniffed matches Some(m) && mime_category(m) is Some) && simple_file_name(path@)
                ==> category == extension_category(name_extension(path@))
        }),
        ({
            let sniffed = match head {
                Some(h) => sniffed_mime(h@),
                None => None,
            };
            !(sniffed matches Some(m) && mime_category(m) is Some) && plain_file_path(path@)
                ==> category == extension_category(path_extension(path@))
        }),
{
    let sniffed = match head {
        Some(h) => sniff_mime(h),
        None => None,
    };
    if let Some(mime) = sniffed {
        if let Some(category) = category_from_mime(mime) {
            return category;
        }
    }
    category_from_extension(path)
}

} // verus!
