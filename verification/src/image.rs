//! Images: recognising a file's format, and the tools that view and make images.

use vstd::prelude::*;

use crate::bytes;
use crate::bytes::from_utf8;
use crate::codec;
use crate::codec::render_json;
use crate::json::{opt_text_json, text_json, Fields, Json, JsonView};
use crate::json;
use crate::paths;
use crate::paths::same_place;
use crate::text;
use crate::text::{cat, cat3, cat4, contains, own, trim};
use crate::tool;
use crate::tool::{
    detailed, plain_failure, FileAccessMode, FilesystemScope, ToolResult, ToolResultView,
};

verus! {

/// How many bytes of a file are looked at for text.
pub const SNIFFED_BYTES: usize = 256;

/// The image formats that are recognised.
#[derive(Debug, Clone, Copy, PartialEq, Eq, Structural)]
pub enum ImageFormat {
    Png,
    Jpeg,
    Gif,
    Webp,
    Bmp,
    Svg,
}

/// The name of a format.
pub open spec fn format_name(f: ImageFormat) -> Seq<char> {
    match f {
        ImageFormat::Png => "png"@,
        ImageFormat::Jpeg => "jpeg"@,
        ImageFormat::Gif => "gif"@,
        ImageFormat::Webp => "webp"@,
        ImageFormat::Bmp => "bmp"@,
        ImageFormat::Svg => "svg"@,
    }
}

/// The MIME type of a format.
pub open spec fn mime_name(f: ImageFormat) -> Seq<char> {
    match f {
        ImageFormat::Png => "image/png"@,
        ImageFormat::Jpeg => "image/jpeg"@,
        ImageFormat::Gif => "image/gif"@,
        ImageFormat::Webp => "image/webp"@,
        ImageFormat::Bmp => "image/bmp"@,
        ImageFormat::Svg => "image/svg+xml"@,
    }
}

impl ImageFormat {
    /// The format's name.
    pub fn name(self) -> (r: &'static str)
        ensures
            r@ == format_name(self),
    {
        match self {
            ImageFormat::Png => "png",
            ImageFormat::Jpeg => "jpeg",
            ImageFormat::Gif => "gif",
            ImageFormat::Webp => "webp",
            ImageFormat::Bmp => "bmp",
            ImageFormat::Svg => "svg",
        }
    }

    /// The format's MIME type.
    pub fn mime_type(self) -> (r: &'static str)
        ensures
            r@ == mime_name(self),
    {
        match self {
            ImageFormat::Png => "image/png",
            ImageFormat::Jpeg => "image/jpeg",
            ImageFormat::Gif => "image/gif",
            ImageFormat::Webp => "image/webp",
            ImageFormat::Bmp => "image/bmp",
            ImageFormat::Svg => "image/svg+xml",
        }
    }
}

/// Whether `p` stands at `i` in `b`.
pub open spec fn bytes_at(b: Seq<u8>, i: int, p: Seq<u8>) -> bool {
    i + p.len() <= b.len() && b.subrange(i, i + p.len()) == p
}

/// The bytes of a file that are looked at for text.
pub open spec fn sniffed(b: Seq<u8>) -> Seq<u8> {
    if b.len() <= SNIFFED_BYTES {
        b
    } else {
        b.take(SNIFFED_BYTES as int)
    }
}

/// The format that a file's first bytes stand for.
pub open spec fn format_of(b: Seq<u8>) -> Option<ImageFormat> {
    if bytes_at(b, 0, seq![0x89u8, 0x50, 0x4E, 0x47, 0x0D, 0x0A, 0x1A, 0x0A]) {
        Some(ImageFormat::Png)
    } else if bytes_at(b, 0, seq![0xFFu8, 0xD8, 0xFF]) {
        Some(ImageFormat::Jpeg)
    } else if bytes_at(b, 0, seq![0x47u8, 0x49, 0x46, 0x38, 0x37, 0x61]) || bytes_at(
        b,
        0,
        seq![0x47u8, 0x49, 0x46, 0x38, 0x39, 0x61],
    ) {
        Some(ImageFormat::Gif)
    } else if bytes_at(b, 0, seq![0x52u8, 0x49, 0x46, 0x46]) && bytes_at(
        b,
        8,
        seq![0x57u8, 0x45, 0x42, 0x50],
    ) {
        Some(ImageFormat::Webp)
    } else if bytes_at(b, 0, seq![0x42u8, 0x4D]) {
        Some(ImageFormat::Bmp)
    } else {
        match bytes::decoded(sniffed(b)) {
            Some(s) => if text::has(s, "<svg"@) {
                Some(ImageFormat::Svg)
            } else {
                None
            },
            None => None,
        }
    }
}

fn stands_at(b: &[u8], i: usize, p: &Vec<u8>) -> (r: bool)
    ensures
        r == bytes_at(b@, i as int, p@),
{
    let n: usize = b.len();
    if i > n || p.len() > n - i {
        return false;
    }
    let mut k: usize = 0;
    while k < p.len()
        invariant
            k <= p.len(),
            i + p.len() <= n,
            n == b@.len(),
            forall|j: int| 0 <= j < k ==> b@[i + j] == #[trigger] p@[j],
        decreases p.len() - k,
    {
        if b[i + k] != p[k] {
            assert(b@.subrange(i as int, i + p@.len())[k as int] != p@[k as int]);
            return false;
        }
        k += 1;
    }
    assert(b@.subrange(i as int, i + p@.len()) =~= p@);
    true
}

/// The format that a file's first bytes stand for: by the bytes that begin it, or, for SVG, by
/// a tag in the text that begins it.
pub fn detect_image_format(b: &[u8]) -> (r: Option<ImageFormat>)
    ensures
        r == format_of(b@),
{
    if stands_at(b, 0, &vec![0x89u8, 0x50, 0x4E, 0x47, 0x0D, 0x0A, 0x1A, 0x0A]) {
        return Some(ImageFormat::Png);
    }
    if stands_at(b, 0, &vec![0xFFu8, 0xD8, 0xFF]) {
        return Some(ImageFormat::Jpeg);
    }
    if stands_at(b, 0, &vec![0x47u8, 0x49, 0x46, 0x38, 0x37, 0x61]) || stands_at(
        b,
        0,
        &vec![0x47u8, 0x49, 0x46, 0x38, 0x39, 0x61],
    ) {
        return Some(ImageFormat::Gif);
    }
    if stands_at(b, 0, &vec![0x52u8, 0x49, 0x46, 0x46]) && stands_at(
        b,
        8,
        &vec![0x57u8, 0x45, 0x42, 0x50],
    ) {
        return Some(ImageFormat::Webp);
    }
    if stands_at(b, 0, &vec![0x42u8, 0x4D]) {
        return Some(ImageFormat::Bmp);
    }
    let n: usize = if b.len() <= SNIFFED_BYTES {
        b.len()
    } else {
        SNIFFED_BYTES
    };
    let prefix = vstd::slice::slice_subrange(b, 0, n);
    assert(prefix@ =~= sniffed(b@));
    match from_utf8(prefix) {
        Some(s) => if contains(&s, "<svg") {
            Some(ImageFormat::Svg)
        } else {
            None
        },
        None => None,
    }
}

/// What stands at a path, without following a link.
#[derive(Debug)]
pub enum Entry {
    /// A link.
    Link,
    /// Something else.
    Plain,
    /// Nothing.
    Missing,
    /// It could not be told, for this reason.
    Failed(String),
}

/// A path with what stands at it.
#[derive(Debug)]
pub struct Ancestor {
    pub path: String,
    pub entry: Entry,
}

/// Why a path is refused on account of what stands at it.
pub open spec fn entry_refusal(a: Ancestor) -> Option<Seq<char>> {
    match a.entry {
        Entry::Link => Some("refusing to follow symlink ancestor: "@ + a.path@),
        Entry::Failed(reason) => Some(reason@),
        Entry::Plain => None,
        Entry::Missing => None,
    }
}

/// Why a path is refused on account of the paths above it, from the one at `i` up to the
/// workspace.
pub open spec fn walk_refusal(walk: Seq<Ancestor>, root: Seq<char>, i: int, windows: bool) -> Option<Seq<char>>
    decreases walk.len() - i,
{
    if i >= walk.len() {
        None
    } else {
        match entry_refusal(walk[i]) {
            Some(e) => Some(e),
            None => if paths::place(walk[i].path@, windows) == paths::place(root, windows) {
                None
            } else {
                walk_refusal(walk, root, i + 1, windows)
            },
        }
    }
}

/// Refuses a path that leads through a link. `walk` holds the path itself and those above it,
/// up to the root of the file system; what lies above the workspace does not matter.
pub fn reject_symlink_ancestors(walk: &Vec<Ancestor>, root: &str, windows: bool) -> (r: Result<(), String>)
    ensures
        (match r {
            Ok(_) => None,
            Err(e) => Some(e@),
        }) == walk_refusal(walk@, root@, 0, windows),
{
    let mut i: usize = 0;
    while i < walk.len()
        invariant
            i <= walk.len(),
            walk_refusal(walk@, root@, 0, windows) == walk_refusal(walk@, root@, i as int, windows),
        decreases walk.len() - i,
    {
        match &walk[i].entry {
            Entry::Link => {
                return Err(cat("refusing to follow symlink ancestor: ", &walk[i].path));
            },
            Entry::Failed(reason) => {
                let e = own(reason);
                return Err(e);
            },
            Entry::Plain => {},
            Entry::Missing => {},
        }
        if same_place(&walk[i].path, root, windows) {
            return Ok(());
        }
        i += 1;
    }
    Ok(())
}

/// A path that is not refused leads through no link between itself and the workspace.
pub proof fn accepted_paths_follow_no_link(walk: Seq<Ancestor>, root: Seq<char>, k: int, windows: bool)
    requires
        0 <= k < walk.len(),
        walk_refusal(walk, root, 0, windows) is None,
        forall|j: int|
            0 <= j < k ==> paths::place((#[trigger] walk[j]).path@, windows) != paths::place(
                root,
                windows,
            ),
    ensures
        walk[k].entry !is Link,
        walk[k].entry !is Failed,
{
    lemma_walk(walk, root, 0, k, windows);
}

proof fn lemma_walk(walk: Seq<Ancestor>, root: Seq<char>, i: int, k: int, windows: bool)
    requires
        0 <= i <= k < walk.len(),
        walk_refusal(walk, root, i, windows) is None,
        forall|j: int|
            i <= j < k ==> paths::place((#[trigger] walk[j]).path@, windows) != paths::place(
                root,
                windows,
            ),
    ensures
        entry_refusal(walk[k]) is None,
    decreases k - i,
{
    if i < k {
        assert(paths::place(walk[i].path@, windows) != paths::place(root, windows));
        lemma_walk(walk, root, i + 1, k, windows);
    }
}

/// Refuses a path that is a link itself.
pub fn reject_leaf_symlink(leaf: &Ancestor) -> (r: Result<(), String>)
    ensures
        (match r {
            Ok(_) => None,
            Err(e) => Some(e@),
        }) == (match leaf.entry {
            Entry::Link => Some("refusing to follow symlink leaf: "@ + leaf.path@),
            Entry::Failed(reason) => Some(reason@),
            Entry::Plain => None,
            Entry::Missing => None,
        }),
{
    match &leaf.entry {
        Entry::Link => Err(cat("refusing to follow symlink leaf: ", &leaf.path)),
        Entry::Failed(reason) => {
            let e = own(reason);
            Err(e)
        },
        Entry::Plain => Ok(()),
        Entry::Missing => Ok(()),
    }
}

/// A failed look at an image.
pub open spec fn view_failure(
    output: Seq<char>,
    kind: Seq<char>,
    path: Seq<char>,
) -> ToolResultView {
    tool::detailed_view(
        output,
        false,
        JsonView::Object(
            seq![
                ("codex_tool"@, JsonView::Text("view_image"@)),
                ("error_kind"@, JsonView::Text(kind)),
                ("path"@, JsonView::Text(path)),
            ],
        ),
    )
}

fn fail_view(output: String, kind: &str, path: &str) -> (r: ToolResult)
    ensures
        r@ == view_failure(output@, kind@, path@),
{
    let notes = Fields::new().with("codex_tool", text_json("view_image")).with(
        "error_kind",
        text_json(kind),
    ).with("path", text_json(path));
    assert(notes@ =~= seq![
        ("codex_tool"@, JsonView::Text("view_image"@)),
        ("error_kind"@, JsonView::Text(kind@)),
        ("path"@, JsonView::Text(path@)),
    ]);
    detailed(output, false, notes.object())
}

/// What is said of an image.
pub open spec fn image_fields(path: Seq<char>, f: ImageFormat, byte_length: int) -> Seq<
    (Seq<char>, JsonView),
> {
    seq![
        ("path"@, JsonView::Text(path)),
        ("format"@, JsonView::Text(format_name(f))),
        ("mime_type"@, JsonView::Text(mime_name(f))),
        ("byte_length"@, JsonView::Int(byte_length)),
    ]
}

/// What a look at a file answers, given the bytes that begin it and its length.
pub open spec fn shown_image(path: Seq<char>, header: Seq<u8>, byte_length: int) -> ToolResultView {
    match format_of(header) {
        Some(f) => tool::detailed_view(
            codec::json_text(JsonView::Object(image_fields(path, f, byte_length))),
            true,
            JsonView::Object(
                seq![("codex_tool"@, JsonView::Text("view_image"@))] + image_fields(
                    path,
                    f,
                    byte_length,
                ),
            ),
        ),
        None => tool::detailed_view(
            "view_image: "@ + path
                + " does not match a recognised image header (PNG / JPEG / GIF / WEBP / BMP / SVG)"@,
            false,
            JsonView::Object(
                seq![
                    ("codex_tool"@, JsonView::Text("view_image"@)),
                    ("error_kind"@, JsonView::Text("coding_tool_denied"@)),
                    ("reason"@, JsonView::Text("unrecognised_image_format"@)),
                    ("path"@, JsonView::Text(path)),
                ],
            ),
        ),
    }
}

/// The path that is asked for, where one is.
pub open spec fn asked_path(path: Option<Seq<char>>) -> Option<Seq<char>> {
    match path {
        Some(p) => if text::trim_view(p).len() == 0 {
            None
        } else {
            Some(text::trim_view(p))
        },
        None => None,
    }
}

/// Looks at an image file.
#[derive(Debug)]
pub struct ViewImageTool {
    pub base_dir: String,
    pub filesystem_scope: FilesystemScope,
    pub file_access: FileAccessMode,
}

impl ViewImageTool {
    /// A tool for the workspace at `base_dir`.
    pub fn new(base_dir: &str) -> (r: Self)
        ensures
            r.base_dir@ == base_dir@,
            r.filesystem_scope == FilesystemScope::Workspace,
            r.file_access == FileAccessMode::ReadWrite,
    {
        let dir = own(base_dir);
        ViewImageTool {
            base_dir: dir,
            filesystem_scope: FilesystemScope::Workspace,
            file_access: FileAccessMode::ReadWrite,
        }
    }

    /// Sets which part of the file system the tool may reach.
    pub fn with_filesystem_scope(self, filesystem_scope: FilesystemScope) -> (r: Self)
        ensures
            r == (ViewImageTool { filesystem_scope, ..self }),
    {
        ViewImageTool { filesystem_scope, ..self }
    }

    /// Sets whether files may be changed; the tool reads in either mode.
    pub fn with_file_access(self, file_access: FileAccessMode) -> (r: Self)
        ensures
            r == (ViewImageTool { file_access, ..self }),
    {
        ViewImageTool { file_access, ..self }
    }

    /// The tool's name.
    pub fn name(&self) -> (r: &'static str)
        ensures
            r@ == "view_image"@,
    {
        "view_image"
    }

    /// The path that is asked for, or the answer that there is none.
    pub fn request(&self, path: Option<&str>) -> (r: Result<String, ToolResult>)
        ensures
            (match r {
                Ok(p) => Ok(p@),
                Err(e) => Err(e@),
            }) == (match asked_path(
                match path {
                    Some(p) => Some(p@),
                    None => None,
                },
            ) {
                Some(p) => Ok(p),
                None => Err(tool::plain_view("view_image requires `path`"@, false)),
            }),
    {
        if let Some(p) = path {
            let t = trim(p);
            if !t.as_str().is_empty() {
                return Ok(t);
            }
        }
        let m = own("view_image requires `path`");
        Err(plain_failure(m))
    }

    /// The failure of a path outside the part of the file system that may be reached.
    pub fn out_of_scope(&self, path: &str) -> (r: ToolResult)
        ensures
            r@ == view_failure(
                "view_image: path outside allowed filesystem scope: "@ + path@,
                "coding_tool_denied"@,
                path@,
            ),
    {
        fail_view(
            cat("view_image: path outside allowed filesystem scope: ", path),
            "coding_tool_denied",
            path,
        )
    }

    /// Refuses a path that leads through a link: in the workspace at any place below its root,
    /// on the host only where the path is a link itself. `walk` begins with the path itself.
    pub fn check_links(&self, walk: &Vec<Ancestor>, windows: bool) -> (r: Result<(), String>)
        requires
            walk.len() > 0,
        ensures
            (match r {
                Ok(_) => None,
                Err(e) => Some(e@),
            }) == (if self.filesystem_scope == FilesystemScope::Workspace {
                walk_refusal(walk@, self.base_dir@, 0, windows)
            } else {
                match walk@[0].entry {
                    Entry::Link => Some(
                        "refusing to follow symlink leaf: "@ + walk@[0].path@,
                    ),
                    Entry::Failed(reason) => Some(reason@),
                    Entry::Plain => None,
                    Entry::Missing => None,
                }
            }),
    {
        match self.filesystem_scope {
            FilesystemScope::Workspace => reject_symlink_ancestors(walk, &self.base_dir, windows),
            FilesystemScope::Host => reject_leaf_symlink(&walk[0]),
        }
    }

    /// The failure of a file that cannot be read.
    pub fn unreadable(&self, path: &str, error: &str) -> (r: ToolResult)
        ensures
            r@ == view_failure(
                "view_image: failed to read "@ + path@ + ": "@ + error@,
                "coding_tool_missing"@,
                path@,
            ),
    {
        fail_view(
            cat4("view_image: failed to read ", path, ": ", error),
            "coding_tool_missing",
            path,
        )
    }

    /// What a look at a file answers, given the bytes that begin it and its length.
    pub fn show(&self, path: &str, header: &[u8], byte_length: u64) -> (r: ToolResult)
        ensures
            r@ == shown_image(path@, header@, byte_length as int),
    {
        match detect_image_format(header) {
            Some(f) => {
                let body = Fields::new().with("path", text_json(path)).with(
                    "format",
                    text_json(f.name()),
                ).with("mime_type", text_json(f.mime_type())).with(
                    "byte_length",
                    Json::Unsigned(byte_length),
                );
                assert(body@ =~= image_fields(path@, f, byte_length as int));
                let notes = Fields::new().with("codex_tool", text_json("view_image")).with(
                    "path",
                    text_json(path),
                ).with("format", text_json(f.name())).with(
                    "mime_type",
                    text_json(f.mime_type()),
                ).with("byte_length", Json::Unsigned(byte_length));
                assert(notes@ =~= seq![("codex_tool"@, JsonView::Text("view_image"@))]
                    + image_fields(path@, f, byte_length as int));
                detailed(render_json(&body.object()), true, notes.object())
            },
            None => {
                let notes = Fields::new().with("codex_tool", text_json("view_image")).with(
                    "error_kind",
                    text_json("coding_tool_denied"),
                ).with("reason", text_json("unrecognised_image_format")).with(
                    "path",
                    text_json(path),
                );
                assert(notes@ =~= seq![
                    ("codex_tool"@, JsonView::Text("view_image"@)),
                    ("error_kind"@, JsonView::Text("coding_tool_denied"@)),
                    ("reason"@, JsonView::Text("unrecognised_image_format"@)),
                    ("path"@, JsonView::Text(path@)),
                ]);
                detailed(
                    cat3(
                        "view_image: ",
                        path,
                        " does not match a recognised image header (PNG / JPEG / GIF / WEBP / BMP / SVG)",
                    ),
                    false,
                    notes.object(),
                )
            },
        }
    }
}

/// What a request for an image is answered with where no backend makes one.
pub open spec fn generation_view(
    prompt: Option<Seq<char>>,
    size: Option<Seq<char>>,
    n: Option<u32>,
) -> ToolResultView {
    match asked_path(prompt) {
        None => tool::detailed_view(
            "image_generation requires a non-empty `prompt`"@,
            false,
            JsonView::Object(
                seq![
                    ("codex_tool"@, JsonView::Text("image_generation"@)),
                    ("error_kind"@, JsonView::Text("coding_tool_denied"@)),
                    ("reason"@, JsonView::Text("missing_prompt"@)),
                ],
            ),
        ),
        Some(p) => tool::detailed_view(
            codec::json_text(
                JsonView::Object(
                    seq![
                        (
                            "error"@,
                            JsonView::Text(
                                "image_generation has no native or skill backend bound on this profile"@,
                            ),
                        ),
                        (
                            "follow_up"@,
                            JsonView::Text("https://github.com/octos-org/octos/issues/1149"@),
                        ),
                        ("prompt"@, JsonView::Text(p)),
                    ],
                ),
            ),
            false,
            JsonView::Object(
                seq![
                    ("codex_tool"@, JsonView::Text("image_generation"@)),
                    ("error_kind"@, JsonView::Text("coding_tool_unsupported"@)),
                    ("reason"@, JsonView::Text("no_backend_bound"@)),
                    (
                        "follow_up_issue"@,
                        JsonView::Text("https://github.com/octos-org/octos/issues/1149"@),
                    ),
                    ("accepted_input"@, JsonView::Object(accepted_input(p, size, n))),
                ],
            ),
        ),
    }
}

/// The request as it was understood.
pub open spec fn accepted_input(
    prompt: Seq<char>,
    size: Option<Seq<char>>,
    n: Option<u32>,
) -> Seq<(Seq<char>, JsonView)> {
    seq![
        ("prompt"@, JsonView::Text(prompt)),
        ("size"@, json::text_or_null(size)),
        (
            "n"@,
            match n {
                Some(n) => JsonView::Int(n as int),
                None => JsonView::Null,
            },
        ),
    ]
}

/// Makes an image from a prompt. No backend makes images, so that every request is refused.
#[derive(Debug)]
pub struct ImageGenerationTool;

impl Default for ImageGenerationTool {
    fn default() -> (r: Self)
        ensures
            r == ImageGenerationTool,
    {
        ImageGenerationTool
    }
}

impl ImageGenerationTool {
    /// A tool without a backend.
    pub fn new() -> (r: Self)
        ensures
            r == ImageGenerationTool,
    {
        ImageGenerationTool
    }

    /// The tool's name.
    pub fn name(&self) -> (r: &'static str)
        ensures
            r@ == "image_generation"@,
    {
        "image_generation"
    }

    /// What a request is answered with.
    pub fn execute(&self, prompt: Option<&str>, size: &Option<String>, n: Option<u32>) -> (r:
        ToolResult)
        ensures
            r@ == generation_view(
                match prompt {
                    Some(p) => Some(p@),
                    None => None,
                },
                text::opt(*size),
                n,
            ),
            !r@.success,
    {
        if let Some(raw) = prompt {
            let p = trim(raw);
            if !p.as_str().is_empty() {
                proof {
                    text::lemma_trim_ends(raw@);
                    text::lemma_trim_nothing(p@);
                }
                return unsupported(&p, size, n);
            }
        }
        let m = own("image_generation requires a non-empty `prompt`");
        let notes = Fields::new().with("codex_tool", text_json("image_generation")).with(
            "error_kind",
            text_json("coding_tool_denied"),
        ).with("reason", text_json("missing_prompt"));
        assert(notes@ =~= seq![
            ("codex_tool"@, JsonView::Text("image_generation"@)),
            ("error_kind"@, JsonView::Text("coding_tool_denied"@)),
            ("reason"@, JsonView::Text("missing_prompt"@)),
        ]);
        detailed(m, false, notes.object())
    }
}

fn unsupported(prompt: &str, size: &Option<String>, n: Option<u32>) -> (r: ToolResult)
    requires
        prompt@.len() > 0,
        text::trim_view(prompt@) == prompt@,
    ensures
        r@ == generation_view(Some(prompt@), text::opt(*size), n),
{
    let body = Fields::new().with(
        "error",
        text_json("image_generation has no native or skill backend bound on this profile"),
    ).with("follow_up", text_json("https://github.com/octos-org/octos/issues/1149")).with(
        "prompt",
        text_json(prompt),
    );
    assert(body@ =~= seq![
        (
            "error"@,
            JsonView::Text(
                "image_generation has no native or skill backend bound on this profile"@,
            ),
        ),
        ("follow_up"@, JsonView::Text("https://github.com/octos-org/octos/issues/1149"@)),
        ("prompt"@, JsonView::Text(prompt@)),
    ]);
    let count = match n {
        Some(n) => Json::Unsigned(n as u64),
        None => Json::Null,
    };
    let input = Fields::new().with("prompt", text_json(prompt)).with(
        "size",
        opt_text_json(size),
    ).with("n", count);
    assert(input@ =~= accepted_input(prompt@, text::opt(*size), n));
    let notes = Fields::new().with("codex_tool", text_json("image_generation")).with(
        "error_kind",
        text_json("coding_tool_unsupported"),
    ).with("reason", text_json("no_backend_bound")).with(
        "follow_up_issue",
        text_json("https://github.com/octos-org/octos/issues/1149"),
    ).with("accepted_input", input.object());
    assert(notes@ =~= seq![
        ("codex_tool"@, JsonView::Text("image_generation"@)),
        ("error_kind"@, JsonView::Text("coding_tool_unsupported"@)),
        ("reason"@, JsonView::Text("no_backend_bound"@)),
        ("follow_up_issue"@, JsonView::Text("https://github.com/octos-org/octos/issues/1149"@)),
        (
            "accepted_input"@,
            JsonView::Object(accepted_input(prompt@, text::opt(*size), n)),
        ),
    ]);
    detailed(render_json(&body.object()), false, notes.object())
}

} // verus!
