//! Which files are taken for images, what is said of them, and which are not looked at.

use vstd::prelude::*;

use crate::codec;
use crate::image;
use crate::image::{Ancestor, Entry, ImageFormat};
use crate::json;
use crate::json::JsonView;
use crate::laws::checks;
use crate::laws::texts;
use crate::paths;
use crate::text;

verus! {

/// A file that begins with the signature of a format is of that format, whatever follows.
pub proof fn signatures_tell_the_format(b: Seq<u8>)
    ensures
        seq![0x89u8, 0x50, 0x4E, 0x47, 0x0D, 0x0A, 0x1A, 0x0A].is_prefix_of(b) ==> image::format_of(b)
            == Some(ImageFormat::Png),
        seq![0xFFu8, 0xD8, 0xFF].is_prefix_of(b) ==> image::format_of(b) == Some(
            ImageFormat::Jpeg,
        ),
        seq![0x47u8, 0x49, 0x46, 0x38, 0x37, 0x61].is_prefix_of(b) ==> image::format_of(b) == Some(
            ImageFormat::Gif,
        ),
        seq![0x47u8, 0x49, 0x46, 0x38, 0x39, 0x61].is_prefix_of(b) ==> image::format_of(b) == Some(
            ImageFormat::Gif,
        ),
        seq![0x42u8, 0x4D].is_prefix_of(b) ==> image::format_of(b) == Some(ImageFormat::Bmp),
        b.len() >= 12 && b.subrange(0, 4) == seq![0x52u8, 0x49, 0x46, 0x46] && b.subrange(8, 12)
            == seq![0x57u8, 0x45, 0x42, 0x50] ==> image::format_of(b) == Some(ImageFormat::Webp),
{
    lemma_first_byte(b, seq![0x89u8, 0x50, 0x4E, 0x47, 0x0D, 0x0A, 0x1A, 0x0A]);
    lemma_first_byte(b, seq![0xFFu8, 0xD8, 0xFF]);
    lemma_first_byte(b, seq![0x47u8, 0x49, 0x46, 0x38, 0x37, 0x61]);
    lemma_first_byte(b, seq![0x47u8, 0x49, 0x46, 0x38, 0x39, 0x61]);
    lemma_first_byte(b, seq![0x42u8, 0x4D]);
    lemma_first_byte(b, seq![0x52u8, 0x49, 0x46, 0x46]);
}

proof fn lemma_first_byte(b: Seq<u8>, p: Seq<u8>)
    requires
        p.len() > 0,
    ensures
        p.is_prefix_of(b) <==> image::bytes_at(b, 0, p),
        image::bytes_at(b, 0, p) ==> b[0] == p[0],
{
    if p.is_prefix_of(b) {
        assert(b.subrange(0, p.len() as int) =~= p);
    }
    if image::bytes_at(b, 0, p) {
        assert(b.subrange(0, p.len() as int)[0] == b[0]);
    }
}

/// A text that holds the tag of SVG in its first two hundred and fifty-six bytes is an SVG image.
pub proof fn tagged_texts_are_images(s: Seq<char>)
    requires
        s.len() > 0,
        s[0] == '<' || s[0] == ' ' || s[0] == '\n',
        vstd::utf8::encode_utf8(s).len() <= 256,
    ensures
        image::format_of(vstd::utf8::encode_utf8(s)) == (if text::has(s, "<svg"@) {
            Some(ImageFormat::Svg)
        } else {
            None
        }),
{
    let b = vstd::utf8::encode_utf8(s);
    vstd::utf8::encode_utf8_valid_utf8(s);
    vstd::utf8::encode_utf8_decode_utf8(s);
    reveal_with_fuel(vstd::utf8::encode_utf8, 1);
    lemma_ascii_first(s);
    lemma_first_byte(b, seq![0x89u8, 0x50, 0x4E, 0x47, 0x0D, 0x0A, 0x1A, 0x0A]);
    lemma_first_byte(b, seq![0xFFu8, 0xD8, 0xFF]);
    lemma_first_byte(b, seq![0x47u8, 0x49, 0x46, 0x38, 0x37, 0x61]);
    lemma_first_byte(b, seq![0x47u8, 0x49, 0x46, 0x38, 0x39, 0x61]);
    lemma_first_byte(b, seq![0x42u8, 0x4D]);
    lemma_first_byte(b, seq![0x52u8, 0x49, 0x46, 0x46]);
}

proof fn lemma_ascii_first(s: Seq<char>)
    requires
        s.len() > 0,
        s[0] == '<' || s[0] == ' ' || s[0] == '\n',
    ensures
        vstd::utf8::encode_utf8(s).len() > 0,
        vstd::utf8::encode_utf8(s)[0] == s[0] as u8,
{
    let rest = s.drop_first();
    assert(vstd::utf8::encode_utf8(s) =~= vstd::utf8::encode_scalar(s[0] as u32)
        + vstd::utf8::encode_utf8(rest));
    let c = s[0] as u32;
    assert((c & 0x7f) as u8 == c as u8) by (bit_vector)
        requires
            c < 0x80,
    ;
}

/// Each format has its own name and its own media type.
pub proof fn formats_are_named()
    ensures
        image::format_name(ImageFormat::Png) == "png"@ && image::mime_name(ImageFormat::Png)
            == "image/png"@,
        image::format_name(ImageFormat::Jpeg) == "jpeg"@ && image::mime_name(ImageFormat::Jpeg)
            == "image/jpeg"@,
        image::format_name(ImageFormat::Gif) == "gif"@ && image::mime_name(ImageFormat::Gif)
            == "image/gif"@,
        image::format_name(ImageFormat::Webp) == "webp"@ && image::mime_name(ImageFormat::Webp)
            == "image/webp"@,
        image::format_name(ImageFormat::Bmp) == "bmp"@ && image::mime_name(ImageFormat::Bmp)
            == "image/bmp"@,
        image::format_name(ImageFormat::Svg) == "svg"@ && image::mime_name(ImageFormat::Svg)
            == "image/svg+xml"@,
{
}

/// A look at an image is a success that says its path, its format, its media type and its length; a
/// look at any other file is a failure that names the path.
pub proof fn images_are_described(path: Seq<char>, header: Seq<u8>, n: int)
    ensures
        ({
            let r = image::shown_image(path, header, n);
            &&& r.success <==> image::format_of(header) is Some
            &&& r.structured_metadata is Some
            &&& r.file_modified is None
            &&& checks::holds(r.structured_metadata->0, "path"@, JsonView::Text(path))
            &&& image::format_of(header) matches Some(f) ==> {
                let m = r.structured_metadata->0;
                &&& checks::holds(m, "format"@, JsonView::Text(image::format_name(f)))
                &&& checks::holds(m, "mime_type"@, JsonView::Text(image::mime_name(f)))
                &&& checks::holds(m, "byte_length"@, JsonView::Int(n))
                &&& r.output == codec::json_text(
                    JsonView::Object(
                        seq![
                            ("path"@, JsonView::Text(path)),
                            ("format"@, JsonView::Text(image::format_name(f))),
                            ("mime_type"@, JsonView::Text(image::mime_name(f))),
                            ("byte_length"@, JsonView::Int(n)),
                        ],
                    ),
                )
            }
            &&& image::format_of(header) is None ==> text::starts(
                r.output,
                "view_image: "@ + path,
            ) && checks::holds(
                r.structured_metadata->0,
                "error_kind"@,
                JsonView::Text("coding_tool_denied"@),
            )
        }),
{
    let r = image::shown_image(path, header, n);
    let m = (r.structured_metadata->0)->Object_0;
    if let Some(f) = image::format_of(header) {
        assert(m[1] == ("path"@, JsonView::Text(path)));
        assert(m[2] == ("format"@, JsonView::Text(image::format_name(f))));
        assert(m[3] == ("mime_type"@, JsonView::Text(image::mime_name(f))));
        assert(m[4] == ("byte_length"@, JsonView::Int(n)));
        assert(m.contains(m[1]) && m.contains(m[2]) && m.contains(m[3]) && m.contains(m[4]));
    } else {
        assert(m[1] == ("error_kind"@, JsonView::Text("coding_tool_denied"@)));
        assert(m[3] == ("path"@, JsonView::Text(path)));
        assert(m.contains(m[1]) && m.contains(m[3]));
        let lead = "view_image: "@ + path;
        assert(r.output.subrange(0, lead.len() as int) =~= lead);
    }
}

/// A path that leads through a link below the workspace is refused, with the link's path; so is one
/// of which it cannot be told. What lies above the workspace does not matter.
pub proof fn links_are_not_followed(
    walk: Seq<Ancestor>,
    root: Seq<char>,
    k: int,
    windows: bool,
)
    requires
        0 <= k < walk.len(),
        forall|j: int|
            0 <= j < k ==> paths::place((#[trigger] walk[j]).path@, windows) != paths::place(
                root,
                windows,
            ) && (walk[j].entry is Plain || walk[j].entry is Missing),
    ensures
        walk[k].entry is Link ==> image::walk_refusal(walk, root, 0, windows) == Some(
            "refusing to follow symlink ancestor: "@ + walk[k].path@,
        ),
        walk[k].entry matches Entry::Failed(reason) ==> image::walk_refusal(
            walk,
            root,
            0,
            windows,
        ) == Some(reason@),
        (walk[k].entry is Plain || walk[k].entry is Missing) && paths::place(
            walk[k].path@,
            windows,
        ) == paths::place(root, windows) ==> image::walk_refusal(walk, root, 0, windows) is None,
{
    lemma_walked(walk, root, 0, k, windows);
}

proof fn lemma_walked(walk: Seq<Ancestor>, root: Seq<char>, i: int, k: int, windows: bool)
    requires
        0 <= i <= k < walk.len(),
        forall|j: int|
            i <= j < k ==> paths::place((#[trigger] walk[j]).path@, windows) != paths::place(
                root,
                windows,
            ) && (walk[j].entry is Plain || walk[j].entry is Missing),
    ensures
        image::walk_refusal(walk, root, i, windows) == image::walk_refusal(walk, root, k, windows),
    decreases k - i,
{
    if i < k {
        assert(walk[i].entry is Plain || walk[i].entry is Missing);
        lemma_walked(walk, root, i + 1, k, windows);
    }
}

/// A path is asked for without the white space around it; a blank one is none.
pub proof fn asked_paths_are_trimmed(a: Seq<char>, p: Seq<char>, b: Seq<char>)
    requires
        forall|i: int| 0 <= i < a.len() ==> text::white(#[trigger] a[i]),
        forall|i: int| 0 <= i < b.len() ==> text::white(#[trigger] b[i]),
        p.len() > 0,
        !text::white(p[0]),
        !text::white(p.last()),
    ensures
        image::asked_path(Some(a + p + b)) == Some(p),
        image::asked_path(Some(a)) is None,
        image::asked_path(None) is None,
{
    texts::trimming_takes_white_space_alone(a, p, b);
    texts::trimming_takes_white_space_alone(a, Seq::empty(), Seq::empty());
    assert(a + Seq::<char>::empty() + Seq::<char>::empty() =~= a);
}

/// No request makes an image: one without a prompt is refused as such, any other as one for which
/// there is no backend, and what was understood of it is given back.
pub proof fn no_image_is_generated(
    prompt: Option<Seq<char>>,
    size: Option<Seq<char>>,
    n: Option<u32>,
)
    ensures
        ({
            let r = image::generation_view(prompt, size, n);
            &&& !r.success
            &&& r.structured_metadata is Some
            &&& prompt is None || text::trim_view(prompt->0).len() == 0 ==> checks::holds(
                r.structured_metadata->0,
                "reason"@,
                JsonView::Text("missing_prompt"@),
            )
            &&& prompt is Some && text::trim_view(prompt->0).len() > 0 ==> checks::holds(
                r.structured_metadata->0,
                "error_kind"@,
                JsonView::Text("coding_tool_unsupported"@),
            ) && checks::holds(
                r.structured_metadata->0,
                "accepted_input"@,
                JsonView::Object(
                    seq![
                        ("prompt"@, JsonView::Text(text::trim_view(prompt->0))),
                        ("size"@, json::text_or_null(size)),
                        (
                            "n"@,
                            match n {
                                Some(k) => JsonView::Int(k as int),
                                None => JsonView::Null,
                            },
                        ),
                    ],
                ),
            )
        }),
{
    let r = image::generation_view(prompt, size, n);
    let m = (r.structured_metadata->0)->Object_0;
    if prompt is Some && text::trim_view(prompt->0).len() > 0 {
        assert(m[1] == ("error_kind"@, JsonView::Text("coding_tool_unsupported"@)));
        let input = seq![
            ("prompt"@, JsonView::Text(text::trim_view(prompt->0))),
            ("size"@, json::text_or_null(size)),
            (
                "n"@,
                match n {
                    Some(k) => JsonView::Int(k as int),
                    None => JsonView::Null,
                },
            ),
        ];
        assert(image::accepted_input(text::trim_view(prompt->0), size, n) =~= input);
        assert(m[4] == ("accepted_input"@, JsonView::Object(input)));
        assert(m.contains(m[1]) && m.contains(m[4]));
    } else {
        assert(m[2] == ("reason"@, JsonView::Text("missing_prompt"@)));
        assert(m.contains(m[2]));
    }
}

} // verus!
