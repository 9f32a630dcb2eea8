//! Decisions behind the painted chrome: how the wordmark is laid out for a
//! terminal width, which grammar a code fence label names, and how a
//! session badge is identified.
use vstd::prelude::*;
use crate::text::{ascii_lower_seq, trim, trim_string, ascii_lowercase, str_eq, chars_of, string_from_range};

verus! {

/// Columns per row of the wordmark.
pub const ART_WIDTH: usize = 62;

/// The column `crow` ends on; `-cli` starts here.
pub const ART_SPLIT: usize = 33;

/// The wordmark as plain text, for terminals too narrow for the art.
pub const WORDMARK: &'static str = "crow-cli";

/// The crow-cli wordmark's rows, top to bottom.
pub open spec fn wordmark_rows() -> Seq<Seq<char>> {
    seq![
        "                                                ___           "@,
        "                                               /\\_ \\    __    "@,
        "  ___   _ __   ___   __  __  __             ___\\//\\ \\  /\\_\\   "@,
        " /'___\\/\\`'__\\/ __`\\/\\ \\/\\ \\/\\ \\  _______  /'___\\\\ \\ \\ \\/\\ \\  "@,
        "/\\ \\__/\\ \\ \\//\\ \\L\\ \\ \\ \\_/ \\_/ \\/\\______\\/\\ \\__/ \\_\\ \\_\\ \\ \\ "@,
        "\\ \\____\\\\ \\_\\\\ \\____/\\ \\___x___/'\\/______/\\ \\____\\/\\____\\\\ \\_\\"@,
        " \\/____/ \\/_/ \\/___/  \\/__//__/            \\/____/\\/____/ \\/_/"@,
    ]
}

/// The crow-cli wordmark, seven rows of `ART_WIDTH` columns.
pub fn crow_cli_rows() -> (r: Vec<&'static str>)
    ensures
        r@.map_values(|row: &'static str| row@) == wordmark_rows(),
{
    let r = vec![
        "                                                ___           ",
        "                                               /\\_ \\    __    ",
        "  ___   _ __   ___   __  __  __             ___\\//\\ \\  /\\_\\   ",
        " /'___\\/\\`'__\\/ __`\\/\\ \\/\\ \\/\\ \\  _______  /'___\\\\ \\ \\ \\/\\ \\  ",
        "/\\ \\__/\\ \\ \\//\\ \\L\\ \\ \\ \\_/ \\_/ \\/\\______\\/\\ \\__/ \\_\\ \\_\\ \\ \\ ",
        "\\ \\____\\\\ \\_\\\\ \\____/\\ \\___x___/'\\/______/\\ \\____\\/\\____\\\\ \\_\\",
        " \\/____/ \\/_/ \\/___/  \\/__//__/            \\/____/\\/____/ \\/_/",
    ];
    assert(r@.map_values(|row: &'static str| row@) =~= wordmark_rows());
    r
}

/// A row cut after `at` characters: the gradient part and the ink part.
pub fn split_row(row: &str, at: usize) -> (r: (String, String))
    ensures
        r.0@ == row@.take(if at < row@.len() { at as int } else { row@.len() as int }),
        r.1@ == row@.skip(if at < row@.len() { at as int } else { row@.len() as int }),
{
    let v = chars_of(row);
    let cut = if at < v.len() {
        at
    } else {
        v.len()
    };
    let head = string_from_range(&v, 0, cut);
    let tail = string_from_range(&v, cut, v.len());
    proof {
        assert(v@.subrange(0, cut as int) =~= v@.take(cut as int));
        assert(v@.subrange(cut as int, v@.len() as int) =~= v@.skip(cut as int));
    }
    (head, tail)
}

/// How the wordmark fits a terminal width.
#[derive(Clone, Copy, Debug, PartialEq, Eq, Structural)]
pub enum LogoLayout {
    /// The full art, each row indented by `pad` columns.
    Art { pad: usize },
    /// The plain `crow-cli` wordmark, indented by `pad` columns.
    Wordmark { pad: usize },
    /// Too narrow for either.
    Nothing,
}

/// The art is centred where two columns to spare remain; a narrower
/// terminal that still fits the eight-column wordmark gets it centred;
/// anything narrower gets nothing.
pub open spec fn layout_for(width: int) -> LogoLayout {
    if width < ART_WIDTH + 2 {
        if width >= 8 {
            LogoLayout::Wordmark { pad: ((width - 8) / 2) as usize }
        } else {
            LogoLayout::Nothing
        }
    } else {
        LogoLayout::Art { pad: ((width - ART_WIDTH) / 2) as usize }
    }
}

/// The wordmark layout for a terminal `width` columns wide.
pub fn logo_layout(width: u16) -> (r: LogoLayout)
    ensures
        r == layout_for(width as int),
{
    let w = width as usize;
    if w < ART_WIDTH + 2 {
        if w >= 8 {
            LogoLayout::Wordmark { pad: (w - 8) / 2 }
        } else {
            LogoLayout::Nothing
        }
    } else {
        LogoLayout::Art { pad: (w - ART_WIDTH) / 2 }
    }
}

/// The grammar token a fence label names: trimmed and ASCII-lowercased,
/// with the spellings the default grammar set lacks mapped to the grammar
/// that covers them.
pub open spec fn syntax_token_of(lang: Seq<char>) -> Seq<char> {
    let label = ascii_lower_seq(trim(lang));
    if label == "typescript"@ || label == "tsx"@ {
        "javascript"@
    } else if label == "console"@ {
        "bash"@
    } else {
        label
    }
}

/// The grammar token to look a fence label up by.
pub fn syntax_token(lang: &str) -> (r: String)
    ensures
        r@ == syntax_token_of(lang@),
{
    let trimmed = trim_string(lang);
    let label = ascii_lowercase(trimmed.as_str());
    if str_eq(label.as_str(), "typescript") || str_eq(label.as_str(), "tsx") {
        "javascript".to_owned()
    } else if str_eq(label.as_str(), "console") {
        "bash".to_owned()
    } else {
        label
    }
}

/// A session-scoped registry icon.
pub struct Badge {
    pub session: String,
    pub name: String,
    pub pixels: Option<Vec<u8>>,
    pub image_id: u32,
}

/// The session named by a badge node id.
pub fn badge_session(id: &str) -> (r: Option<String>)
    ensures
        match r {
            Some(s) => id@.contains(':') && exists|k: int|
                0 <= k < id@.len() && id@[k] == ':' && (forall|j: int| 0 <= j < k ==> id@[j] != ':')
                    && s@ == id@.skip(k + 1),
            None => !id@.contains(':'),
        },
{
    let v = chars_of(id);
    match crate::text::index_of_char(&v, ':') {
        Some(k) => {
            let s = string_from_range(&v, k + 1, v.len());
            assert(v@.subrange(k + 1, v@.len() as int) =~= v@.skip(k + 1));
            Some(s)
        },
        None => None,
    }
}

/// The terminal image id of a badge from the hash of its pixels: distinct
/// images get distinct ids within the badge id range.
pub fn badge_image_id(hash: u64) -> (r: u32)
    ensures
        r == (0x6000_0000u32 | ((hash as u32) & 0x0fff_ffffu32)),
{
    0x6000_0000u32 | ((hash as u32) & 0x0fff_ffffu32)
}

/// Whether a badge image is shown: a PNG of at most 700 000 encoded bytes
/// whose decoded size is between 1×1 and 256×256 and that decodes as an
/// image.
pub fn badge_pixels_accepted(encoded_len: usize, mime: &str, dims: Option<(u32, u32)>, decodes: bool) -> (r: bool)
    ensures
        r == (encoded_len <= 700_000 && mime@ == "image/png"@ && (dims matches Some(d) && 0 < d.0 <= 256
            && 0 < d.1 <= 256) && decodes),
{
    if encoded_len > 700_000 || !str_eq(mime, "image/png") {
        return false;
    }
    match dims {
        Some((w, h)) => w > 0 && h > 0 && w <= 256 && h <= 256 && decodes,
        None => false,
    }
}

} // verus!
