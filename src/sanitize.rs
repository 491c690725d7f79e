//! Cleaning of base64 image payloads in outgoing chat requests: blanks,
//! a wrapping pair of brackets or quotes and every other stray character
//! are removed, and what is left must decode.
use vstd::prelude::*;
use vstd::string::StringExecFns;
use vstd::string::StrSliceExecFns;
use base64::Engine as _;
use crate::text::{push_char, same_text, joined};

verus! {

/// The characters dropped first: newline, carriage return and space.
pub open spec fn is_blank(c: char) -> bool {
    c == '\n' || c == '\r' || c == ' '
}

/// A character of the standard base64 alphabet, padding included.
pub open spec fn is_base64_char(c: char) -> bool {
    ('a' as u32 <= c as u32 <= 'z' as u32) || ('A' as u32 <= c as u32 <= 'Z' as u32) || (
    '0' as u32 <= c as u32 <= '9' as u32) || c == '+' || c == '/' || c == '='
}

/// `s` without its blanks.
pub open spec fn without_blanks(s: Seq<char>) -> Seq<char>
    decreases s.len(),
{
    if s.len() == 0 {
        s
    } else {
        without_blanks(s.drop_last()) + if is_blank(s.last()) {
            Seq::empty()
        } else {
            seq![s.last()]
        }
    }
}

/// The characters of `s` that belong to the base64 alphabet.
pub open spec fn base64_only(s: Seq<char>) -> Seq<char>
    decreases s.len(),
{
    if s.len() == 0 {
        s
    } else {
        base64_only(s.drop_last()) + if is_base64_char(s.last()) {
            seq![s.last()]
        } else {
            Seq::empty()
        }
    }
}

/// `s` without its first and last character when they are `open` and
/// `close`; a single character is never unwrapped.
pub open spec fn unwrapped(s: Seq<char>, open: char, close: char) -> Seq<char> {
    if s.len() >= 2 && s[0] == open && s.last() == close {
        s.subrange(1, s.len() - 1)
    } else {
        s
    }
}

/// The cleaned form of a base64 payload.
pub open spec fn cleaned_base64(s: Seq<char>) -> Seq<char> {
    base64_only(unwrapped(unwrapped(without_blanks(s), '[', ']'), '"', '"'))
}

/// What the standard base64 engine decodes `s` to, if it decodes.
pub uninterp spec fn standard_decoded(s: Seq<char>) -> Option<Seq<u8>>;

/// Relies on `base64::engine::general_purpose::STANDARD.decode`: it succeeds
/// exactly on the texts that decode; its error is kept as text.
#[verifier::external_body]
fn decode_standard(s: &str) -> (r: Result<Vec<u8>, String>)
    ensures
        match r {
            Ok(v) => standard_decoded(s@) == Some(v@),
            Err(_) => standard_decoded(s@) is None,
        },
{
    base64::engine::general_purpose::STANDARD.decode(s).map_err(|e| e.to_string())
}

fn drop_blanks(s: &str) -> (r: String)
    ensures
        r@ == without_blanks(s@),
{
    broadcast use vstd::string::group_string_axioms;

    let mut out = String::new();
    for c in it: s.chars()
        invariant
            it.seq() == s@,
            out@ == without_blanks(s@.take(it.index() as int)),
    {
        assert(s@.take(it.index() + 1 as int).drop_last() =~= s@.take(it.index() as int));
        if !(c == '\n' || c == '\r' || c == ' ') {
            push_char(&mut out, c);
        }
    }
    assert(s@.take(s@.len() as int) =~= s@);
    out
}

fn keep_base64(s: &str) -> (r: String)
    ensures
        r@ == base64_only(s@),
{
    broadcast use vstd::string::group_string_axioms;

    let mut out = String::new();
    for c in it: s.chars()
        invariant
            it.seq() == s@,
            out@ == base64_only(s@.take(it.index() as int)),
    {
        assert(s@.take(it.index() + 1 as int).drop_last() =~= s@.take(it.index() as int));
        let u = c as u32;
        if ('a' as u32 <= u && u <= 'z' as u32) || ('A' as u32 <= u && u <= 'Z' as u32) || (
        '0' as u32 <= u && u <= '9' as u32) || c == '+' || c == '/' || c == '=' {
            push_char(&mut out, c);
        }
    }
    assert(s@.take(s@.len() as int) =~= s@);
    out
}

fn unwrap_pair(s: String, open: char, close: char) -> (r: String)
    ensures
        r@ == unwrapped(s@, open, close),
{
    let n = s.as_str().unicode_len();
    if n >= 2 && s.as_str().get_char(0) == open && s.as_str().get_char(n - 1) == close {
        String::from_str(s.as_str().substring_char(1, n - 1))
    } else {
        s
    }
}

/// Cleans a base64 payload: drops blanks, then one wrapping pair of square
/// brackets, then one wrapping pair of double quotes, then every character
/// outside the base64 alphabet.
pub fn clean_base64(data: &str) -> (r: String)
    ensures
        r@ == cleaned_base64(data@),
{
    let s = drop_blanks(data);
    let s = unwrap_pair(s, '[', ']');
    let s = unwrap_pair(s, '"', '"');
    keep_base64(s.as_str())
}

/// Cleans a base64 payload and checks that the result decodes: the cleaned
/// text when it does, otherwise an error that starts `Invalid base64 data: `.
pub fn sanitize_base64(data: &str) -> (r: Result<String, String>)
    ensures
        match r {
            Ok(c) => c@ == cleaned_base64(data@) && standard_decoded(c@) is Some,
            Err(m) => standard_decoded(cleaned_base64(data@)) is None
                && "Invalid base64 data: "@.is_prefix_of(m@),
        },
{
    let clean = clean_base64(data);
    match decode_standard(clean.as_str()) {
        Ok(_) => Ok(clean),
        Err(e) => {
            let m = joined("Invalid base64 data: ", e.as_str());
            assert(m@.subrange(0, "Invalid base64 data: "@.len() as int) =~= "Invalid base64 data: "@);
            Err(m)
        },
    }
}

/// What to do with the `source` of one content item of a request.
#[derive(Debug, PartialEq, Eq)]
pub enum SourceEdit {
    /// The item is left as it is.
    Keep,
    /// Its `data` is replaced by this cleaned payload.
    Replace(String),
    /// The request is refused with this message.
    Reject(String),
}

/// The payload of an item whose `type` is `image` and whose source `type`
/// is `base64`, if it has one.
pub open spec fn selected_payload(
    item_type: Option<Seq<char>>,
    source_type: Option<Seq<char>>,
    data: Option<Seq<char>>,
) -> Option<Seq<char>> {
    if item_type == Some("image"@) && source_type == Some("base64"@) {
        data
    } else {
        None
    }
}

/// The view of an optional string.
pub open spec fn text_view(o: Option<&str>) -> Option<Seq<char>> {
    match o {
        Some(s) => Some(s@),
        None => None,
    }
}

/// Decides what happens to the source of one content item, given the item's
/// `type`, its source's `type` and its source's `data`, where present as
/// strings: only a base64 image payload is cleaned, and one that does not
/// decode after cleaning refuses the request.
pub fn edit_image_source(
    item_type: Option<&str>,
    source_type: Option<&str>,
    data: Option<&str>,
) -> (r: SourceEdit)
    ensures
        match selected_payload(text_view(item_type), text_view(source_type), text_view(data)) {
            None => r is Keep,
            Some(d) => match r {
                SourceEdit::Keep => false,
                SourceEdit::Replace(c) => c@ == cleaned_base64(d) && standard_decoded(c@) is Some,
                SourceEdit::Reject(m) => standard_decoded(cleaned_base64(d)) is None
                    && "Invalid base64 data: "@.is_prefix_of(m@),
            },
        },
{
    let is_image = match item_type {
        Some(t) => same_text(t, "image"),
        None => false,
    };
    let is_base64 = match source_type {
        Some(t) => same_text(t, "base64"),
        None => false,
    };
    if !is_image || !is_base64 {
        return SourceEdit::Keep;
    }
    match data {
        None => SourceEdit::Keep,
        Some(d) => match sanitize_base64(d) {
            Ok(c) => SourceEdit::Replace(c),
            Err(m) => SourceEdit::Reject(m),
        },
    }
}

/// The fields of one content item that the sanitiser reads: the item's
/// `type`, and its source's `type` and `data`, where present as strings.
pub struct ContentItem {
    pub item_type: Option<String>,
    pub source_type: Option<String>,
    pub data: Option<String>,
}

/// The view of an optional owned string.
pub open spec fn owned_view(o: Option<String>) -> Option<Seq<char>> {
    match o {
        Some(s) => Some(s@),
        None => None,
    }
}

/// The base64 image payload of an item, if it carries one.
pub open spec fn item_payload(it: ContentItem) -> Option<Seq<char>> {
    selected_payload(owned_view(it.item_type), owned_view(it.source_type), owned_view(it.data))
}

/// An item whose payload does not decode once cleaned.
pub open spec fn item_rejected(it: ContentItem) -> bool {
    item_payload(it) matches Some(d) && standard_decoded(cleaned_base64(d)) is None
}

/// The cleaned payload that replaces an item's data, if it has a payload.
pub open spec fn item_replacement(it: ContentItem) -> Option<Seq<char>> {
    match item_payload(it) {
        Some(d) => Some(cleaned_base64(d)),
        None => None,
    }
}

fn as_text(o: &Option<String>) -> (r: Option<&str>)
    ensures
        text_view(r) == owned_view(*o),
{
    match o {
        Some(s) => Some(s.as_str()),
        None => None,
    }
}

/// Decides the edits of all content items of a request: for each item the
/// cleaned payload that replaces its data, or none; or, where some payload
/// does not decode, the error of the first such item.
pub fn edit_image_sources(items: &Vec<ContentItem>) -> (r: Result<Vec<Option<String>>, String>)
    ensures
        match r {
            Ok(v) => v@.len() == items@.len() && forall|i: int|
                0 <= i < items@.len() ==> !#[trigger] item_rejected(items@[i]) && owned_view(v@[i])
                    == item_replacement(items@[i]),
            Err(m) => "Invalid base64 data: "@.is_prefix_of(m@) && exists|k: int|
                0 <= k < items@.len() && #[trigger] item_rejected(items@[k]) && forall|i: int|
                    0 <= i < k ==> !#[trigger] item_rejected(items@[i]),
        },
{
    let mut out: Vec<Option<String>> = Vec::new();
    let mut i: usize = 0;
    while i < items.len()
        invariant
            i <= items@.len(),
            out@.len() == i,
            forall|k: int|
                0 <= k < i ==> !#[trigger] item_rejected(items@[k]) && owned_view(out@[k])
                    == item_replacement(items@[k]),
        decreases items@.len() - i,
    {
        let it = &items[i];
        match edit_image_source(as_text(&it.item_type), as_text(&it.source_type), as_text(&it.data)) {
            SourceEdit::Keep => out.push(None),
            SourceEdit::Replace(c) => out.push(Some(c)),
            SourceEdit::Reject(m) => {
                assert(item_rejected(items@[i as int]));
                return Err(m);
            },
        }
        i = i + 1;
    }
    Ok(out)
}

} // verus!
