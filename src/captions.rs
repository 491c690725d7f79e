//! Caption files: a caption is stored beside its image, in a text file
//! named after the image's stem.
use vstd::prelude::*;
use vstd::string::StringExecFns;
use vstd::string::StrSliceExecFns;
use crate::listing::{last_dot, last_dot_end, is_dot_dot, lemma_last_dot_range};

verus! {

/// The stem of a file name, as `Path::file_stem` finds it: the part before
/// the last `.`, unless that dot is the name's first character or there is
/// none; `..` is its own stem.
pub open spec fn stem_of(name: Seq<char>) -> Seq<char> {
    if name == seq!['.', '.'] || last_dot(name) <= 0 {
        name
    } else {
        name.subrange(0, last_dot(name))
    }
}

/// The name of the caption file for an image file called `name`.
pub open spec fn caption_name_of(name: Seq<char>) -> Seq<char> {
    stem_of(name) + ".txt"@
}

/// The stem of a file name.
pub fn file_stem(name: &str) -> (r: String)
    ensures
        r@ == stem_of(name@),
{
    let i = last_dot_end(name);
    if is_dot_dot(name) || i <= 1 {
        return String::from_str(name);
    }
    proof {
        lemma_last_dot_range(name@);
    }
    String::from_str(name.substring_char(0, i - 1))
}

/// The name of the caption file for an image file called `name`: its stem
/// followed by `.txt`.
pub fn caption_file_name(name: &str) -> (r: String)
    ensures
        r@ == caption_name_of(name@),
{
    let mut s = file_stem(name);
    s.append(".txt");
    s
}

} // verus!
