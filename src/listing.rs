//! Directory listings: which entries are images, and the order in which
//! entries are shown (directories first, then by case-folded name).
use vstd::prelude::*;
use vstd::string::StringExecFns;
use vstd::string::StrSliceExecFns;

verus! {

broadcast use vstd::seq_lib::group_to_multiset_ensures;

/// One entry of a directory.
#[derive(Debug)]
pub struct FileInfo {
    pub path: String,
    pub name: String,
    pub is_dir: bool,
    pub size: u64,
}

/// The entries of a directory, in listing order, and how many are images.
#[derive(Debug)]
pub struct DirectoryContents {
    pub files: Vec<FileInfo>,
    pub image_count: usize,
}

/// What `str::to_lowercase` gives for a string.
pub uninterp spec fn lower_of(s: Seq<char>) -> Seq<char>;

/// Relies on `str::to_lowercase`: the result depends on the characters alone,
/// and the empty string stays empty.
#[verifier::external_body]
fn lowercase(s: &str) -> (r: String)
    ensures
        r@ == lower_of(s@),
        s@.len() == 0 ==> r@.len() == 0,
{
    s.to_lowercase()
}

/// Index of the last `.` in `s`, or -1 when there is none.
pub open spec fn last_dot(s: Seq<char>) -> int
    decreases s.len(),
{
    if s.len() == 0 {
        -1
    } else if s.last() == '.' {
        s.len() - 1
    } else {
        last_dot(s.drop_last())
    }
}

/// The extension of a file name: what follows its last `.`, where that dot
/// is not the name's first character; `..` has none.
pub open spec fn extension_of(name: Seq<char>) -> Option<Seq<char>> {
    if name == seq!['.', '.'] || last_dot(name) <= 0 {
        None
    } else {
        Some(name.subrange(last_dot(name) + 1, name.len() as int))
    }
}

/// A name whose case-folded extension is `jpg`, `jpeg` or `png`.
pub open spec fn is_image_name_spec(name: Seq<char>) -> bool {
    match extension_of(name) {
        Some(e) => {
            let l = lower_of(e);
            l == seq!['j', 'p', 'g'] || l == seq!['j', 'p', 'e', 'g'] || l == seq!['p', 'n', 'g']
        },
        None => false,
    }
}

/// An entry that counts as an image: a file with an image extension.
pub open spec fn is_image_entry(f: FileInfo) -> bool {
    !f.is_dir && is_image_name_spec(f.name@)
}

/// How many entries of `s` are images.
pub open spec fn image_total(s: Seq<FileInfo>) -> nat
    decreases s.len(),
{
    if s.len() == 0 {
        0
    } else {
        image_total(s.drop_last()) + if is_image_entry(s.last()) { 1nat } else { 0nat }
    }
}

/// `a` is strictly before `b` in code-point order (which is also the byte
/// order of their UTF-8 encodings).
pub open spec fn text_precedes(a: Seq<char>, b: Seq<char>) -> bool
    decreases a.len(),
{
    if b.len() == 0 {
        false
    } else if a.len() == 0 {
        true
    } else if a[0] != b[0] {
        a[0] < b[0]
    } else {
        text_precedes(a.drop_first(), b.drop_first())
    }
}

/// `a` is listed strictly before `b`: a directory before a file, and
/// otherwise by case-folded name.
pub open spec fn listed_before(a: FileInfo, b: FileInfo) -> bool {
    (a.is_dir && !b.is_dir) || (a.is_dir == b.is_dir && text_precedes(
        lower_of(a.name@),
        lower_of(b.name@),
    ))
}

/// No entry of `s` is listed strictly before the one in front of it.
pub open spec fn in_listing_order(s: Seq<FileInfo>) -> bool {
    forall|i: int| 0 <= i < s.len() - 1 ==> !#[trigger] listed_before(s[i + 1], s[i])
}

pub proof fn lemma_last_dot_range(s: Seq<char>)
    ensures
        -1 <= last_dot(s) < s.len(),
        last_dot(s) >= 0 ==> s[last_dot(s)] == '.',
        forall|k: int| last_dot(s) < k < s.len() ==> s[k] != '.',
    decreases s.len(),
{
    if s.len() > 0 && s.last() != '.' {
        lemma_last_dot_range(s.drop_last());
        assert forall|k: int| last_dot(s) < k < s.len() implies s[k] != '.' by {
            if k < s.len() - 1 {
                assert(s.drop_last()[k] == s[k]);
            }
        }
    }
}

pub proof fn lemma_last_dot_unique(s: Seq<char>, d: int)
    requires
        -1 <= d < s.len(),
        d >= 0 ==> s[d] == '.',
        forall|k: int| d < k < s.len() ==> s[k] != '.',
    ensures
        last_dot(s) == d,
    decreases s.len(),
{
    if s.len() > 0 && s.last() != '.' {
        assert forall|k: int| d < k < s.len() - 1 implies s.drop_last()[k] != '.' by {
            assert(s.drop_last()[k] == s[k]);
        }
        lemma_last_dot_unique(s.drop_last(), d);
    }
}

/// One past the index of the last `.` in `name`, or 0 when there is none.
pub fn last_dot_end(name: &str) -> (r: usize)
    ensures
        r as int - 1 == last_dot(name@),
{
    let n = name.unicode_len();
    let mut i: usize = n;
    while i > 0 && name.get_char(i - 1) != '.'
        invariant
            i <= n == name@.len(),
            forall|k: int| i <= k < n ==> name@[k] != '.',
        decreases i,
    {
        i = i - 1;
    }
    proof {
        lemma_last_dot_unique(name@, i as int - 1);
    }
    i
}

/// Whether `name` is `..`.
pub fn is_dot_dot(name: &str) -> (r: bool)
    ensures
        r == (name@ == seq!['.', '.']),
{
    let n = name.unicode_len();
    if n == 2 && name.get_char(0) == '.' && name.get_char(1) == '.' {
        assert(name@ =~= seq!['.', '.']);
        true
    } else {
        assert(name@ != seq!['.', '.']) by {
            if name@ == seq!['.', '.'] {
                assert(n == 2 && name@[0] == '.' && name@[1] == '.');
            }
        }
        false
    }
}

/// The extension of a file name, as `Path::extension` finds it.
pub fn extension(name: &str) -> (r: Option<String>)
    ensures
        match r {
            Some(e) => extension_of(name@) == Some(e@),
            None => extension_of(name@) is None,
        },
{
    let i = last_dot_end(name);
    if is_dot_dot(name) || i <= 1 {
        return None;
    }
    proof {
        lemma_last_dot_range(name@);
    }
    Some(String::from_str(name.substring_char(i, name.unicode_len())))
}

/// Whether a file of this name counts as an image.
pub fn is_image_name(name: &str) -> (r: bool)
    ensures
        r == is_image_name_spec(name@),
{
    match extension(name) {
        Some(e) => {
            let l = lowercase(e.as_str());
            let jpg = String::from_str("jpg");
            let jpeg = String::from_str("jpeg");
            let png = String::from_str("png");
            proof {
                reveal_strlit("jpg");
                reveal_strlit("jpeg");
                reveal_strlit("png");
                assert("jpg"@ =~= seq!['j', 'p', 'g']);
                assert("jpeg"@ =~= seq!['j', 'p', 'e', 'g']);
                assert("png"@ =~= seq!['p', 'n', 'g']);
            }
            l == jpg || l == jpeg || l == png
        },
        None => false,
    }
}

/// Whether `a` precedes `b` in code-point order.
pub fn precedes(a: &str, b: &str) -> (r: bool)
    ensures
        r == text_precedes(a@, b@),
{
    let na = a.unicode_len();
    let nb = b.unicode_len();
    let mut i: usize = 0;
    assert(a@.skip(0) =~= a@ && b@.skip(0) =~= b@);
    while i < na && i < nb
        invariant
            na == a@.len(),
            nb == b@.len(),
            i <= na,
            i <= nb,
            text_precedes(a@, b@) == text_precedes(a@.skip(i as int), b@.skip(i as int)),
        decreases na - i,
    {
        let ca = a.get_char(i);
        let cb = b.get_char(i);
        if ca != cb {
            return ca < cb;
        }
        assert(a@.skip(i as int).drop_first() =~= a@.skip(i + 1 as int));
        assert(b@.skip(i as int).drop_first() =~= b@.skip(i + 1 as int));
        i = i + 1;
    }
    i < nb
}

proof fn lemma_text_precedes_asymmetric(a: Seq<char>, b: Seq<char>)
    requires
        text_precedes(a, b),
    ensures
        !text_precedes(b, a),
    decreases a.len(),
{
    if a.len() > 0 && b.len() > 0 && a[0] == b[0] {
        lemma_text_precedes_asymmetric(a.drop_first(), b.drop_first());
    }
}

proof fn lemma_text_precedes_total(b: Seq<char>, c: Seq<char>)
    requires
        !text_precedes(c, b),
    ensures
        text_precedes(b, c) || b == c,
    decreases b.len(),
{
    if b.len() == 0 && c.len() == 0 {
        assert(b =~= c);
    } else if b.len() > 0 && c.len() > 0 && b[0] == c[0] {
        lemma_text_precedes_total(b.drop_first(), c.drop_first());
        if b.drop_first() == c.drop_first() {
            assert(b =~= c) by {
                assert(b.drop_first().len() == b.len() - 1);
                assert(c.drop_first().len() == c.len() - 1);
                assert forall|i: int| 0 <= i < b.len() implies b[i] == c[i] by {
                    if i > 0 {
                        assert(b[i] == b.drop_first()[i - 1] && c[i] == c.drop_first()[i - 1]);
                    }
                }
            }
        }
    }
}

proof fn lemma_text_precedes_transitive(a: Seq<char>, b: Seq<char>, c: Seq<char>)
    requires
        text_precedes(a, b),
        text_precedes(b, c),
    ensures
        text_precedes(a, c),
    decreases a.len(),
{
    if a.len() > 0 && b.len() > 0 && c.len() > 0 && a[0] == b[0] && b[0] == c[0] {
        lemma_text_precedes_transitive(a.drop_first(), b.drop_first(), c.drop_first());
    }
}

proof fn lemma_before_then_not_after(x: FileInfo, y: FileInfo, z: FileInfo)
    requires
        listed_before(x, y),
        !listed_before(z, y),
    ensures
        listed_before(x, z),
{
    if x.is_dir == y.is_dir && z.is_dir == y.is_dir {
        let (kx, ky, kz) = (lower_of(x.name@), lower_of(y.name@), lower_of(z.name@));
        lemma_text_precedes_total(ky, kz);
        if ky != kz {
            lemma_text_precedes_transitive(kx, ky, kz);
        }
    }
}

proof fn lemma_before_all_after(x: FileInfo, s: Seq<FileInfo>, j: int, m: int)
    requires
        in_listing_order(s),
        0 <= j <= m < s.len(),
        listed_before(x, s[j]),
    ensures
        listed_before(x, s[m]),
    decreases m - j,
{
    if m > j {
        lemma_before_all_after(x, s, j, m - 1);
        assert(!listed_before(s[(m - 1) + 1], s[m - 1]));
        lemma_before_then_not_after(x, s[m - 1], s[m]);
    }
}

/// Neither of `a` and `b` is listed before the other.
pub open spec fn same_rank(a: FileInfo, b: FileInfo) -> bool {
    !listed_before(a, b) && !listed_before(b, a)
}

/// `r` takes its entry at `k` from `files` at `p[k]`, and entries of the same
/// rank keep the order they had in `files`.
pub open spec fn stable_placement(r: Seq<FileInfo>, files: Seq<FileInfo>, p: Seq<int>) -> bool {
    &&& p.len() == r.len()
    &&& forall|k: int| 0 <= k < r.len() ==> 0 <= #[trigger] p[k] < files.len() && r[k] == files[p[k]]
    &&& forall|a: int, b: int|
        0 <= a < b < r.len() && #[trigger] same_rank(r[a], r[b]) ==> p[a] < p[b]
}

/// Whether `a` is listed strictly before `b`, given their case-folded names.
fn before_with_keys(a: &FileInfo, ka: &String, b: &FileInfo, kb: &String) -> (r: bool)
    requires
        ka@ == lower_of(a.name@),
        kb@ == lower_of(b.name@),
    ensures
        r == listed_before(*a, *b),
{
    if a.is_dir != b.is_dir {
        a.is_dir
    } else {
        precedes(ka.as_str(), kb.as_str())
    }
}

/// Puts the entries in listing order: directories first, then by case-folded
/// name; entries of the same rank keep their relative order.
pub fn sort_entries(files: Vec<FileInfo>) -> (r: Vec<FileInfo>)
    ensures
        r@.to_multiset() == files@.to_multiset(),
        in_listing_order(r@),
        exists|p: Seq<int>| stable_placement(r@, files@, p),
{
    let ghost mut p: Seq<int> = Seq::empty();
    let mut rest = files;
    let mut out: Vec<FileInfo> = Vec::new();
    let mut keys: Vec<String> = Vec::new();
    while rest.len() > 0
        invariant
            out@.to_multiset().add(rest@.to_multiset()) == files@.to_multiset(),
            in_listing_order(out@),
            out@.len() + rest@.len() == files@.len(),
            rest@ == files@.skip(out@.len() as int),
            stable_placement(out@, files@, p),
            forall|k: int| 0 <= k < p.len() ==> #[trigger] p[k] < out@.len(),
            keys@.len() == out@.len(),
            forall|k: int| 0 <= k < out@.len() ==> #[trigger] keys@[k]@ == lower_of(out@[k].name@),
        decreases rest@.len(),
    {
        proof {
            vstd::seq_lib::to_multiset_remove(rest@, 0);
        }
        let ghost t: int = out@.len() as int;
        assert(rest@[0] == files@[t]);
        let x = rest.remove(0);
        assert(rest@ =~= files@.skip(t + 1));
        let kx = lowercase(x.name.as_str());
        let mut j: usize = 0;
        while j < out.len() && !before_with_keys(&x, &kx, &out[j], &keys[j])
            invariant
                j <= out@.len(),
                keys@.len() == out@.len(),
                kx@ == lower_of(x.name@),
                forall|k: int| 0 <= k < out@.len() ==> #[trigger] keys@[k]@ == lower_of(out@[k].name@),
                forall|k: int| 0 <= k < j ==> !#[trigger] listed_before(x, out@[k]),
            decreases out@.len() - j,
        {
            j = j + 1;
        }
        let ghost prev = out@;
        proof {
            vstd::seq_lib::to_multiset_insert(out@, j as int, x);
        }
        out.insert(j, x);
        keys.insert(j, kx);
        let ghost prev_p = p;
        proof {
            p = p.insert(j as int, t);
            assert forall|m: int| j < m < out@.len() implies listed_before(x, #[trigger] out@[m]) by {
                lemma_before_all_after(x, prev, j as int, m - 1);
                assert(out@[m] == prev[m - 1]);
            }
            assert forall|k: int| 0 <= k < out@.len() implies 0 <= #[trigger] p[k] < files@.len()
                && out@[k] == files@[p[k]] by {
                if k < j {
                    assert(out@[k] == prev[k] && p[k] == prev_p[k]);
                } else if k > j {
                    assert(out@[k] == prev[k - 1] && p[k] == prev_p[k - 1]);
                }
            }
            assert forall|a: int, b: int|
                0 <= a < b < out@.len() && #[trigger] same_rank(out@[a], out@[b]) implies p[a]
                < p[b] by {
                if a == j {
                    assert(listed_before(x, out@[b]));
                } else if b == j {
                    if a < j {
                        assert(p[a] == prev_p[a]);
                    }
                } else {
                    let pa = if a < j { a } else { a - 1 };
                    let pb = if b < j { b } else { b - 1 };
                    assert(out@[a] == prev[pa] && p[a] == prev_p[pa]);
                    assert(out@[b] == prev[pb] && p[b] == prev_p[pb]);
                    assert(same_rank(prev[pa], prev[pb]));
                }
            }
            assert forall|k: int| 0 <= k < p.len() implies #[trigger] p[k] < out@.len() by {
                if k < j {
                    assert(p[k] == prev_p[k]);
                } else if k > j {
                    assert(p[k] == prev_p[k - 1]);
                }
            }
        }
        assert(in_listing_order(out@)) by {
            assert forall|i: int| 0 <= i < out@.len() - 1 implies !#[trigger] listed_before(
                out@[i + 1],
                out@[i],
            ) by {
                if i + 1 < j {
                    assert(out@[i] == prev[i] && out@[i + 1] == prev[i + 1]);
                } else if i + 1 == j {
                    assert(out@[i + 1] == x && out@[i] == prev[i]);
                } else if i == j {
                    assert(out@[i] == x && out@[i + 1] == prev[i]);
                    if x.is_dir == prev[i].is_dir {
                        lemma_text_precedes_asymmetric(lower_of(x.name@), lower_of(prev[i].name@));
                    }
                } else {
                    assert(out@[i] == prev[i - 1] && out@[i + 1] == prev[i]);
                    assert(listed_before(prev[(i - 1) + 1], prev[i - 1]) == listed_before(
                        out@[i + 1],
                        out@[i],
                    ));
                }
            }
        }
        assert forall|k: int| 0 <= k < out@.len() implies #[trigger] keys@[k]@ == lower_of(
            out@[k].name@,
        ) by {
            if k < j {
                assert(out@[k] == prev[k]);
            } else if k > j {
                assert(out@[k] == prev[k - 1]);
            }
        }
        assert(out@.to_multiset().add(rest@.to_multiset()) =~= files@.to_multiset());
    }
    assert(rest@.to_multiset() =~= vstd::multiset::Multiset::empty());
    assert(out@.to_multiset() =~= files@.to_multiset());
    assert(stable_placement(out@, files@, p));
    out
}

/// Counts the image entries.
pub fn count_images(files: &Vec<FileInfo>) -> (r: usize)
    ensures
        r == image_total(files@),
{
    let mut c: usize = 0;
    let mut i: usize = 0;
    while i < files.len()
        invariant
            i <= files@.len(),
            c == image_total(files@.take(i as int)),
            c <= i,
        decreases files@.len() - i,
    {
        assert(files@.take(i + 1 as int).drop_last() =~= files@.take(i as int));
        if !files[i].is_dir && is_image_name(files[i].name.as_str()) {
            c = c + 1;
        }
        i = i + 1;
    }
    assert(files@.take(i as int) =~= files@);
    c
}

/// The listing of a directory's entries: every entry, in listing order with
/// entries of the same rank in the order given, and the number of images
/// among them.
pub fn get_directory_contents(files: Vec<FileInfo>) -> (r: DirectoryContents)
    ensures
        r.files@.to_multiset() == files@.to_multiset(),
        in_listing_order(r.files@),
        exists|p: Seq<int>| stable_placement(r.files@, files@, p),
        r.image_count == image_total(files@),
{
    let image_count = count_images(&files);
    let files = sort_entries(files);
    DirectoryContents { files, image_count }
}

/// The answer to a request for a native directory picker, which this
/// backend does not offer: the frontend falls back to its own.
pub fn select_directory_fallback() -> (r: Result<String, String>)
    ensures
        r matches Err(m) && m@ == "Native directory selection not available"@,
{
    Err(String::from_str("Native directory selection not available"))
}

} // verus!
