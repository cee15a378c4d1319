//! Candidate selection for a batch run: a file takes part exactly when its
//! name carries one of the allow-listed image extensions, compared without
//! regard to ASCII case; every other directory entry is skipped untouched.
use vstd::prelude::*;
use vstd::string::StrSliceExecFns;

verus! {

/// ASCII lower-casing of one character; all other characters are untouched.
pub open spec fn lower_char(c: char) -> char {
    if 65 <= c as u32 && c as u32 <= 90 {
        ((c as u32 + 32) as char)
    } else {
        c
    }
}

/// ASCII lower-casing of a character sequence.
pub open spec fn lower_seq(s: Seq<char>) -> Seq<char> {
    s.map_values(|c: char| lower_char(c))
}

/// Index of the last '.' in s, or -1 when s has none.
pub open spec fn spec_last_dot(s: Seq<char>) -> int
    decreases s.len(),
{
    if s.len() == 0 {
        -1
    } else if s[s.len() - 1] == '.' {
        s.len() - 1
    } else {
        spec_last_dot(s.drop_last())
    }
}

proof fn lemma_last_dot_props(s: Seq<char>)
    ensures
        -1 <= spec_last_dot(s),
        spec_last_dot(s) == -1 ==> forall|j: int| 0 <= j < s.len() ==> s[j] != '.',
        spec_last_dot(s) >= 0 ==> spec_last_dot(s) < s.len() && s[spec_last_dot(s)] == '.',
        spec_last_dot(s) >= 0 ==> forall|j: int|
            spec_last_dot(s) < j < s.len() ==> s[j] != '.',
    decreases s.len(),
{
    if s.len() == 0 {
    } else if s[s.len() - 1] == '.' {
    } else {
        lemma_last_dot_props(s.drop_last());
        assert(forall|j: int| 0 <= j < s.len() - 1 ==> s.drop_last()[j] == s[j]);
    }
}

proof fn lemma_last_dot_at(s: Seq<char>, d: int)
    requires
        0 <= d < s.len(),
        s[d] == '.',
        forall|j: int| d < j < s.len() ==> s[j] != '.',
    ensures
        spec_last_dot(s) == d,
{
    lemma_last_dot_props(s);
    let e = spec_last_dot(s);
    if e == -1 {
        assert(s[d] != '.');
    } else if e < d {
        assert(s[d] != '.');
    } else if e > d {
        assert(s[e] != '.');
    }
}

proof fn lemma_no_dot(s: Seq<char>)
    requires
        forall|j: int| 0 <= j < s.len() ==> s[j] != '.',
    ensures
        spec_last_dot(s) == -1,
{
    lemma_last_dot_props(s);
    let e = spec_last_dot(s);
    if e >= 0 {
        assert(s[e] != '.');
    }
}

/// The image formats the engine decodes and encodes, one per allow-listed
/// extension family.
#[derive(Clone, Copy, PartialEq, Eq, Structural, Debug)]
pub enum FormatTag {
    Jpeg,
    Png,
    Gif,
    Bmp,
    WebP,
    Avif,
    Ico,
}

/// The format an already lower-cased extension names, if the engine accepts
/// it.
pub open spec fn spec_format_of(e: Seq<char>) -> Option<FormatTag> {
    if e == "jpg"@ || e == "jpeg"@ {
        Some(FormatTag::Jpeg)
    } else if e == "png"@ {
        Some(FormatTag::Png)
    } else if e == "gif"@ {
        Some(FormatTag::Gif)
    } else if e == "bmp"@ {
        Some(FormatTag::Bmp)
    } else if e == "webp"@ {
        Some(FormatTag::WebP)
    } else if e == "avif"@ {
        Some(FormatTag::Avif)
    } else if e == "ico"@ {
        Some(FormatTag::Ico)
    } else {
        None
    }
}

/// The extensions the engine accepts, already lower-cased.
pub open spec fn allowed_extension(e: Seq<char>) -> bool {
    spec_format_of(e) is Some
}

/// A file name qualifies exactly when it has a non-empty stem before its
/// last dot and the extension after that dot, lower-cased, is allow-listed.
pub open spec fn spec_is_image_name(s: Seq<char>) -> bool {
    let d = spec_last_dot(s);
    d >= 1 && allowed_extension(lower_seq(s.subrange(d + 1, s.len() as int)))
}

/// Case-folded comparison of the tail of s (from start) against a
/// lower-case pattern.
fn ext_eq_fold(s: &str, start: usize, lit: &str) -> (b: bool)
    requires
        start as int <= s@.len(),
        forall|k: int| 0 <= k < lit@.len() ==> !(65 <= #[trigger] lit@[k] as u32 <= 90),
    ensures
        b == (lower_seq(s@.subrange(start as int, s@.len() as int)) == lit@),
{
    let ghost tail = s@.subrange(start as int, s@.len() as int);
    let n = s.unicode_len();
    let m = lit.unicode_len();
    if n - start != m {
        proof {
            assert(lower_seq(tail).len() == tail.len());
        }
        return false;
    }
    let mut k: usize = 0;
    while k < m
        invariant
            0 <= k <= m,
            m == lit@.len(),
            n == s@.len(),
            start + m == n,
            tail == s@.subrange(start as int, s@.len() as int),
            forall|k2: int| 0 <= k2 < lit@.len() ==> !(65 <= #[trigger] lit@[k2] as u32 <= 90),
            forall|j: int| 0 <= j < k ==> lower_char(#[trigger] tail[j]) == lit@[j],
        decreases m - k,
    {
        let a = s.get_char(start + k);
        let c = lit.get_char(k);
        let au = a as u32;
        let cu = c as u32;
        let eq: bool = if 65 <= au && au <= 90 {
            au + 32 == cu
        } else {
            au == cu
        };
        proof {
            assert(tail[k as int] == a);
            if 65 <= au && au <= 90 {
                assert(lower_char(a) as u32 == au + 32);
            } else {
                assert(lower_char(a) == a);
            }
            assert(eq == (lower_char(a) == c));
        }
        if !eq {
            proof {
                assert(lower_seq(tail)[k as int] != lit@[k as int]);
            }
            return false;
        }
        k += 1;
    }
    proof {
        assert(lower_seq(tail) =~= lit@);
    }
    true
}

/// The extension of a file name: what follows the last dot, provided the
/// dot is neither the name's first character (a hidden file has no
/// extension) nor absent.
pub fn file_extension(name: &str) -> (r: Option<&str>)
    ensures
        match r {
            Some(e) => spec_last_dot(name@) >= 1 && e@ == name@.subrange(
                spec_last_dot(name@) + 1,
                name@.len() as int,
            ),
            None => spec_last_dot(name@) < 1,
        },
{
    let n = name.unicode_len();
    let mut i: usize = n;
    let mut dot_idx: usize = 0;
    let mut has_dot = false;
    while i > 0 && !has_dot
        invariant
            i <= n,
            n == name@.len(),
            forall|j: int| i <= j < n ==> name@[j] != '.',
            has_dot ==> 1 <= i && dot_idx == i - 1 && name@[dot_idx as int] == '.',
        decreases i + (if has_dot { 0int } else { 1int }),
    {
        if name.get_char(i - 1) == '.' {
            has_dot = true;
            dot_idx = i - 1;
        } else {
            i -= 1;
        }
    }
    if !has_dot {
        proof {
            lemma_no_dot(name@);
        }
        return None;
    }
    proof {
        lemma_last_dot_at(name@, dot_idx as int);
    }
    if dot_idx == 0 {
        return None;
    }
    Some(name.substring_char(dot_idx + 1, n))
}

/// The format a file extension names, compared without regard to ASCII
/// case; None for every extension outside the allow-list.
pub fn extension_format(ext: &str) -> (r: Option<FormatTag>)
    ensures
        r == spec_format_of(lower_seq(ext@)),
{
    proof {
        reveal_strlit("jpg");
        reveal_strlit("jpeg");
        reveal_strlit("png");
        reveal_strlit("gif");
        reveal_strlit("bmp");
        reveal_strlit("webp");
        reveal_strlit("avif");
        reveal_strlit("ico");
        assert(ext@.subrange(0, ext@.len() as int) =~= ext@);
    }
    if ext_eq_fold(ext, 0, "jpg") || ext_eq_fold(ext, 0, "jpeg") {
        Some(FormatTag::Jpeg)
    } else if ext_eq_fold(ext, 0, "png") {
        Some(FormatTag::Png)
    } else if ext_eq_fold(ext, 0, "gif") {
        Some(FormatTag::Gif)
    } else if ext_eq_fold(ext, 0, "bmp") {
        Some(FormatTag::Bmp)
    } else if ext_eq_fold(ext, 0, "webp") {
        Some(FormatTag::WebP)
    } else if ext_eq_fold(ext, 0, "avif") {
        Some(FormatTag::Avif)
    } else if ext_eq_fold(ext, 0, "ico") {
        Some(FormatTag::Ico)
    } else {
        None
    }
}

/// Decides whether a directory entry's file name is one of the image kinds
/// the batch run accepts, by its extension alone and without regard to
/// ASCII case.
pub fn is_image_file(name: &str) -> (b: bool)
    ensures
        b == spec_is_image_name(name@),
{
    match file_extension(name) {
        Some(ext) => extension_format(ext).is_some(),
        None => false,
    }
}

/// The names spec_is_image_name accepts, in order and with multiplicity.
pub open spec fn spec_candidates(names: Seq<Seq<char>>) -> Seq<Seq<char>> {
    names.filter(|t: Seq<char>| spec_is_image_name(t))
}

/// Selects, in directory order, the file names that take part in a batch
/// run; every other entry is skipped.
pub fn filter_image_files(names: &Vec<String>) -> (r: Vec<String>)
    ensures
        r@.map_values(|s: String| s@) == spec_candidates(
            names@.map_values(|s: String| s@),
        ),
{
    let ghost viewed = names@.map_values(|s: String| s@);
    let mut r: Vec<String> = Vec::new();
    let mut i: usize = 0;
    proof {
        reveal(Seq::filter);
        assert(viewed.take(0) =~= Seq::<Seq<char>>::empty());
        assert(r@.map_values(|s: String| s@) =~= viewed.take(0).filter(
            |t: Seq<char>| spec_is_image_name(t)));
    }
    while i < names.len()
        invariant
            i <= names@.len(),
            viewed == names@.map_values(|s: String| s@),
            r@.map_values(|s: String| s@) == viewed.take(i as int).filter(
                |t: Seq<char>| spec_is_image_name(t)),
        decreases names@.len() - i,
    {
        let ghost prev = r@.map_values(|s: String| s@);
        let nm = &names[i];
        if is_image_file(nm.as_str()) {
            r.push(nm.clone());
        }
        proof {
            reveal(Seq::filter);
            assert(viewed.take(i + 1).drop_last() =~= viewed.take(i as int));
            assert(viewed.take(i + 1).last() == viewed[i as int]);
            if spec_is_image_name(viewed[i as int]) {
                assert(r@.map_values(|s: String| s@) =~= prev.push(nm@));
            }
            assert(r@.map_values(|s: String| s@) =~= viewed.take(i + 1).filter(
                |t: Seq<char>| spec_is_image_name(t)));
        }
        i += 1;
    }
    proof {
        assert(viewed.take(names@.len() as int) =~= viewed);
    }
    r
}

/// Batch completeness: the selected candidates are exactly the allow-listed
/// names — their count plus the count of the skipped names is the whole
/// folder, every selected name is allow-listed, and every allow-listed name
/// is selected.
pub proof fn lemma_batch_completeness(names: Seq<Seq<char>>)
    ensures
        spec_candidates(names).len() + names.filter(
            |t: Seq<char>| !spec_is_image_name(t)).len() == names.len(),
        forall|i: int| 0 <= i < spec_candidates(names).len()
            ==> spec_is_image_name(#[trigger] spec_candidates(names)[i]),
        forall|i: int| 0 <= i < names.len() && spec_is_image_name(#[trigger] names[i])
            ==> spec_candidates(names).contains(names[i]),
    decreases names.len(),
{
    reveal(Seq::filter);
    broadcast use vstd::seq_lib::group_filter_ensures;

    if names.len() == 0 {
    } else {
        lemma_batch_completeness(names.drop_last());
        assert(names.drop_last().push(names.last()) =~= names);
    }
}

} // verus!
