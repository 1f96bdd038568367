//! Paths as text: file names, extensions, joining and prefixes, with `/` as
//! the separator and no normalisation of `.` or repeated separators.

use vstd::prelude::*;
use crate::text::{concat, eq_ignoring_case, same_ignoring_case};

verus! {

/// Index of the last `c` in `s`, or -1 when there is none.
pub open spec fn last_index(s: Seq<char>, c: char) -> int
    decreases s.len(),
{
    if s.len() == 0 {
        -1
    } else if s.last() == c {
        s.len() - 1
    } else {
        last_index(s.drop_last(), c)
    }
}

pub proof fn lemma_last_index(s: Seq<char>, c: char)
    ensures
        -1 <= last_index(s, c) < s.len(),
        last_index(s, c) >= 0 ==> s[last_index(s, c)] == c,
        forall|j: int| last_index(s, c) < j < s.len() ==> s[j] != c,
    decreases s.len(),
{
    if s.len() > 0 && s.last() != c {
        lemma_last_index(s.drop_last(), c);
        assert(forall|j: int| 0 <= j < s.len() - 1 ==> s.drop_last()[j] == s[j]);
    }
}

/// Finds the last `c` in `s`.
pub fn last_index_of(s: &str, c: char) -> (r: Option<usize>)
    ensures
        match r {
            Some(i) => i as int == last_index(s@, c),
            None => last_index(s@, c) == -1,
        },
{
    let n = s.unicode_len();
    let mut i = n;
    proof { assert(s@.subrange(0, n as int) =~= s@); }
    while i > 0
        invariant
            i <= n,
            n == s@.len(),
            last_index(s@, c) == last_index(s@.subrange(0, i as int), c),
        decreases i,
    {
        if s.get_char(i - 1) == c {
            return Some(i - 1);
        }
        proof { assert(s@.subrange(0, i as int).drop_last() =~= s@.subrange(0, i - 1)); }
        i -= 1;
    }
    None
}

/// The separator, or the `.` after a separator, at the end of `p` that
/// does not count as a component.
pub open spec fn ends_in_filler(p: Seq<char>) -> bool {
    p.len() > 0 && (p.last() == '/' || (p.len() >= 2 && p.last() == '.' && p[p.len() - 2] == '/'))
}

/// `p` without the separators and `.` components at its end.
pub open spec fn trimmed(p: Seq<char>) -> Seq<char>
    decreases p.len(),
{
    if ends_in_filler(p) {
        trimmed(p.drop_last())
    } else {
        p
    }
}

pub proof fn lemma_trimmed(p: Seq<char>)
    ensures
        trimmed(p).len() <= p.len(),
        trimmed(p) == p.subrange(0, trimmed(p).len() as int),
        !ends_in_filler(trimmed(p)),
    decreases p.len(),
{
    if ends_in_filler(p) {
        lemma_trimmed(p.drop_last());
        assert(p.drop_last().subrange(0, trimmed(p).len() as int) =~= p.subrange(0, trimmed(p).len() as int));
    } else {
        assert(p.subrange(0, p.len() as int) =~= p);
    }
}

/// `p` without the separators and `.` components at its end.
pub fn trimmed_text(p: &str) -> (r: String)
    ensures
        r@ == trimmed(p@),
{
    let n = p.unicode_len();
    let mut i = n;
    proof { assert(p@.subrange(0, n as int) =~= p@); }
    while i > 0 && (p.get_char(i - 1) == '/' || (i >= 2 && p.get_char(i - 1) == '.' && p.get_char(i - 2) == '/'))
        invariant
            i <= n,
            n == p@.len(),
            trimmed(p@) == trimmed(p@.subrange(0, i as int)),
        decreases i,
    {
        proof {
            let sub = p@.subrange(0, i as int);
            assert(ends_in_filler(sub));
            assert(sub.drop_last() =~= p@.subrange(0, i - 1));
        }
        i -= 1;
    }
    proof {
        let sub = p@.subrange(0, i as int);
        assert(!ends_in_filler(sub));
    }
    slice_text(p, 0, i)
}

/// Where the last component of `p` starts.
pub open spec fn name_start(p: Seq<char>) -> int {
    last_index(trimmed(p), '/') + 1
}

/// The last component of `p`, possibly empty.
pub open spec fn base_name(p: Seq<char>) -> Seq<char> {
    trimmed(p).subrange(name_start(p), trimmed(p).len() as int)
}

/// The file name of `p`: its last component, unless that is empty, `.` or `..`.
pub open spec fn file_name(p: Seq<char>) -> Option<Seq<char>> {
    let b = base_name(p);
    if b.len() == 0 || b == seq!['.'] || b == seq!['.', '.'] {
        None
    } else {
        Some(b)
    }
}

/// The extension of a file name: what follows its last `.`, where that dot
/// is not the name's first character.
pub open spec fn extension(n: Seq<char>) -> Option<Seq<char>> {
    let d = last_index(n, '.');
    if d > 0 {
        Some(n.subrange(d + 1, n.len() as int))
    } else {
        None
    }
}

/// A file name without its extension and the dot before it.
pub open spec fn stem(n: Seq<char>) -> Seq<char> {
    let d = last_index(n, '.');
    if d > 0 {
        n.subrange(0, d)
    } else {
        n
    }
}

/// `rel` appended to `base`, with one separator between them; an absolute
/// `rel` replaces `base`.
pub open spec fn join(base: Seq<char>, rel: Seq<char>) -> Seq<char> {
    if rel.len() > 0 && rel[0] == '/' {
        rel
    } else if base.len() == 0 || base.last() == '/' {
        base + rel
    } else {
        base + seq!['/'] + rel
    }
}

/// `p` lies at or below the directory `d`: it starts with `d`, and a
/// separator follows that prefix unless `d` ends in one.
pub open spec fn is_under(p: Seq<char>, d: Seq<char>) -> bool {
    &&& 0 < d.len() <= p.len()
    &&& p.subrange(0, d.len() as int) == d
    &&& (p.len() == d.len() || d.last() == '/' || p[d.len() as int] == '/')
}

/// `s` without the separators at its start.
pub open spec fn skip_separators(s: Seq<char>) -> Seq<char>
    decreases s.len(),
{
    if s.len() > 0 && s[0] == '/' {
        skip_separators(s.drop_first())
    } else {
        s
    }
}

pub proof fn lemma_skip_separators(s: Seq<char>)
    ensures
        skip_separators(s).len() == 0 || skip_separators(s)[0] != '/',
    decreases s.len(),
{
    if s.len() > 0 && s[0] == '/' {
        lemma_skip_separators(s.drop_first());
    }
}

/// What follows the directory `d` in a path under it, without the
/// separators between them.
pub open spec fn relative_to(p: Seq<char>, d: Seq<char>) -> Seq<char> {
    skip_separators(p.subrange(d.len() as int, p.len() as int))
}

/// `pre` is a prefix of `s`.
pub open spec fn has_prefix(s: Seq<char>, pre: Seq<char>) -> bool {
    pre.len() <= s.len() && s.subrange(0, pre.len() as int) == pre
}

proof fn lemma_sep_after_dir(s: Seq<char>, j: Seq<char>)
    requires
        has_prefix(s, j),
        j.len() == 0 || j.last() == '/',
    ensures
        j.len() <= last_index(s, '/') + 1 <= s.len(),
    decreases s.len(),
{
    lemma_last_index(s, '/');
    if j.len() > 0 && s.len() > j.len() && s.last() != '/' {
        assert(s.drop_last().subrange(0, j.len() as int) =~= s.subrange(0, j.len() as int));
        lemma_sep_after_dir(s.drop_last(), j);
    } else if j.len() > 0 && s.len() == j.len() {
        assert(s =~= j);
    }
}

/// A path whose trimmed text starts with a directory text ending in a
/// separator has its last component after that directory.
pub proof fn lemma_name_after_dir(s: Seq<char>, j: Seq<char>)
    requires
        has_prefix(trimmed(s), j),
        j.len() == 0 || j.last() == '/',
    ensures
        j.len() <= name_start(s) <= trimmed(s).len(),
{
    lemma_sep_after_dir(trimmed(s), j);
}

/// `p` with its extension replaced by `jpg` (added where it has none);
/// unchanged where it has no file name.
pub open spec fn with_jpg(p: Seq<char>) -> Seq<char> {
    match file_name(p) {
        Some(n) => trimmed(p).subrange(0, name_start(p)) + stem(n) + seq!['.'] + "jpg"@,
        None => p,
    }
}

/// The extensions of the files that count as images.
pub open spec fn is_supported_extension(e: Seq<char>) -> bool {
    same_ignoring_case(e, "jpg"@) || same_ignoring_case(e, "jpeg"@) || same_ignoring_case(e, "png"@)
        || same_ignoring_case(e, "bmp"@) || same_ignoring_case(e, "gif"@) || same_ignoring_case(
        e,
        "webp"@,
    ) || same_ignoring_case(e, "tiff"@) || same_ignoring_case(e, "tif"@) || same_ignoring_case(
        e,
        "ico"@,
    )
}

/// The file name of `p` has an extension of an image format.
pub open spec fn has_image_extension(p: Seq<char>) -> bool {
    match file_name(p) {
        Some(n) => match extension(n) {
            Some(e) => is_supported_extension(e),
            None => false,
        },
        None => false,
    }
}

/// Copies the characters `from..to` of `s`.
pub fn slice_text(s: &str, from: usize, to: usize) -> (r: String)
    requires
        from <= to <= s@.len(),
    ensures
        r@ == s@.subrange(from as int, to as int),
{
    String::from_str(s.substring_char(from, to))
}

/// The file name of `p`, as `file_name` describes it.
pub fn file_name_of(p: &str) -> (r: Option<String>)
    ensures
        match r {
            Some(n) => file_name(p@) == Some(n@),
            None => file_name(p@) is None,
        },
{
    let t = trimmed_text(p);
    let n = t.unicode_len();
    proof { lemma_last_index(t@, '/'); }
    let start = match last_index_of(t.as_str(), '/') {
        Some(i) => i + 1,
        None => 0,
    };
    let b = slice_text(t.as_str(), start, n);
    let len = b.unicode_len();
    if len == 0 {
        return None;
    }
    if len <= 2 && b.get_char(0) == '.' && (len == 1 || b.get_char(1) == '.') {
        proof {
            if len == 1 {
                assert(b@ =~= seq!['.']);
            } else {
                assert(b@ =~= seq!['.', '.']);
            }
        }
        return None;
    }
    proof {
        if b@ == seq!['.'] {
            assert(b@[0] == '.');
        }
        if b@ == seq!['.', '.'] {
            assert(b@[0] == '.' && b@[1] == '.');
        }
    }
    Some(b)
}

/// The extension of the file name `n`, as `extension` describes it.
pub fn extension_of(n: &str) -> (r: Option<String>)
    ensures
        match r {
            Some(e) => extension(n@) == Some(e@),
            None => extension(n@) is None,
        },
{
    let len = n.unicode_len();
    proof { lemma_last_index(n@, '.'); }
    match last_index_of(n, '.') {
        Some(d) => {
            if d > 0 {
                Some(slice_text(n, d + 1, len))
            } else {
                None
            }
        },
        None => None,
    }
}

/// The file name `n` without its extension, as `stem` describes it.
pub fn stem_of(n: &str) -> (r: String)
    ensures
        r@ == stem(n@),
{
    proof { lemma_last_index(n@, '.'); }
    match last_index_of(n, '.') {
        Some(d) => {
            if d > 0 {
                slice_text(n, 0, d)
            } else {
                String::from_str(n)
            }
        },
        None => String::from_str(n),
    }
}

/// Whether the extension `e` is that of an image format, in any case.
pub fn is_supported_ext(e: &str) -> (r: bool)
    ensures
        r == is_supported_extension(e@),
{
    eq_ignoring_case(e, "jpg") || eq_ignoring_case(e, "jpeg") || eq_ignoring_case(e, "png")
        || eq_ignoring_case(e, "bmp") || eq_ignoring_case(e, "gif") || eq_ignoring_case(e, "webp")
        || eq_ignoring_case(e, "tiff") || eq_ignoring_case(e, "tif") || eq_ignoring_case(e, "ico")
}

/// Whether the file name of `path` carries one of the supported image
/// extensions: jpg, jpeg, png, bmp, gif, webp, tiff, tif, ico, in any case.
pub fn has_valid_extension(path: &str) -> (r: bool)
    ensures
        r == has_image_extension(path@),
{
    match file_name_of(path) {
        Some(n) => match extension_of(n.as_str()) {
            Some(e) => is_supported_ext(e.as_str()),
            None => false,
        },
        None => false,
    }
}

/// Joins `rel` to `base`, as `join` describes it.
pub fn join_path(base: &str, rel: &str) -> (r: String)
    ensures
        r@ == join(base@, rel@),
{
    let rn = rel.unicode_len();
    if rn > 0 && rel.get_char(0) == '/' {
        return String::from_str(rel);
    }
    let bn = base.unicode_len();
    if bn == 0 || base.get_char(bn - 1) == '/' {
        concat(base, rel)
    } else {
        proof { reveal_strlit("/"); }
        let mut r = concat(base, "/");
        r.append(rel);
        r
    }
}

/// Whether `p` lies at or below the directory `d`, as `is_under` describes it.
pub fn is_under_dir(p: &str, d: &str) -> (r: bool)
    ensures
        r == is_under(p@, d@),
{
    let pn = p.unicode_len();
    let dn = d.unicode_len();
    if dn == 0 || dn > pn {
        return false;
    }
    let mut i: usize = 0;
    while i < dn
        invariant
            dn <= pn,
            pn == p@.len(),
            dn == d@.len(),
            i <= dn,
            forall|j: int| 0 <= j < i ==> p@[j] == d@[j],
        decreases dn - i,
    {
        if p.get_char(i) != d.get_char(i) {
            proof { assert(p@.subrange(0, dn as int)[i as int] != d@[i as int]); }
            return false;
        }
        i += 1;
    }
    proof { assert(p@.subrange(0, dn as int) =~= d@); }
    pn == dn || d.get_char(dn - 1) == '/' || p.get_char(dn) == '/'
}

/// What follows the directory `d` in `p`, as `relative_to` describes it.
pub fn relative_path(p: &str, d: &str) -> (r: String)
    requires
        is_under(p@, d@),
    ensures
        r@ == relative_to(p@, d@),
{
    let pn = p.unicode_len();
    let dn = d.unicode_len();
    let mut i = dn;
    proof { assert(p@.subrange(dn as int, pn as int) =~= p@.subrange(i as int, pn as int)); }
    while i < pn && p.get_char(i) == '/'
        invariant
            dn <= i <= pn,
            pn == p@.len(),
            skip_separators(p@.subrange(dn as int, pn as int)) == skip_separators(p@.subrange(i as int, pn as int)),
        decreases pn - i,
    {
        proof { assert(p@.subrange(i as int, pn as int).drop_first() =~= p@.subrange(i + 1, pn as int)); }
        i += 1;
    }
    slice_text(p, i, pn)
}

/// `p` with the extension `jpg`, as `with_jpg` describes it.
pub fn with_jpg_extension(p: &str) -> (r: String)
    ensures
        r@ == with_jpg(p@),
{
    match file_name_of(p) {
        Some(n) => {
            let t = trimmed_text(p);
            let tn = t.unicode_len();
            proof { lemma_last_index(t@, '/'); }
            let start = match last_index_of(t.as_str(), '/') {
                Some(i) => i + 1,
                None => 0,
            };
            let mut r = slice_text(t.as_str(), 0, start);
            let s = stem_of(n.as_str());
            r.append(s.as_str());
            proof { reveal_strlit(".jpg"); reveal_strlit("jpg"); }
            r.append(".jpg");
            proof { assert(r@ =~= with_jpg(p@)); }
            r
        },
        None => String::from_str(p),
    }
}

} // verus!
