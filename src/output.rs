//! Where each compressed image goes: mirrored below its source directory or
//! directly in the output folder, always as `.jpg`, never over an existing file.

use vstd::prelude::*;
use crate::discovery::{SourceListing, SourceScan};
use crate::paths::{
    extension, extension_of, file_name, file_name_of, has_prefix, is_under, is_under_dir, join, join_path,
    last_index_of, lemma_last_index, lemma_name_after_dir, lemma_skip_separators, lemma_trimmed,
    ends_in_filler, base_name, trimmed, trimmed_text, name_start, relative_path, relative_to, slice_text, stem,
    stem_of, with_jpg, with_jpg_extension,
};
use crate::text::{decimal, decimal_text};

verus! {

/// A source can stand as the parent of `file`: it is a directory above it.
pub open spec fn parent_candidate(file: Seq<char>, s: SourceScan) -> bool {
    s.listing is Directory && is_under(file, s.path@)
}

/// The path of the first source that can stand as the parent of `file`.
pub open spec fn first_parent(file: Seq<char>, sources: Seq<SourceScan>) -> Option<Seq<char>>
    decreases sources.len(),
{
    if sources.len() == 0 {
        None
    } else {
        match first_parent(file, sources.drop_last()) {
            Some(p) => Some(p),
            None => if parent_candidate(file, sources.last()) {
                Some(sources.last().path@)
            } else {
                None
            },
        }
    }
}

proof fn lemma_first_parent_extends(file: Seq<char>, sources: Seq<SourceScan>, k: int)
    requires
        0 <= k <= sources.len(),
        first_parent(file, sources.subrange(0, k)) is Some,
    ensures
        first_parent(file, sources) == first_parent(file, sources.subrange(0, k)),
    decreases sources.len() - k,
{
    if k < sources.len() {
        assert(sources.subrange(0, k + 1).drop_last() =~= sources.subrange(0, k));
        lemma_first_parent_extends(file, sources, k + 1);
    } else {
        assert(sources.subrange(0, k) =~= sources);
    }
}

/// The first source directory, in the given order, that lies above `file_path`.
pub fn find_common_parent(file_path: &str, sources: &Vec<SourceScan>) -> (r: Option<String>)
    ensures
        match r {
            Some(d) => first_parent(file_path@, sources@) == Some(d@),
            None => first_parent(file_path@, sources@) is None,
        },
{
    let mut i: usize = 0;
    assert(sources@.subrange(0, 0) =~= Seq::<SourceScan>::empty());
    while i < sources.len()
        invariant
            i <= sources@.len(),
            first_parent(file_path@, sources@.subrange(0, i as int)) is None,
        decreases sources.len() - i,
    {
        let s = &sources[i];
        proof {
            assert(sources@.subrange(0, i + 1).drop_last() =~= sources@.subrange(0, i as int));
            assert(sources@.subrange(0, i + 1).last() == sources@[i as int]);
        }
        let is_dir = match &s.listing {
            SourceListing::Directory(_) => true,
            _ => false,
        };
        if is_dir && is_under_dir(file_path, s.path.as_str()) {
            proof { lemma_first_parent_extends(file_path@, sources@, i + 1); }
            return Some(s.path.clone());
        }
        i += 1;
    }
    proof { assert(sources@.subrange(0, sources@.len() as int) =~= sources@); }
    None
}

/// Where an input goes before its extension and collisions are handled:
/// below `base` at its place relative to its source directory, when the
/// structure is kept and such a directory exists; else directly in `base`
/// under its file name. None where that relative place, or the input, has
/// no file name.
pub open spec fn planned_output(input: Seq<char>, base: Seq<char>, preserve: bool, sources: Seq<SourceScan>) -> Option<Seq<char>> {
    if preserve && first_parent(input, sources) is Some {
        let rel = relative_to(input, first_parent(input, sources)->0);
        if file_name(rel) is Some {
            Some(join(base, rel))
        } else {
            None
        }
    } else {
        match file_name(input) {
            Some(n) => Some(join(base, n)),
            None => None,
        }
    }
}

/// The directory part of `q`, with its trailing separator.
pub open spec fn dir_prefix(q: Seq<char>) -> Seq<char> {
    trimmed(q).subrange(0, name_start(q))
}

/// The stem of the file name of `q`, or `image` where it has none.
pub open spec fn stem_or_image(q: Seq<char>) -> Seq<char> {
    match file_name(q) {
        Some(n) => stem(n),
        None => "image"@,
    }
}

/// The extension of the file name of `q`, or `jpg` where it has none.
pub open spec fn ext_or_jpg(q: Seq<char>) -> Seq<char> {
    match file_name(q) {
        Some(n) => match extension(n) {
            Some(e) => e,
            None => "jpg"@,
        },
        None => "jpg"@,
    }
}

/// `q` with `_tag` put between its stem and its extension.
pub open spec fn tagged(q: Seq<char>, tag: Seq<char>) -> Seq<char> {
    dir_prefix(q) + stem_or_image(q) + seq!['_'] + tag + seq!['.'] + ext_or_jpg(q)
}

/// The numbered alternatives that are tried for a taken path, in order.
pub const MAX_NUMBERED: u64 = 10000;

/// The probe reported `p` taken.
pub open spec fn reported_taken<F: Fn(&String) -> bool>(probe: F, p: Seq<char>) -> bool {
    exists|s: String| s@ == p && call_ensures(probe, (&s,), true)
}

/// The probe reported `q` and its numbered alternatives below `k` taken.
pub open spec fn taken_below<F: Fn(&String) -> bool>(probe: F, q: Seq<char>, k: nat) -> bool {
    &&& reported_taken(probe, q)
    &&& forall|j: nat| 1 <= j < k ==> #[trigger] reported_taken(probe, tagged(q, decimal(j)))
}

/// A character of a hyphenated lowercase UUID.
pub open spec fn is_token_char(c: char) -> bool {
    ('0' <= c && c <= '9') || ('a' <= c && c <= 'f') || c == '-'
}

/// A random token as `fresh_token` gives it: 36 lowercase hex digits and hyphens.
pub open spec fn is_token(t: Seq<char>) -> bool {
    t.len() == 36 && forall|i: int| 0 <= i < 36 ==> is_token_char(#[trigger] t[i])
}

/// How many random tokens are drawn once every numbered alternative is taken.
pub const MAX_TOKEN_DRAWS: u64 = 8;

/// The path returned for `q` is one that the probe reported free: `q`
/// itself; else the first of its numbered alternatives `stem_1.ext` to
/// `stem_10000.ext`; else, where all of those were reported taken, `q`
/// tagged with a random token.
pub open spec fn resolved_free<F: Fn(&String) -> bool>(probe: F, q: Seq<char>, r: String) -> bool {
    &&& call_ensures(probe, (&r,), false)
    &&& {
        ||| r@ == q
        ||| exists|k: nat| {
            &&& 1 <= k <= MAX_NUMBERED
            &&& r@ == #[trigger] tagged(q, decimal(k))
            &&& taken_below(probe, q, k)
        }
        ||| exists|t: Seq<char>| {
            &&& is_token(t)
            &&& r@ == #[trigger] tagged(q, t)
            &&& taken_below(probe, q, MAX_NUMBERED as nat + 1)
        }
    }
}

/// The probe reported `q` tagged with each of `MAX_TOKEN_DRAWS` random tokens taken.
pub open spec fn tokens_taken<F: Fn(&String) -> bool>(probe: F, q: Seq<char>) -> bool {
    exists|ts: Seq<Seq<char>>| {
        &&& ts.len() == MAX_TOKEN_DRAWS
        &&& forall|i: int| 0 <= i < ts.len() ==> is_token(#[trigger] ts[i]) && reported_taken(probe, tagged(q, ts[i]))
    }
}

/// What `get_unique_filename` returns for `q`: a path that the probe
/// reported free, as `resolved_free` says; or, only where `q`, every
/// numbered alternative and 8 random-token names were all reported taken,
/// `q` tagged with one more random token, taken as fresh.
pub open spec fn resolved<F: Fn(&String) -> bool>(probe: F, q: Seq<char>, r: String) -> bool {
    ||| resolved_free(probe, q, r)
    ||| {
        &&& taken_below(probe, q, MAX_NUMBERED as nat + 1)
        &&& tokens_taken(probe, q)
        &&& exists|t: Seq<char>| is_token(t) && r@ == #[trigger] tagged(q, t)
    }
}

/// Relies on uuid's `Uuid::new_v4`, rendered by its `Display` (the
/// hyphenated lowercase hex form): a random token of 36 characters, each a
/// lowercase hex digit or a hyphen.
#[verifier::external_body]
fn fresh_token() -> (r: String)
    ensures
        is_token(r@),
{
    uuid::Uuid::new_v4().to_string()
}

fn tagged_path(prefix: &str, stem: &str, tag: &str, ext: &str) -> (r: String)
    ensures
        r@ == prefix@ + stem@ + seq!['_'] + tag@ + seq!['.'] + ext@,
{
    let mut r = String::from_str(prefix);
    r.append(stem);
    proof { reveal_strlit("_"); reveal_strlit("."); }
    r.append("_");
    r.append(tag);
    r.append(".");
    r.append(ext);
    r
}

/// `path` itself where the probe reports it free; else the first numbered
/// alternative `stem_N.ext`, N from 1 to 10000, that it reports free; else
/// `stem_<random token>.ext`, drawn up to 8 times until the probe reports
/// one free, and past that one more drawn and taken as fresh, which bounds
/// the search.
pub fn get_unique_filename<F: Fn(&String) -> bool>(path: String, probe: &F) -> (r: String)
    requires
        forall|p: &String| call_requires(*probe, (p,)),
    ensures
        resolved(*probe, path@, r),
{
    if !probe(&path) {
        return path;
    }
    proof { assert(reported_taken(*probe, path@)); }
    let trim = trimmed_text(path.as_str());
    let n = trim.unicode_len();
    proof { lemma_last_index(trim@, '/'); }
    let start = match last_index_of(trim.as_str(), '/') {
        Some(i) => i + 1,
        None => 0,
    };
    let prefix = slice_text(trim.as_str(), 0, start);
    let (stem_text, ext_text) = match file_name_of(path.as_str()) {
        Some(name) => {
            let s = stem_of(name.as_str());
            let e = match extension_of(name.as_str()) {
                Some(e) => e,
                None => String::from_str("jpg"),
            };
            (s, e)
        },
        None => (String::from_str("image"), String::from_str("jpg")),
    };
    let mut counter: u64 = 1;
    while counter <= MAX_NUMBERED
        invariant
            1 <= counter <= MAX_NUMBERED + 1,
            forall|p: &String| call_requires(*probe, (p,)),
            prefix@ == dir_prefix(path@),
            stem_text@ == stem_or_image(path@),
            ext_text@ == ext_or_jpg(path@),
            taken_below(*probe, path@, counter as nat),
        decreases MAX_NUMBERED + 1 - counter,
    {
        let tag = decimal_text(counter);
        let candidate = tagged_path(prefix.as_str(), stem_text.as_str(), tag.as_str(), ext_text.as_str());
        if !probe(&candidate) {
            proof { assert(candidate@ == tagged(path@, decimal(counter as nat))); }
            return candidate;
        }
        proof {
            assert(reported_taken(*probe, tagged(path@, decimal(counter as nat))));
            assert forall|j: nat| 1 <= j < counter + 1 implies #[trigger] reported_taken(
                *probe,
                tagged(path@, decimal(j)),
            ) by {
                if j < counter {
                    assert(taken_below(*probe, path@, counter as nat));
                }
            }
        }
        counter += 1;
    }
    let mut draws: u64 = 0;
    let ghost mut drawn: Seq<Seq<char>> = seq![];
    while draws < MAX_TOKEN_DRAWS
        invariant
            draws <= MAX_TOKEN_DRAWS,
            forall|p: &String| call_requires(*probe, (p,)),
            prefix@ == dir_prefix(path@),
            stem_text@ == stem_or_image(path@),
            ext_text@ == ext_or_jpg(path@),
            taken_below(*probe, path@, MAX_NUMBERED as nat + 1),
            drawn.len() == draws,
            forall|i: int| 0 <= i < drawn.len() ==> is_token(#[trigger] drawn[i]) && reported_taken(*probe, tagged(path@, drawn[i])),
        decreases MAX_TOKEN_DRAWS - draws,
    {
        let token = fresh_token();
        let candidate = tagged_path(prefix.as_str(), stem_text.as_str(), token.as_str(), ext_text.as_str());
        proof { assert(candidate@ == tagged(path@, token@)); }
        if !probe(&candidate) {
            return candidate;
        }
        proof {
            assert(reported_taken(*probe, tagged(path@, token@)));
            drawn = drawn.push(token@);
        }
        draws += 1;
    }
    let token = fresh_token();
    let last = tagged_path(prefix.as_str(), stem_text.as_str(), token.as_str(), ext_text.as_str());
    proof {
        assert(last@ == tagged(path@, token@));
        assert(tokens_taken(*probe, path@));
    }
    last
}

/// Where `get_output_path` puts an input: its planned place with the
/// extension `jpg`, resolved against taken paths, always inside the output
/// folder; the error where the input has no file name.
pub open spec fn output_for<F: Fn(&String) -> bool>(
    probe: F,
    input: Seq<char>,
    base: Seq<char>,
    preserve: bool,
    sources: Seq<SourceScan>,
    r: Result<String, String>,
) -> bool {
    match planned_output(input, base, preserve, sources) {
        Some(p) => r is Ok && resolved(probe, with_jpg(p), r->Ok_0) && has_prefix(r->Ok_0@, join(base, seq![])),
        None => r is Err && r->Err_0@ == "Invalid input filename"@,
    }
}

proof fn lemma_prefix_kept(a: Seq<char>, k: int, t: Seq<char>, j: Seq<char>)
    requires
        has_prefix(a, j),
        j.len() <= k <= a.len(),
    ensures
        has_prefix(a.subrange(0, k) + t, j),
{
    assert((a.subrange(0, k) + t).subrange(0, j.len() as int) =~= a.subrange(0, j.len() as int));
}

proof fn lemma_tagged_in_dir(q: Seq<char>, t: Seq<char>, j: Seq<char>)
    requires
        has_prefix(trimmed(q), j),
        j.len() == 0 || j.last() == '/',
    ensures
        has_prefix(tagged(q, t), j),
{
    lemma_name_after_dir(q, j);
    let rest = stem_or_image(q) + seq!['_'] + t + seq!['.'] + ext_or_jpg(q);
    assert(tagged(q, t) =~= trimmed(q).subrange(0, name_start(q)) + rest);
    lemma_prefix_kept(trimmed(q), name_start(q), rest, j);
}

/// A text without separators that is neither `.` nor `..` is its own file name.
proof fn lemma_plain_name(n: Seq<char>)
    requires
        n.len() > 0,
        n != seq!['.'],
        n != seq!['.', '.'],
        forall|i: int| 0 <= i < n.len() ==> n[i] != '/',
    ensures
        file_name(n) == Some(n),
{
    assert(!ends_in_filler(n));
    assert(trimmed(n) == n);
    lemma_last_index(n, '/');
    assert(base_name(n) =~= n);
}

/// Trimming a relative part with a file name, put after a directory text,
/// stays within that part.
proof fn lemma_trimmed_after_dir(j: Seq<char>, rel: Seq<char>)
    requires
        j.len() == 0 || j.last() == '/',
        rel.len() > 0,
        rel[0] != '/',
        file_name(rel) is Some,
    ensures
        trimmed(j + rel) == j + trimmed(rel),
    decreases rel.len(),
{
    let s = j + rel;
    if ends_in_filler(rel) {
        assert(rel.len() >= 2);
        assert(s.drop_last() =~= j + rel.drop_last());
        assert(ends_in_filler(s));
        assert(trimmed(rel) == trimmed(rel.drop_last()));
        assert(base_name(rel) == base_name(rel.drop_last()));
        lemma_trimmed_after_dir(j, rel.drop_last());
    } else {
        if rel.len() == 1 && rel[0] == '.' {
            assert(trimmed(rel) == rel);
            lemma_last_index(rel, '/');
            assert(base_name(rel) =~= seq!['.']);
        }
        assert(!ends_in_filler(s));
    }
}

/// The output path of `input_path` below `output_base`, with the extension
/// `jpg`; with `preserve_structure`, at its place relative to the first
/// source directory above it. `probe` tells whether a path is taken.
pub fn get_output_path<F: Fn(&String) -> bool>(
    input_path: &str,
    output_base: &str,
    preserve_structure: bool,
    sources: &Vec<SourceScan>,
    probe: &F,
) -> (r: Result<String, String>)
    requires
        forall|p: &String| call_requires(*probe, (p,)),
    ensures
        output_for(*probe, input_path@, output_base@, preserve_structure, sources@, r),
{
    let ghost j = join(output_base@, seq![]);
    let parent = if preserve_structure {
        find_common_parent(input_path, sources)
    } else {
        None
    };
    let ghost rel: Seq<char>;
    let planned = match parent {
        Some(d) => {
            proof {
                let ghost fp = first_parent(input_path@, sources@);
                assert(fp is Some);
                lemma_first_parent_under(input_path@, sources@);
            }
            let r = relative_path(input_path, d.as_str());
            if file_name_of(r.as_str()).is_none() {
                return Err(String::from_str("Invalid input filename"));
            }
            proof {
                rel = r@;
                lemma_skip_separators(input_path@.subrange(d@.len() as int, input_path@.len() as int));
                lemma_trimmed(rel);
            }
            join_path(output_base, r.as_str())
        },
        None => match file_name_of(input_path) {
            Some(n) => {
                proof {
                    rel = n@;
                    let t = trimmed(input_path@);
                    lemma_trimmed(input_path@);
                    lemma_last_index(t, '/');
                    assert(forall|i: int| 0 <= i < n@.len() ==> n@[i] == t[name_start(input_path@) + i]);
                    lemma_plain_name(n@);
                }
                join_path(output_base, n.as_str())
            },
            None => {
                return Err(String::from_str("Invalid input filename"));
            },
        },
    };
    proof {
        assert(planned@ =~= j + rel);
        lemma_trimmed_after_dir(j, rel);
        assert((j + trimmed(rel)).subrange(0, j.len() as int) =~= j);
        assert(planned@.subrange(0, j.len() as int) =~= j);
        lemma_trimmed(planned@);
        if file_name(planned@) is Some {
            lemma_name_after_dir(planned@, j);
            let t = stem(file_name(planned@)->0) + seq!['.'] + "jpg"@;
            assert(with_jpg(planned@) =~= trimmed(planned@).subrange(0, name_start(planned@)) + t);
            lemma_prefix_kept(trimmed(planned@), name_start(planned@), t, j);
            reveal_strlit("jpg");
            assert(with_jpg(planned@).last() == 'g');
            assert(!ends_in_filler(with_jpg(planned@)));
            assert(trimmed(with_jpg(planned@)) == with_jpg(planned@));
        }
        assert(has_prefix(with_jpg(planned@), j));
        assert(has_prefix(trimmed(with_jpg(planned@)), j));
    }
    let with_ext = with_jpg_extension(planned.as_str());
    let ghost q = with_ext@;
    let s = get_unique_filename(with_ext, probe);
    proof { lemma_resolved_in_dir(*probe, q, s, j); }
    Ok(s)
}

/// Every path that resolution may give for `q` keeps the directory text
/// that `q` starts with.
proof fn lemma_resolved_in_dir<F: Fn(&String) -> bool>(probe: F, q: Seq<char>, r: String, j: Seq<char>)
    requires
        resolved(probe, q, r),
        has_prefix(q, j),
        has_prefix(trimmed(q), j),
        j.len() == 0 || j.last() == '/',
    ensures
        has_prefix(r@, j),
{
    if r@ != q {
        if exists|k: nat| 1 <= k <= MAX_NUMBERED && r@ == #[trigger] tagged(q, decimal(k)) {
            let k = choose|k: nat| 1 <= k <= MAX_NUMBERED && r@ == #[trigger] tagged(q, decimal(k));
            lemma_tagged_in_dir(q, decimal(k), j);
        } else {
            let t = choose|t: Seq<char>| is_token(t) && r@ == #[trigger] tagged(q, t);
            lemma_tagged_in_dir(q, t, j);
        }
    }
}

proof fn lemma_first_parent_under(file: Seq<char>, sources: Seq<SourceScan>)
    ensures
        first_parent(file, sources) is Some ==> is_under(file, first_parent(file, sources)->0),
    decreases sources.len(),
{
    if sources.len() > 0 {
        lemma_first_parent_under(file, sources.drop_last());
    }
}

/// Once the first result has been taken, a second resolution of the same
/// planned path, with a probe that answers the same for the same path,
/// gives another path, unless every name it tried was reported taken and
/// it fell back to an unprobed random token.
pub proof fn lemma_second_resolution_differs<F: Fn(&String) -> bool>(
    probe: F,
    q: Seq<char>,
    first: String,
    second: String,
)
    requires
        call_ensures(probe, (&first,), true),
        resolved(probe, q, second),
        forall|p: &String, a: bool, b: bool|
            call_ensures(probe, (p,), a) && call_ensures(probe, (p,), b) ==> a == b,
    ensures
        first != second || tokens_taken(probe, q),
{
    if first == second && !tokens_taken(probe, q) {
        assert(resolved_free(probe, q, second));
        assert(call_ensures(probe, (&second,), false));
    }
}

/// The file that the codec writes for `input` when asked to put it in the
/// directory of `output`: the input's stem, with the extension `jpg`.
pub open spec fn codec_output(input: Seq<char>, output: Seq<char>) -> Option<Seq<char>> {
    match file_name(input) {
        Some(n) => Some(with_jpg(dir_prefix(output) + stem(n))),
        None => None,
    }
}

/// Where the codec leaves the compressed `input` when `output` is wanted;
/// where the two differ, the file is to be renamed to `output`.
pub fn codec_output_path(input: &str, output: &str) -> (r: Option<String>)
    ensures
        match r {
            Some(p) => codec_output(input@, output@) == Some(p@),
            None => codec_output(input@, output@) is None,
        },
{
    match file_name_of(input) {
        Some(n) => {
            let trim = trimmed_text(output);
            let len = trim.unicode_len();
            proof { lemma_last_index(trim@, '/'); }
            let start = match last_index_of(trim.as_str(), '/') {
                Some(i) => i + 1,
                None => 0,
            };
            let mut p = slice_text(trim.as_str(), 0, start);
            let s = stem_of(n.as_str());
            p.append(s.as_str());
            Some(with_jpg_extension(p.as_str()))
        },
        None => None,
    }
}

/// Where whole-folder compression puts `entry`: at its place relative to
/// `input_folder` (or its full path, where it is not below it) under
/// `output_folder`, with the extension `jpg`.
pub open spec fn folder_output(entry: Seq<char>, input_folder: Seq<char>, output_folder: Seq<char>) -> Seq<char> {
    let rel = if is_under(entry, input_folder) {
        relative_to(entry, input_folder)
    } else {
        entry
    };
    join(output_folder, with_jpg(rel))
}

/// The output path of `entry` in whole-folder compression.
pub fn folder_output_path(entry: &str, input_folder: &str, output_folder: &str) -> (r: String)
    ensures
        r@ == folder_output(entry@, input_folder@, output_folder@),
{
    let rel = if is_under_dir(entry, input_folder) {
        relative_path(entry, input_folder)
    } else {
        String::from_str(entry)
    };
    let named = with_jpg_extension(rel.as_str());
    join_path(output_folder, named.as_str())
}

} // verus!
