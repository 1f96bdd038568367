//! Turning what was found at each source path into the list of images to
//! work on, and judging each source path.

use vstd::prelude::*;
use crate::analyzer::{image_error, is_valid_image, PathKind};
use crate::paths::{has_image_extension, has_valid_extension};
use crate::types::PathValidation;

verus! {

/// One entry met while walking a directory tree.
#[derive(Clone, Debug)]
pub struct WalkEntry {
    pub path: String,
    /// The entry is a regular file.
    pub is_file: bool,
}

/// What was found at a source path.
#[derive(Clone, Debug)]
pub enum SourceListing {
    Missing,
    File,
    /// A directory, with every entry of its tree in walking order.
    Directory(Vec<WalkEntry>),
    /// Something that is neither a regular file nor a directory.
    Other,
}

/// A source path and what was found there.
#[derive(Clone, Debug)]
pub struct SourceScan {
    pub path: String,
    pub listing: SourceListing,
}

/// The texts of a sequence of strings.
pub open spec fn texts(v: Seq<String>) -> Seq<Seq<char>> {
    v.map_values(|s: String| s@)
}

/// An entry is worked on when it is a regular file with an image extension.
pub open spec fn qualifies(e: WalkEntry) -> bool {
    e.is_file && has_image_extension(e.path@)
}

/// The paths of the qualifying entries, in walking order.
pub open spec fn image_entries(es: Seq<WalkEntry>) -> Seq<Seq<char>>
    decreases es.len(),
{
    if es.len() == 0 {
        seq![]
    } else if qualifies(es.last()) {
        image_entries(es.drop_last()).push(es.last().path@)
    } else {
        image_entries(es.drop_last())
    }
}

/// The images that one source contributes to a run: the qualifying files of
/// a directory's tree, or the path itself where it is a file with an image
/// extension; nothing where it is missing.
pub open spec fn scan_images(s: SourceScan) -> Seq<Seq<char>> {
    match s.listing {
        SourceListing::Directory(es) => image_entries(es@),
        SourceListing::File => if has_image_extension(s.path@) {
            seq![s.path@]
        } else {
            seq![]
        },
        _ => seq![],
    }
}

/// The images of all sources, source by source.
pub open spec fn discovered(scans: Seq<SourceScan>) -> Seq<Seq<char>>
    decreases scans.len(),
{
    if scans.len() == 0 {
        seq![]
    } else {
        discovered(scans.drop_last()) + scan_images(scans.last())
    }
}

/// The paths that analysis looks at for one source: the qualifying files of
/// a directory's tree, or else the path itself.
pub open spec fn scan_targets(s: SourceScan) -> Seq<Seq<char>> {
    match s.listing {
        SourceListing::Directory(es) => image_entries(es@),
        _ => seq![s.path@],
    }
}

pub open spec fn analysis_targets_of(scans: Seq<SourceScan>) -> Seq<Seq<char>>
    decreases scans.len(),
{
    if scans.len() == 0 {
        seq![]
    } else {
        analysis_targets_of(scans.drop_last()) + scan_targets(scans.last())
    }
}

/// Appends the paths of the qualifying entries of `es` to `out`.
fn push_image_entries(out: &mut Vec<String>, es: &Vec<WalkEntry>)
    ensures
        texts(final(out)@) == texts(old(out)@) + image_entries(es@),
{
    let ghost start = texts(out@);
    let mut i: usize = 0;
    proof { assert(texts(out@) =~= start + image_entries(es@.subrange(0, 0))); }
    while i < es.len()
        invariant
            i <= es@.len(),
            texts(out@) == start + image_entries(es@.subrange(0, i as int)),
        decreases es.len() - i,
    {
        let e = &es[i];
        let ghost before = texts(out@);
        proof {
            assert(es@.subrange(0, i + 1).drop_last() =~= es@.subrange(0, i as int));
            assert(es@.subrange(0, i + 1).last() == es@[i as int]);
        }
        if e.is_file && has_valid_extension(e.path.as_str()) {
            out.push(e.path.clone());
            proof { assert(texts(out@) =~= before.push(e.path@)); }
        }
        i += 1;
    }
    proof { assert(es@.subrange(0, es@.len() as int) =~= es@); }
}

/// Some qualifying entry of `es` was judged decodable in `verdicts`, which
/// holds the decoder's verdict for each entry by position.
pub open spec fn has_usable_image(es: Seq<WalkEntry>, verdicts: Seq<Result<(), String>>) -> bool {
    exists|i: int| 0 <= i < es.len() && i < verdicts.len() && qualifies(#[trigger] es[i]) && verdicts[i] is Ok
}

/// Whether the tree of a directory holds a qualifying file whose content
/// decodes; `verdicts` holds the decoder's verdict for each entry.
pub fn directory_has_images(es: &Vec<WalkEntry>, verdicts: &Vec<Result<(), String>>) -> (r: bool)
    ensures
        r == has_usable_image(es@, verdicts@),
{
    let mut i: usize = 0;
    while i < es.len()
        invariant
            i <= es@.len(),
            forall|k: int| 0 <= k < i && k < verdicts@.len() ==> !(qualifies(#[trigger] es@[k]) && verdicts@[k] is Ok),
        decreases es.len() - i,
    {
        if i < verdicts.len() {
            let ok = match &verdicts[i] {
                Ok(()) => true,
                Err(_) => false,
            };
            if ok && es[i].is_file && has_valid_extension(es[i].path.as_str()) {
                return true;
            }
        }
        i += 1;
    }
    false
}

/// The images to compress, source by source in the given order: the
/// qualifying files of each directory's tree, each file source with an image
/// extension; missing paths are passed over.
pub fn collect_image_files(scans: &Vec<SourceScan>) -> (r: Vec<String>)
    ensures
        texts(r@) == discovered(scans@),
{
    let mut files: Vec<String> = Vec::new();
    let mut i: usize = 0;
    proof { assert(texts(files@) =~= discovered(scans@.subrange(0, 0))); }
    while i < scans.len()
        invariant
            i <= scans@.len(),
            texts(files@) == discovered(scans@.subrange(0, i as int)),
        decreases scans.len() - i,
    {
        let s = &scans[i];
        let ghost before = texts(files@);
        proof {
            assert(scans@.subrange(0, i + 1).drop_last() =~= scans@.subrange(0, i as int));
            assert(scans@.subrange(0, i + 1).last() == scans@[i as int]);
        }
        match &s.listing {
            SourceListing::Directory(es) => {
                push_image_entries(&mut files, es);
            },
            SourceListing::File => {
                if has_valid_extension(s.path.as_str()) {
                    files.push(s.path.clone());
                    proof { assert(texts(files@) =~= before + seq![s.path@]); }
                } else {
                    proof { assert(texts(files@) =~= before + Seq::<Seq<char>>::empty()); }
                }
            },
            _ => {
                proof { assert(texts(files@) =~= before + Seq::<Seq<char>>::empty()); }
            },
        }
        i += 1;
    }
    proof { assert(scans@.subrange(0, scans@.len() as int) =~= scans@); }
    files
}

/// The paths that analysis looks at: the qualifying files of each
/// directory's tree, and every other source path as it stands.
pub fn analysis_targets(scans: &Vec<SourceScan>) -> (r: Vec<String>)
    ensures
        texts(r@) == analysis_targets_of(scans@),
{
    let mut files: Vec<String> = Vec::new();
    let mut i: usize = 0;
    proof { assert(texts(files@) =~= analysis_targets_of(scans@.subrange(0, 0))); }
    while i < scans.len()
        invariant
            i <= scans@.len(),
            texts(files@) == analysis_targets_of(scans@.subrange(0, i as int)),
        decreases scans.len() - i,
    {
        let s = &scans[i];
        let ghost before = texts(files@);
        proof {
            assert(scans@.subrange(0, i + 1).drop_last() =~= scans@.subrange(0, i as int));
            assert(scans@.subrange(0, i + 1).last() == scans@[i as int]);
        }
        match &s.listing {
            SourceListing::Directory(es) => {
                push_image_entries(&mut files, es);
            },
            _ => {
                files.push(s.path.clone());
                proof { assert(texts(files@) =~= before + seq![s.path@]); }
            },
        }
        i += 1;
    }
    proof { assert(scans@.subrange(0, scans@.len() as int) =~= scans@); }
    files
}

/// The kind of path that a listing reports.
pub open spec fn kind_of(l: SourceListing) -> PathKind {
    match l {
        SourceListing::Missing => PathKind::Missing,
        SourceListing::File => PathKind::File,
        SourceListing::Directory(_) => PathKind::Directory,
        SourceListing::Other => PathKind::Other,
    }
}

/// The decoder's verdicts fit a source: one per entry of a directory's
/// tree, by position; one for any other source.
pub open spec fn verdicts_fit(s: SourceScan, verdicts: Seq<Result<(), String>>) -> bool {
    match s.listing {
        SourceListing::Directory(es) => verdicts.len() == es@.len(),
        _ => verdicts.len() == 1,
    }
}

/// Why a source path cannot be used, if it cannot: it is missing, a
/// directory whose tree holds no qualifying file that decodes, or not a
/// usable image.
pub open spec fn source_error(s: SourceScan, verdicts: Seq<Result<(), String>>) -> Option<Seq<char>> {
    match s.listing {
        SourceListing::Missing => Some("Path does not exist"@),
        SourceListing::Directory(es) => if has_usable_image(es@, verdicts) {
            None
        } else {
            Some("Directory contains no valid image files"@)
        },
        _ => image_error(s.path@, kind_of(s.listing), verdicts[0]),
    }
}

pub open spec fn reports(v: PathValidation, s: SourceScan, verdicts: Seq<Result<(), String>>) -> bool {
    &&& v.path@ == s.path@
    &&& v.is_valid == (source_error(s, verdicts) is None)
    &&& match v.error {
        Some(e) => source_error(s, verdicts) == Some(e@),
        None => source_error(s, verdicts) is None,
    }
}

/// Judges one source path. `verdicts` holds the decoder's verdicts on its
/// content: one for each entry of a directory's tree, by position (only
/// those of qualifying files are consulted), or one for any other path
/// (consulted only for a file with an image extension).
pub fn validate_path(scan: &SourceScan, verdicts: &Vec<Result<(), String>>) -> (r: PathValidation)
    requires
        verdicts_fit(*scan, verdicts@),
    ensures
        reports(r, *scan, verdicts@),
{
    match &scan.listing {
        SourceListing::Missing => PathValidation::invalid(
            scan.path.clone(),
            String::from_str("Path does not exist"),
        ),
        SourceListing::Directory(es) => {
            if directory_has_images(es, verdicts) {
                PathValidation::valid(scan.path.clone())
            } else {
                PathValidation::invalid(
                    scan.path.clone(),
                    String::from_str("Directory contains no valid image files"),
                )
            }
        },
        SourceListing::File => match is_valid_image(scan.path.as_str(), PathKind::File, &verdicts[0]) {
            Ok(()) => PathValidation::valid(scan.path.clone()),
            Err(e) => PathValidation::invalid(scan.path.clone(), e),
        },
        SourceListing::Other => match is_valid_image(scan.path.as_str(), PathKind::Other, &verdicts[0]) {
            Ok(()) => PathValidation::valid(scan.path.clone()),
            Err(e) => PathValidation::invalid(scan.path.clone(), e),
        },
    }
}

/// Judges each source path, one report per path in the given order, with
/// the decoder's verdicts of each as `validate_path` takes them.
pub fn validate_paths(scans: &Vec<SourceScan>, verdicts: &Vec<Vec<Result<(), String>>>) -> (r: Vec<PathValidation>)
    requires
        scans@.len() == verdicts@.len(),
        forall|i: int| 0 <= i < scans@.len() ==> verdicts_fit(#[trigger] scans@[i], verdicts@[i]@),
    ensures
        r@.len() == scans@.len(),
        forall|i: int| 0 <= i < r@.len() ==> reports(#[trigger] r@[i], scans@[i], verdicts@[i]@),
{
    let mut out: Vec<PathValidation> = Vec::new();
    let mut i: usize = 0;
    while i < scans.len()
        invariant
            i <= scans@.len(),
            scans@.len() == verdicts@.len(),
            forall|k: int| 0 <= k < scans@.len() ==> verdicts_fit(#[trigger] scans@[k], verdicts@[k]@),
            out@.len() == i,
            forall|j: int| 0 <= j < i ==> reports(#[trigger] out@[j], scans@[j], verdicts@[j]@),
        decreases scans.len() - i,
    {
        out.push(validate_path(&scans[i], &verdicts[i]));
        i += 1;
    }
    out
}

} // verus!
