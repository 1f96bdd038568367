//! The decisions behind the application's commands: defaults, parameter
//! checks, totals of an analysis, and what is known of the machine.

use vstd::prelude::*;
use crate::analyzer::PathKind;
use crate::paths::{join, join_path};
use crate::text::{concat, fixed_point_text};
use crate::types::{
    quality_in_range, quality_message, ratio_in_range, ratio_message, CompressionConfig,
    ImageInfo, PathInfo, SavingsEstimate, SystemInfo, QUALITY_MAX, QUALITY_PLACES, RATIO_MAX,
    RATIO_PLACES,
};

verus! {

/// Quality used when none is given: 85 points, in hundredths.
pub const DEFAULT_QUALITY: i64 = 8500;

/// Size ratio used when none is given: 0.8, in ten-thousandths.
pub const DEFAULT_SIZE_RATIO: i64 = 8000;

/// Relies on num_cpus::get: the number of logical processors available,
/// which its documentation says is always at least 1.
#[verifier::external_body]
fn logical_cores() -> (r: usize)
    ensures
        r >= 1,
{
    num_cpus::get()
}

/// Relies on num_cpus::get_physical: the number of physical cores, which
/// its documentation says is always at least 1.
#[verifier::external_body]
fn physical_cores() -> (r: usize)
    ensures
        r >= 1,
{
    num_cpus::get_physical()
}

/// Relies on dirs::document_dir: the user's documents folder, where the
/// platform knows one, as text.
#[verifier::external_body]
fn document_dir() -> (r: Option<String>) {
    dirs::document_dir().map(|p| p.to_string_lossy().to_string())
}

/// Threads advised on a machine with `cores` logical processors: all but
/// one above two, else one.
pub open spec fn recommended_threads(cores: nat) -> nat {
    if cores > 2 {
        (cores - 1) as nat
    } else {
        1
    }
}

/// The thread count advised on a machine with `cores` logical processors.
pub fn recommended_thread_count(cores: usize) -> (r: usize)
    ensures
        r as nat == recommended_threads(cores as nat),
        r >= 1,
{
    if cores > 4 {
        cores - 1
    } else if cores > 2 {
        cores - 1
    } else {
        1
    }
}

/// Processor counts of this machine and the thread count advised on it.
pub fn get_system_info() -> (r: SystemInfo)
    ensures
        r.cpu_cores >= 1,
        r.cpu_cores_physical >= 1,
        r.recommended_thread_count as nat == recommended_threads(r.cpu_cores as nat),
{
    let cores = logical_cores();
    SystemInfo {
        cpu_cores: cores,
        cpu_cores_physical: physical_cores(),
        recommended_thread_count: recommended_thread_count(cores),
    }
}

pub open spec fn is_default_config(c: CompressionConfig, cores: nat) -> bool {
    &&& c.source_paths@.len() == 0
    &&& c.output_folder@.len() == 0
    &&& c.quality == DEFAULT_QUALITY
    &&& c.size_ratio == DEFAULT_SIZE_RATIO
    &&& c.thread_count as nat == if cores >= 1 { cores } else { 1 }
    &&& !c.preserve_structure
}

/// The starting configuration on a machine with `cores` logical processors:
/// no sources, no output folder, quality 85, size ratio 0.8, one thread per
/// processor, outputs side by side.
pub fn default_config_for(cores: usize) -> (r: CompressionConfig)
    ensures
        is_default_config(r, cores as nat),
{
    CompressionConfig {
        source_paths: Vec::new(),
        output_folder: String::new(),
        quality: DEFAULT_QUALITY,
        size_ratio: DEFAULT_SIZE_RATIO,
        thread_count: if cores >= 1 { cores } else { 1 },
        preserve_structure: false,
    }
}

/// The starting configuration on this machine.
pub fn get_default_config() -> (r: CompressionConfig)
    ensures
        exists|cores: nat| cores >= 1 && is_default_config(r, cores),
{
    default_config_for(logical_cores())
}

/// The default output folder, `CompressedImages` in the documents folder
/// `documents`, or the error where there is none.
pub fn output_folder_in(documents: Option<String>) -> (r: Result<String, String>)
    ensures
        match documents {
            Some(d) => r is Ok && r->Ok_0@ == join(d@, "CompressedImages"@),
            None => r is Err && r->Err_0@ == "Could not find Documents directory"@,
        },
{
    match documents {
        Some(d) => Ok(join_path(d.as_str(), "CompressedImages")),
        None => Err(String::from_str("Could not find Documents directory")),
    }
}

/// The default output folder: `CompressedImages` in the user's documents.
pub fn get_default_output_folder() -> (r: Result<String, String>)
    ensures
        match r {
            Ok(s) => exists|d: Seq<char>| s@ == join(d, "CompressedImages"@),
            Err(e) => e@ == "Could not find Documents directory"@,
        },
{
    output_folder_in(document_dir())
}

/// The quality and size ratio of an analysis, with the defaults filled in,
/// or the first rule broken: quality within 0 to 100, size ratio within 0
/// to 1, at least one path.
pub open spec fn analysis_settings_of(path_count: nat, quality: Option<i64>, size_ratio: Option<i64>) -> Result<(i64, i64), Seq<char>> {
    let q = match quality { Some(q) => q, None => DEFAULT_QUALITY };
    let s = match size_ratio { Some(s) => s, None => DEFAULT_SIZE_RATIO };
    if !quality_in_range(q as int) {
        Err(quality_message(q as int))
    } else if !ratio_in_range(s as int) {
        Err(ratio_message(s as int))
    } else if path_count == 0 {
        Err("No paths provided for analysis"@)
    } else {
        Ok((q, s))
    }
}

/// Checks the parameters of an analysis of `path_count` paths.
pub fn analysis_settings(path_count: usize, quality: Option<i64>, size_ratio: Option<i64>) -> (r: Result<(i64, i64), String>)
    ensures
        match analysis_settings_of(path_count as nat, quality, size_ratio) {
            Ok(v) => r == Ok::<(i64, i64), String>(v),
            Err(e) => r is Err && r->Err_0@ == e,
        },
{
    let q = match quality { Some(q) => q, None => DEFAULT_QUALITY };
    let s = match size_ratio { Some(s) => s, None => DEFAULT_SIZE_RATIO };
    if q < 0 || q > QUALITY_MAX {
        let v = fixed_point_text(q, QUALITY_PLACES);
        return Err(concat("Quality must be between 0 and 100, got ", v.as_str()));
    }
    if s < 0 || s > RATIO_MAX {
        let v = fixed_point_text(s, RATIO_PLACES);
        return Err(concat("Size ratio must be between 0 and 1, got ", v.as_str()));
    }
    if path_count == 0 {
        return Err(String::from_str("No paths provided for analysis"));
    }
    Ok((q, s))
}

/// The images found by an analysis, or the error where there are none.
pub fn finish_analysis(images: Vec<ImageInfo>) -> (r: Result<Vec<ImageInfo>, String>)
    ensures
        images@.len() == 0 ==> r is Err && r->Err_0@ == "No valid images found in the provided paths"@,
        images@.len() > 0 ==> r == Ok::<Vec<ImageInfo>, String>(images),
{
    if images.len() == 0 {
        Err(String::from_str("No valid images found in the provided paths"))
    } else {
        Ok(images)
    }
}

/// Sum of the original sizes.
pub open spec fn total_original(images: Seq<ImageInfo>) -> nat
    decreases images.len(),
{
    if images.len() == 0 {
        0
    } else {
        total_original(images.drop_last()) + images.last().original_size as nat
    }
}

/// Sum of the estimated sizes.
pub open spec fn total_estimated(images: Seq<ImageInfo>) -> nat
    decreases images.len(),
{
    if images.len() == 0 {
        0
    } else {
        total_estimated(images.drop_last()) + images.last().estimated_size as nat
    }
}

proof fn lemma_totals_grow(images: Seq<ImageInfo>, i: int)
    requires
        0 <= i <= images.len(),
    ensures
        total_original(images.subrange(0, i)) <= total_original(images),
        total_estimated(images.subrange(0, i)) <= total_estimated(images),
    decreases images.len() - i,
{
    if i < images.len() {
        lemma_totals_grow(images, i + 1);
        assert(images.subrange(0, i + 1).drop_last() =~= images.subrange(0, i));
    } else {
        assert(images.subrange(0, i) =~= images);
    }
}

/// Totals of an analysis: bytes before and predicted after, what that
/// saves, and the share saved in hundredths of a percent (0 for no bytes).
pub fn estimate_savings(images: &Vec<ImageInfo>) -> (r: SavingsEstimate)
    requires
        total_original(images@) <= u64::MAX,
        total_estimated(images@) <= u64::MAX,
    ensures
        r.total_original == total_original(images@),
        r.total_estimated == total_estimated(images@),
        r.estimated_savings == if r.total_original >= r.total_estimated {
            (r.total_original - r.total_estimated) as u64
        } else {
            0u64
        },
        r.savings_percentage as nat == if r.total_original > 0 {
            r.estimated_savings as nat * 10000 / r.total_original as nat
        } else {
            0nat
        },
        r.file_count == images@.len(),
{
    let mut original: u64 = 0;
    let mut estimated: u64 = 0;
    let mut i: usize = 0;
    proof { assert(images@.subrange(0, 0) =~= Seq::<ImageInfo>::empty()); }
    while i < images.len()
        invariant
            i <= images@.len(),
            total_original(images@) <= u64::MAX,
            total_estimated(images@) <= u64::MAX,
            original == total_original(images@.subrange(0, i as int)),
            estimated == total_estimated(images@.subrange(0, i as int)),
        decreases images.len() - i,
    {
        proof {
            assert(images@.subrange(0, i + 1).drop_last() =~= images@.subrange(0, i as int));
            lemma_totals_grow(images@, i + 1);
        }
        original = original + images[i].original_size;
        estimated = estimated + images[i].estimated_size;
        i += 1;
    }
    proof { assert(images@.subrange(0, images@.len() as int) =~= images@); }
    let savings = if original >= estimated { original - estimated } else { 0 };
    let percentage: u64 = if original > 0 {
        proof {
            assert(savings as int * 10000 / original as int <= 10000) by (nonlinear_arith)
                requires savings <= original, original > 0;
        }
        ((savings as u128 * 10000) / original as u128) as u64
    } else {
        0
    };
    SavingsEstimate {
        total_original: original,
        total_estimated: estimated,
        estimated_savings: savings,
        savings_percentage: percentage,
        file_count: images.len(),
    }
}

/// What is known of a path from its kind.
pub fn check_path_exists(path: String, kind: PathKind) -> (r: PathInfo)
    ensures
        r.path == path,
        r.exists == (kind != PathKind::Missing),
        r.is_file == (kind == PathKind::File),
        r.is_directory == (kind == PathKind::Directory),
{
    PathInfo {
        exists: kind != PathKind::Missing,
        is_file: kind == PathKind::File,
        is_directory: kind == PathKind::Directory,
        path,
    }
}

/// What making sure of a directory at `path` takes: true where it must be
/// created, false where it is there; the error where something else is.
pub fn directory_plan(path: &str, kind: PathKind) -> (r: Result<bool, String>)
    ensures
        kind == PathKind::Missing ==> r == Ok::<bool, String>(true),
        kind == PathKind::Directory ==> r == Ok::<bool, String>(false),
        kind == PathKind::File || kind == PathKind::Other ==> r is Err && r->Err_0@
            == "Path '"@ + path@ + "' exists but is not a directory"@,
{
    match kind {
        PathKind::Missing => Ok(true),
        PathKind::Directory => Ok(false),
        _ => {
            let mut e = concat("Path '", path);
            e.append("' exists but is not a directory");
            Err(e)
        },
    }
}

} // verus!
