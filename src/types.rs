//! The data that runs through the pipeline: the run's configuration, what is
//! learnt of an image, the outcome of a run, and progress and check reports.

use vstd::prelude::*;
use crate::paths::{file_name, file_name_of};
use crate::text::{concat, fixed_point_text, fixed_text};

verus! {

/// Decimal places of `CompressionConfig::quality`: it counts hundredths of a point.
pub const QUALITY_PLACES: u32 = 2;

/// Decimal places of `CompressionConfig::size_ratio`: it counts ten-thousandths.
pub const RATIO_PLACES: u32 = 4;

/// The highest quality, 100 points, in hundredths.
pub const QUALITY_MAX: i64 = 10000;

/// The highest size ratio, 1, in ten-thousandths.
pub const RATIO_MAX: i64 = 10000;

/// A quality from 0 to 100 points, in hundredths.
pub open spec fn quality_in_range(q: int) -> bool {
    0 <= q <= QUALITY_MAX
}

/// A size ratio from 0 to 1, in ten-thousandths.
pub open spec fn ratio_in_range(r: int) -> bool {
    0 <= r <= RATIO_MAX
}

pub open spec fn quality_message(q: int) -> Seq<char> {
    "Quality must be between 0 and 100, got "@ + fixed_text(q, QUALITY_PLACES as nat)
}

pub open spec fn ratio_message(r: int) -> Seq<char> {
    "Size ratio must be between 0 and 1, got "@ + fixed_text(r, RATIO_PLACES as nat)
}

/// Configuration of one compression run.
#[derive(Clone, Debug)]
pub struct CompressionConfig {
    pub source_paths: Vec<String>,
    pub output_folder: String,
    /// From 0 to 100, in hundredths of a point: 8500 is 85.
    pub quality: i64,
    /// From 0 to 1, in ten-thousandths: 8000 is 0.8.
    pub size_ratio: i64,
    pub thread_count: usize,
    /// Mirror the folders below each source directory instead of
    /// putting every output directly in the output folder.
    pub preserve_structure: bool,
}

impl CompressionConfig {
    /// The first rule that the configuration breaks, as its message.
    pub open spec fn validation_error(&self) -> Option<Seq<char>> {
        if self.source_paths@.len() == 0 {
            Some("No source paths provided"@)
        } else if self.output_folder@.len() == 0 {
            Some("No output folder specified"@)
        } else if !quality_in_range(self.quality as int) {
            Some(quality_message(self.quality as int))
        } else if !ratio_in_range(self.size_ratio as int) {
            Some(ratio_message(self.size_ratio as int))
        } else if self.thread_count == 0 {
            Some("Thread count must be at least 1"@)
        } else {
            None
        }
    }

    pub open spec fn is_valid(&self) -> bool {
        self.validation_error() is None
    }

    /// Checks every field; the error names the first rule broken.
    pub fn validate(&self) -> (r: Result<(), String>)
        ensures
            match r {
                Ok(()) => self.is_valid(),
                Err(e) => self.validation_error() == Some(e@),
            },
    {
        if self.source_paths.len() == 0 {
            return Err(String::from_str("No source paths provided"));
        }
        if self.output_folder.unicode_len() == 0 {
            return Err(String::from_str("No output folder specified"));
        }
        if self.quality < 0 || self.quality > QUALITY_MAX {
            let v = fixed_point_text(self.quality, QUALITY_PLACES);
            return Err(concat("Quality must be between 0 and 100, got ", v.as_str()));
        }
        if self.size_ratio < 0 || self.size_ratio > RATIO_MAX {
            let v = fixed_point_text(self.size_ratio, RATIO_PLACES);
            return Err(concat("Size ratio must be between 0 and 1, got ", v.as_str()));
        }
        if self.thread_count == 0 {
            return Err(String::from_str("Thread count must be at least 1"));
        }
        Ok(())
    }
}

/// A configuration with sources and an output folder is refused when its
/// quality lies outside 0 to 100, or its size ratio outside 0 to 1, and the
/// message names the value that is out of range.
pub proof fn lemma_validate_rejects_out_of_range(c: CompressionConfig)
    requires
        c.source_paths@.len() > 0,
        c.output_folder@.len() > 0,
    ensures
        !quality_in_range(c.quality as int) ==> c.validation_error() == Some(
            quality_message(c.quality as int),
        ),
        quality_in_range(c.quality as int) && !ratio_in_range(c.size_ratio as int)
            ==> c.validation_error() == Some(ratio_message(c.size_ratio as int)),
        !quality_in_range(c.quality as int) || !ratio_in_range(c.size_ratio as int)
            ==> !c.is_valid(),
{
}

/// What analysis learns of one image file.
#[derive(Clone, Debug)]
pub struct ImageInfo {
    pub path: String,
    pub filename: String,
    /// Size of the file in bytes.
    pub original_size: u64,
    /// Predicted size after compression, in bytes.
    pub estimated_size: u64,
    /// Format tag: JPEG, PNG, BMP, GIF, WEBP, TIFF, ICO or UNKNOWN.
    pub format: String,
    pub width: u32,
    pub height: u32,
    /// A small PNG preview as a data URI, where one could be made.
    pub thumbnail: Option<String>,
}

/// The failure of one file, kept in the run's result.
#[derive(Clone, Debug)]
pub struct ImageError {
    pub path: String,
    pub filename: String,
    pub error: String,
}

/// The file name shown for `path`: its file name, or `unknown` without one.
pub open spec fn display_name(path: Seq<char>) -> Seq<char> {
    match file_name(path) {
        Some(n) => n,
        None => "unknown"@,
    }
}

/// The file name of `path`, or `unknown` where it has none.
pub fn display_name_of(path: &str) -> (r: String)
    ensures
        r@ == display_name(path@),
{
    match file_name_of(path) {
        Some(n) => n,
        None => String::from_str("unknown"),
    }
}

impl ImageError {
    pub fn new(path: String, error: String) -> (r: Self)
        ensures
            r.path == path,
            r.filename@ == display_name(path@),
            r.error == error,
    {
        let filename = display_name_of(path.as_str());
        ImageError { path, filename, error }
    }
}

/// The outcome of a compression run.
#[derive(Clone, Debug)]
pub struct CompressResult {
    pub total: usize,
    pub successful: usize,
    pub failed: usize,
    /// Bytes saved over all successes; it stops at `u64::MAX`.
    pub saved_bytes: u64,
    /// One entry per failed file, in the order of the failures.
    pub errors: Vec<ImageError>,
    pub duration_ms: u128,
}

/// `a + b`, or `u64::MAX` where that is larger.
pub open spec fn saturating_sum(a: u64, b: u64) -> u64 {
    if a + b > u64::MAX {
        u64::MAX
    } else {
        (a + b) as u64
    }
}

impl CompressResult {
    pub fn new() -> (r: Self)
        ensures
            r.total == 0,
            r.successful == 0,
            r.failed == 0,
            r.saved_bytes == 0,
            r.errors@.len() == 0,
            r.duration_ms == 0,
    {
        CompressResult {
            total: 0,
            successful: 0,
            failed: 0,
            saved_bytes: 0,
            errors: Vec::new(),
            duration_ms: 0,
        }
    }

    /// Counts one success that saved `saved` bytes.
    pub fn add_success(&mut self, saved: u64)
        requires
            old(self).successful < usize::MAX,
        ensures
            final(self).successful == old(self).successful + 1,
            final(self).saved_bytes == saturating_sum(old(self).saved_bytes, saved),
            final(self).total == old(self).total,
            final(self).failed == old(self).failed,
            final(self).errors@ == old(self).errors@,
            final(self).duration_ms == old(self).duration_ms,
    {
        self.successful = self.successful + 1;
        self.saved_bytes = self.saved_bytes.saturating_add(saved);
    }

    /// Counts one failure and keeps its error.
    pub fn add_error(&mut self, error: ImageError)
        requires
            old(self).failed < usize::MAX,
        ensures
            final(self).failed == old(self).failed + 1,
            final(self).errors@ == old(self).errors@.push(error),
            final(self).total == old(self).total,
            final(self).successful == old(self).successful,
            final(self).saved_bytes == old(self).saved_bytes,
            final(self).duration_ms == old(self).duration_ms,
    {
        self.failed = self.failed + 1;
        self.errors.push(error);
    }
}

/// Share of `current` in `total`, in hundredths of a percent; 0 when `total` is 0.
pub open spec fn percent_of(current: nat, total: nat) -> nat {
    if total > 0 {
        current * 10000 / total
    } else {
        0
    }
}

/// Progress of a run, sent once per file as it is taken up.
#[derive(Clone, Debug)]
pub struct ProgressUpdate {
    /// 1-based index of the file just taken up.
    pub current: usize,
    pub total: usize,
    pub current_file: String,
    /// `current / total` in hundredths of a percent: 2500 is 25%.
    pub percent: u64,
}

impl ProgressUpdate {
    pub fn new(current: usize, total: usize, current_file: String) -> (r: Self)
        requires
            current <= total,
        ensures
            r.current == current,
            r.total == total,
            r.current_file == current_file,
            r.percent as nat == percent_of(current as nat, total as nat),
            r.percent <= 10000,
    {
        let percent: u64 = if total > 0 {
            proof {
                assert(current * 10000 <= total * 10000) by (nonlinear_arith)
                    requires current <= total;
                assert((current * 10000) / (total as int) <= 10000) by (nonlinear_arith)
                    requires current * 10000 <= total * 10000, total > 0;
            }
            ((current as u128 * 10000) / total as u128) as u64
        } else {
            0
        };
        ProgressUpdate { current, total, current_file, percent }
    }
}

/// Whether a path can be used as a source, and why not.
#[derive(Clone, Debug)]
pub struct PathValidation {
    pub path: String,
    pub is_valid: bool,
    pub error: Option<String>,
}

impl PathValidation {
    pub fn valid(path: String) -> (r: Self)
        ensures
            r.path == path,
            r.is_valid,
            r.error is None,
    {
        PathValidation { path, is_valid: true, error: None }
    }

    pub fn invalid(path: String, error: String) -> (r: Self)
        ensures
            r.path == path,
            !r.is_valid,
            r.error == Some(error),
    {
        PathValidation { path, is_valid: false, error: Some(error) }
    }
}

/// Processor counts of this machine, and the thread count advised for a run.
#[derive(Clone, Debug)]
pub struct SystemInfo {
    pub cpu_cores: usize,
    pub cpu_cores_physical: usize,
    pub recommended_thread_count: usize,
}

/// Folders of the application and of the user; empty where unknown.
#[derive(Clone, Debug)]
pub struct AppDirectories {
    pub app_data: String,
    pub app_config: String,
    pub app_cache: String,
    pub app_log: String,
    pub documents: String,
    pub pictures: String,
    pub downloads: String,
}

/// What the file system says of a path.
#[derive(Clone, Debug)]
pub struct PathInfo {
    pub exists: bool,
    pub is_file: bool,
    pub is_directory: bool,
    pub path: String,
}

/// Totals of an analysis: bytes before and predicted after compression.
#[derive(Clone, Debug)]
pub struct SavingsEstimate {
    pub total_original: u64,
    pub total_estimated: u64,
    pub estimated_savings: u64,
    /// Savings as a share of the original bytes, in hundredths of a percent.
    pub savings_percentage: u64,
    pub file_count: usize,
}

} // verus!
