//! Batch image compression: configuration checks, file discovery, output
//! path planning, size estimation and the bookkeeping of a run, each with
//! its contract. Reading and writing files, decoding and encoding pixels,
//! and threads are left to the caller, which hands in what it found.

pub mod analyzer;
pub mod commands;
pub mod discovery;
pub mod orchestrator;
pub mod output;
pub mod paths;
pub mod text;
pub mod thumbnail;
pub mod types;

pub use analyzer::{
    analyze_image, analyze_images, detect_format, estimate_compressed_size, image_precheck, is_valid_image,
    thumbnail_data_uri, Analysis, ImageFacts, ImageFormat, PathKind,
};
pub use commands::{
    analysis_settings, default_config_for, directory_plan, finish_analysis, get_default_config,
    get_default_output_folder, get_system_info, output_folder_in, check_path_exists,
    recommended_thread_count, estimate_savings,
};
pub use discovery::{
    analysis_targets, collect_image_files, validate_path, validate_paths, SourceListing,
    SourceScan, WalkEntry,
};
pub use orchestrator::{
    folder_run_start, tally_folder_run, CompressionRun, FolderFileOutcome, Job,
};
pub use output::{
    codec_output_path, find_common_parent, folder_output_path, get_output_path,
    get_unique_filename,
};
pub use paths::has_valid_extension;
pub use thumbnail::generate_thumbnail;
pub use types::{
    AppDirectories, CompressResult, CompressionConfig, ImageError, ImageInfo, PathInfo,
    PathValidation, ProgressUpdate, SavingsEstimate, SystemInfo,
};
