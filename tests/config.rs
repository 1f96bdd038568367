use imgpress::text::{decimal_text, fixed_point_text};
use imgpress::{
    analysis_settings, check_path_exists, default_config_for, directory_plan, PathKind, finish_analysis, output_folder_in,
    recommended_thread_count, estimate_savings, CompressionConfig, ImageInfo, ProgressUpdate,
};

fn config(quality: i64, size_ratio: i64) -> CompressionConfig {
    CompressionConfig {
        source_paths: vec!["photos".to_string()],
        output_folder: "out".to_string(),
        quality,
        size_ratio,
        thread_count: 4,
        preserve_structure: false,
    }
}

#[test]
fn valid_config_passes() {
    assert_eq!(config(8500, 8000).validate(), Ok(()));
    assert_eq!(config(0, 0).validate(), Ok(()));
    assert_eq!(config(10000, 10000).validate(), Ok(()));
}

#[test]
fn quality_out_of_range_names_value() {
    assert_eq!(
        config(15050, 8000).validate(),
        Err("Quality must be between 0 and 100, got 150.5".to_string())
    );
    assert_eq!(
        config(-100, 8000).validate(),
        Err("Quality must be between 0 and 100, got -1".to_string())
    );
    assert_eq!(
        config(10001, 8000).validate(),
        Err("Quality must be between 0 and 100, got 100.01".to_string())
    );
}

#[test]
fn ratio_out_of_range_names_value() {
    assert_eq!(
        config(8500, 15000).validate(),
        Err("Size ratio must be between 0 and 1, got 1.5".to_string())
    );
    assert_eq!(
        config(8500, -5).validate(),
        Err("Size ratio must be between 0 and 1, got -0.0005".to_string())
    );
}

#[test]
fn other_config_errors() {
    let mut c = config(8500, 8000);
    c.source_paths.clear();
    assert_eq!(c.validate(), Err("No source paths provided".to_string()));
    let mut c = config(8500, 8000);
    c.output_folder = String::new();
    assert_eq!(c.validate(), Err("No output folder specified".to_string()));
    let mut c = config(8500, 8000);
    c.thread_count = 0;
    assert_eq!(c.validate(), Err("Thread count must be at least 1".to_string()));
}

#[test]
fn number_rendering() {
    assert_eq!(decimal_text(0), "0");
    assert_eq!(decimal_text(10000), "10000");
    assert_eq!(fixed_point_text(8500, 2), "85");
    assert_eq!(fixed_point_text(8000, 4), "0.8");
    assert_eq!(fixed_point_text(-5, 2), "-0.05");
    assert_eq!(fixed_point_text(12345, 2), "123.45");
}

#[test]
fn default_config_values() {
    let c = default_config_for(8);
    assert!(c.source_paths.is_empty());
    assert_eq!(c.output_folder, "");
    assert_eq!(c.quality, 8500);
    assert_eq!(c.size_ratio, 8000);
    assert_eq!(c.thread_count, 8);
    assert!(!c.preserve_structure);
    assert_eq!(default_config_for(0).thread_count, 1);
}

#[test]
fn recommended_threads_leave_one_core() {
    assert_eq!(recommended_thread_count(8), 7);
    assert_eq!(recommended_thread_count(4), 3);
    assert_eq!(recommended_thread_count(3), 2);
    assert_eq!(recommended_thread_count(2), 1);
    assert_eq!(recommended_thread_count(1), 1);
}

#[test]
fn default_output_folder_location() {
    assert_eq!(
        output_folder_in(Some("/home/ann/Documents".to_string())),
        Ok("/home/ann/Documents/CompressedImages".to_string())
    );
    assert_eq!(
        output_folder_in(None),
        Err("Could not find Documents directory".to_string())
    );
}

#[test]
fn analysis_settings_defaults_and_errors() {
    assert_eq!(analysis_settings(2, None, None), Ok((8500, 8000)));
    assert_eq!(analysis_settings(1, Some(5000), Some(2500)), Ok((5000, 2500)));
    assert_eq!(
        analysis_settings(1, Some(-1), None),
        Err("Quality must be between 0 and 100, got -0.01".to_string())
    );
    assert_eq!(
        analysis_settings(1, None, Some(10001)),
        Err("Size ratio must be between 0 and 1, got 1.0001".to_string())
    );
    assert_eq!(
        analysis_settings(0, None, None),
        Err("No paths provided for analysis".to_string())
    );
}

fn info(original_size: u64, estimated_size: u64) -> ImageInfo {
    ImageInfo {
        path: "a.png".to_string(),
        filename: "a.png".to_string(),
        original_size,
        estimated_size,
        format: "PNG".to_string(),
        width: 10,
        height: 10,
        thumbnail: None,
    }
}

#[test]
fn savings_totals() {
    let s = estimate_savings(&vec![info(1000, 400), info(3000, 600)]);
    assert_eq!(s.total_original, 4000);
    assert_eq!(s.total_estimated, 1000);
    assert_eq!(s.estimated_savings, 3000);
    assert_eq!(s.savings_percentage, 7500);
    assert_eq!(s.file_count, 2);
    let empty = estimate_savings(&Vec::new());
    assert_eq!(empty.total_original, 0);
    assert_eq!(empty.estimated_savings, 0);
    assert_eq!(empty.savings_percentage, 0);
    assert_eq!(empty.file_count, 0);
}

#[test]
fn analysis_with_no_images_fails() {
    assert_eq!(
        finish_analysis(Vec::new()).err(),
        Some("No valid images found in the provided paths".to_string())
    );
    assert_eq!(finish_analysis(vec![info(5, 5)]).unwrap().len(), 1);
}

#[test]
fn progress_percent() {
    let p = ProgressUpdate::new(1, 4, "a.png".to_string());
    assert_eq!(p.current, 1);
    assert_eq!(p.total, 4);
    assert_eq!(p.current_file, "a.png");
    assert_eq!(p.percent, 2500);
    assert_eq!(ProgressUpdate::new(0, 0, String::new()).percent, 0);
    assert_eq!(ProgressUpdate::new(1, 3, String::new()).percent, 3333);
}

#[test]
fn path_reports_and_directory_plans() {
    let p = check_path_exists("x".to_string(), PathKind::Directory);
    assert!(p.exists && p.is_directory && !p.is_file);
    let m = check_path_exists("y".to_string(), PathKind::Missing);
    assert!(!m.exists && !m.is_file && !m.is_directory);
    assert_eq!(directory_plan("new", PathKind::Missing), Ok(true));
    assert_eq!(directory_plan("there", PathKind::Directory), Ok(false));
    assert_eq!(
        directory_plan("f.txt", PathKind::File),
        Err("Path 'f.txt' exists but is not a directory".to_string())
    );
}
