use imgpress::{
    folder_run_start, tally_folder_run, CompressResult, CompressionConfig, CompressionRun,
    FolderFileOutcome, ImageError,
};

fn config() -> CompressionConfig {
    CompressionConfig {
        source_paths: vec!["in".to_string()],
        output_folder: "out".to_string(),
        quality: 8000,
        size_ratio: 9000,
        thread_count: 2,
        preserve_structure: true,
    }
}

fn files(n: usize) -> Vec<String> {
    (0..n).map(|i| format!("in/f{}.png", i)).collect()
}

#[test]
fn empty_discovery_is_fatal() {
    assert_eq!(
        CompressionRun::start(&config(), Vec::new()).err(),
        Some("No valid image files found to compress".to_string())
    );
}

#[test]
fn invalid_config_is_fatal() {
    let mut c = config();
    c.quality = 20000;
    assert_eq!(
        CompressionRun::start(&c, files(2)).err(),
        Some("Quality must be between 0 and 100, got 200".to_string())
    );
}

#[test]
fn completed_run_counts_every_file() {
    let mut run = CompressionRun::start(&config(), files(3)).unwrap();
    assert_eq!(run.total(), 3);
    let mut currents = Vec::new();
    while let Some(job) = run.next_job() {
        currents.push(job.progress.current);
        assert_eq!(job.progress.total, 3);
        assert_eq!(job.progress.current_file, format!("f{}.png", job.index));
        if job.index == 1 {
            assert!(run.record_failure(job.index, "decode failed".to_string()));
        } else {
            assert!(run.record_success(job.index, 1000, 400));
        }
    }
    assert_eq!(currents, vec![1, 2, 3]);
    let r = run.finish(42);
    assert_eq!(r.total, 3);
    assert_eq!(r.successful, 2);
    assert_eq!(r.failed, 1);
    assert_eq!(r.successful + r.failed, r.total);
    assert_eq!(r.saved_bytes, 1200);
    assert_eq!(r.duration_ms, 42);
    assert_eq!(r.errors.len(), 1);
    assert_eq!(r.errors[0].path, "in/f1.png");
    assert_eq!(r.errors[0].filename, "f1.png");
    assert_eq!(r.errors[0].error, "decode failed");
}

#[test]
fn jobs_fall_in_chunks() {
    let mut run = CompressionRun::start(&config(), files(5)).unwrap();
    let mut chunks = Vec::new();
    let mut percents = Vec::new();
    while let Some(job) = run.next_job() {
        chunks.push(job.chunk);
        percents.push(job.progress.percent);
    }
    assert_eq!(chunks, vec![0, 0, 1, 1, 2]);
    assert_eq!(percents, vec![2000, 4000, 6000, 8000, 10000]);
}

#[test]
fn outcomes_are_recorded_once() {
    let mut run = CompressionRun::start(&config(), files(2)).unwrap();
    assert!(!run.record_success(0, 10, 5));
    let job = run.next_job().unwrap();
    assert!(run.record_success(job.index, 10, 50));
    assert!(!run.record_success(job.index, 10, 5));
    assert!(!run.record_failure(job.index, "again".to_string()));
    let r = run.finish(0);
    assert_eq!(r.successful, 1);
    assert_eq!(r.saved_bytes, 0);
}

#[test]
fn cancelled_run_is_partial() {
    let mut run = CompressionRun::start(&config(), files(4)).unwrap();
    let job = run.next_job().unwrap();
    run.cancel();
    assert!(run.is_cancelled());
    assert!(run.next_job().is_none());
    assert!(run.record_success(job.index, 100, 10));
    let r = run.finish(7);
    assert_eq!(r.total, 4);
    assert_eq!(r.successful + r.failed, 1);
    assert!(r.successful + r.failed < r.total);
}

#[test]
fn result_accumulates() {
    let mut r = CompressResult::new();
    assert_eq!((r.total, r.successful, r.failed, r.saved_bytes, r.duration_ms), (0, 0, 0, 0, 0));
    r.add_success(10);
    r.add_success(u64::MAX);
    assert_eq!(r.saved_bytes, u64::MAX);
    r.add_error(ImageError::new("x/y.png".to_string(), "bad".to_string()));
    assert_eq!((r.successful, r.failed, r.errors.len()), (2, 1, 1));
}

#[test]
fn folder_run_tally() {
    assert_eq!(folder_run_start(0), Err("No valid image files found in folder".to_string()));
    assert_eq!(folder_run_start(2), Ok(()));
    let names = files(3);
    let outcomes = vec![
        FolderFileOutcome { original_size: 1000, output_exists: true, compressed_size: Some(300) },
        FolderFileOutcome { original_size: 1000, output_exists: false, compressed_size: None },
        FolderFileOutcome { original_size: 500, output_exists: true, compressed_size: None },
    ];
    let r = tally_folder_run(&names, &outcomes, 9);
    assert_eq!((r.total, r.successful, r.failed, r.saved_bytes), (3, 2, 1, 700));
    assert_eq!(r.errors[0].path, "in/f1.png");
    assert_eq!(r.errors[0].error, "Output file not found after compression");
    assert_eq!(r.duration_ms, 9);
}
