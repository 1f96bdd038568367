use imgpress::{
    codec_output_path, collect_image_files, find_common_parent, folder_output_path,
    get_output_path, get_unique_filename, has_valid_extension, is_valid_image, validate_paths,
    ImageError, PathKind, PathValidation, SourceListing, SourceScan, WalkEntry,
};

fn entry(path: &str, is_file: bool) -> WalkEntry {
    WalkEntry { path: path.to_string(), is_file }
}

fn dir(path: &str, entries: Vec<WalkEntry>) -> SourceScan {
    SourceScan { path: path.to_string(), listing: SourceListing::Directory(entries) }
}

fn file(path: &str) -> SourceScan {
    SourceScan { path: path.to_string(), listing: SourceListing::File }
}

#[test]
fn extensions_are_checked_without_case() {
    assert!(has_valid_extension("a/B.JPG"));
    assert!(has_valid_extension("x.webp"));
    assert!(has_valid_extension("x.TIF"));
    assert!(!has_valid_extension("a/b.txt"));
    assert!(!has_valid_extension("a/.png"));
    assert!(!has_valid_extension("noext"));
    assert!(!has_valid_extension("dir/"));
}

#[test]
fn discovery_keeps_only_images_at_any_depth() {
    let scans = vec![dir(
        "photos",
        vec![
            entry("photos", false),
            entry("photos/a.jpg", true),
            entry("photos/notes.txt", true),
            entry("photos/deep", false),
            entry("photos/deep/b.PNG", true),
            entry("photos/deep/deeper/c.gif", true),
            entry("photos/deep/readme", true),
        ],
    )];
    assert_eq!(
        collect_image_files(&scans),
        vec!["photos/a.jpg", "photos/deep/b.PNG", "photos/deep/deeper/c.gif"]
    );
}

#[test]
fn discovery_skips_missing_and_keeps_order() {
    let scans = vec![
        file("one.bmp"),
        SourceScan { path: "gone.png".to_string(), listing: SourceListing::Missing },
        file("doc.pdf"),
        dir("d", vec![entry("d/z.ico", true)]),
    ];
    assert_eq!(collect_image_files(&scans), vec!["one.bmp", "d/z.ico"]);
}

#[test]
fn common_parent_is_first_directory_above() {
    let sources = vec![file("in/x.png"), dir("in", vec![]), dir("in/sub", vec![])];
    assert_eq!(find_common_parent("in/sub/x.png", &sources), Some("in".to_string()));
    assert_eq!(find_common_parent("input/x.png", &sources), None);
    assert_eq!(find_common_parent("other/x.png", &sources), None);
}

#[test]
fn output_path_mirrors_or_flattens() {
    let sources = vec![dir("in", vec![])];
    let free = |_: &String| false;
    assert_eq!(get_output_path("in/sub/x.png", "out", true, &sources, &free), Ok("out/sub/x.jpg".to_string()));
    assert_eq!(get_output_path("in/sub/x.png", "out", false, &sources, &free), Ok("out/x.jpg".to_string()));
    assert_eq!(get_output_path("else/y.bmp", "out/", true, &sources, &free), Ok("out/y.jpg".to_string()));
    assert_eq!(get_output_path("else/..", "out", false, &sources, &free), Err("Invalid input filename".to_string()));
}

#[test]
fn taken_paths_get_numbers() {
    let taken = vec!["out/a.jpg".to_string(), "out/a_1.jpg".to_string()];
    let probe = |p: &String| taken.contains(p);
    assert_eq!(get_unique_filename("out/a.jpg".to_string(), &probe), "out/a_2.jpg");
    assert_eq!(get_unique_filename("out/b.jpg".to_string(), &probe), "out/b.jpg");
}

#[test]
fn two_colliding_outputs_differ() {
    let sources = vec![dir("in", vec![])];
    let mut taken: Vec<String> = Vec::new();
    let first = get_output_path("in/a/x.png", "out", false, &sources, &|p: &String| taken.contains(p)).unwrap();
    taken.push(first.clone());
    let second = get_output_path("in/b/x.png", "out", false, &sources, &|p: &String| taken.contains(p)).unwrap();
    assert_eq!(first, "out/x.jpg");
    assert_eq!(second, "out/x_1.jpg");
}

#[test]
fn exhausted_numbers_fall_back_to_token() {
    let numbered_taken = |p: &String| !p.contains('-');
    let r = get_unique_filename("out/a.jpg".to_string(), &numbered_taken);
    assert!(r.starts_with("out/a_"));
    assert!(r.ends_with(".jpg"));
    let token = &r["out/a_".len()..r.len() - ".jpg".len()];
    assert_eq!(token.len(), 36);
    assert!(token.chars().all(|c| c.is_ascii_digit() || ('a'..='f').contains(&c) || c == '-'));
}

#[test]
fn all_taken_still_gives_a_token_path() {
    let r = get_unique_filename("out/a.jpg".to_string(), &|_: &String| true);
    assert!(r.starts_with("out/a_") && r.ends_with(".jpg"));
    assert_eq!(r.len(), "out/a_".len() + 36 + ".jpg".len());
    let sources = vec![dir("in", vec![])];
    let p = get_output_path("in/a.png", "out", false, &sources, &|_: &String| true).unwrap();
    assert!(p.starts_with("out/a_") && p.ends_with(".jpg"));
}

#[test]
fn doubled_separator_stays_inside_output() {
    let sources = vec![dir("/src", vec![])];
    let free = |_: &String| false;
    assert_eq!(get_output_path("/src//a.png", "out", true, &sources, &free), Ok("out/a.jpg".to_string()));
    assert_eq!(get_output_path("/src///x/b.gif", "out", true, &sources, &free), Ok("out/x/b.jpg".to_string()));
}

#[test]
fn codec_and_folder_outputs() {
    assert_eq!(codec_output_path("in/a.b.png", "out/a.b.jpg"), Some("out/a.jpg".to_string()));
    assert_eq!(codec_output_path("in/cat.png", "out/cat_1.jpg"), Some("out/cat.jpg".to_string()));
    assert_eq!(codec_output_path("in/..", "out/x.jpg"), None);
    assert_eq!(folder_output_path("in/sub/a.png", "in", "out"), "out/sub/a.jpg");
    assert_eq!(folder_output_path("elsewhere/a.png", "in", "out"), "out/elsewhere/a.jpg");
}

#[test]
fn image_checks_report_reasons() {
    assert_eq!(is_valid_image("a.png", PathKind::File, &Ok(())), Ok(()));
    assert_eq!(is_valid_image("a.png", PathKind::Missing, &Ok(())), Err("File does not exist: a.png".to_string()));
    assert_eq!(is_valid_image("d", PathKind::Directory, &Ok(())), Err("Path is not a file: d".to_string()));
    assert_eq!(
        is_valid_image("a.txt", PathKind::File, &Ok(())),
        Err("Unsupported file extension. Supported formats: jpg, jpeg, png, bmp, gif, webp, tiff, tif, ico".to_string())
    );
    assert_eq!(
        is_valid_image("a.png", PathKind::File, &Err("bad header".to_string())),
        Err("Invalid or corrupted image file: bad header".to_string())
    );
}

#[test]
fn path_validation_reports() {
    let scans = vec![
        SourceScan { path: "gone".to_string(), listing: SourceListing::Missing },
        dir("empty", vec![entry("empty/a.txt", true)]),
        dir("full", vec![entry("full/a.jpg", true)]),
        file("b.png"),
        file("c.png"),
    ];
    let decoded = vec![
        vec![Ok(())],
        vec![Ok(())],
        vec![Ok(())],
        vec![Ok(())],
        vec![Err("truncated".to_string())],
        vec![Ok(()), Err("bad".to_string())],
    ];
    let mut scans = scans;
    scans.push(dir("broken", vec![entry("broken/notes.txt", true), entry("broken/a.png", true)]));
    let r = validate_paths(&scans, &decoded);
    assert_eq!(r.len(), 6);
    assert_eq!(r[5].error, Some("Directory contains no valid image files".to_string()));
    assert_eq!((r[0].is_valid, r[0].error.clone()), (false, Some("Path does not exist".to_string())));
    assert_eq!(r[1].error, Some("Directory contains no valid image files".to_string()));
    assert!(r[2].is_valid && r[2].error.is_none());
    assert!(r[3].is_valid);
    assert_eq!(r[4].error, Some("Invalid or corrupted image file: truncated".to_string()));
    assert_eq!(r[4].path, "c.png");
}

#[test]
fn constructors_keep_fields() {
    let v = PathValidation::valid("p".to_string());
    assert!(v.is_valid && v.error.is_none() && v.path == "p");
    let i = PathValidation::invalid("q".to_string(), "why".to_string());
    assert!(!i.is_valid);
    assert_eq!(i.error, Some("why".to_string()));
    let e = ImageError::new("dir/pic.png".to_string(), "boom".to_string());
    assert_eq!((e.filename.as_str(), e.error.as_str()), ("pic.png", "boom"));
    assert_eq!(ImageError::new("dir/..".to_string(), "x".to_string()).filename, "unknown");
}

#[test]
fn three_images_and_two_others_give_three() {
    let scans = vec![dir(
        "/d",
        vec![
            entry("/d", false),
            entry("/d/a.png", true),
            entry("/d/notes.txt", true),
            entry("/d/x", false),
            entry("/d/x/b.JPG", true),
            entry("/d/x/y", false),
            entry("/d/x/y/c.gif", true),
            entry("/d/x/y/z", false),
            entry("/d/x/y/z/doc.pdf", true),
        ],
    )];
    assert_eq!(collect_image_files(&scans), vec!["/d/a.png", "/d/x/b.JPG", "/d/x/y/c.gif"]);
}

#[test]
fn trailing_separators_do_not_hide_the_name() {
    assert!(has_valid_extension("photos/a.png/"));
    assert!(has_valid_extension("photos/a.PNG/."));
    assert_eq!(ImageError::new("a/b/".to_string(), "x".to_string()).filename, "b");
    assert_eq!(ImageError::new("a/.".to_string(), "x".to_string()).filename, "a");
    assert_eq!(ImageError::new("/".to_string(), "x".to_string()).filename, "unknown");
    assert_eq!(ImageError::new("".to_string(), "x".to_string()).filename, "unknown");
    assert_eq!(folder_output_path("in/a.png/", "in", "out"), "out/a.jpg");
    let free = |_: &String| false;
    assert_eq!(get_output_path("x/pic.bmp/", "out", false, &Vec::new(), &free), Ok("out/pic.jpg".to_string()));
    assert_eq!(
        get_output_path("in/.", "out", true, &vec![dir("in", vec![])], &free),
        Err("Invalid input filename".to_string())
    );
}
