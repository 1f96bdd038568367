use imgpress::{
    analyze_image, analyze_images, detect_format, Analysis, estimate_compressed_size, thumbnail_data_uri, ImageFacts,
    ImageFormat, PathKind,
};

#[test]
fn png_example_estimate() {
    assert_eq!(estimate_compressed_size(1_000_000, ImageFormat::Png, 8500, 8000), 259_200);
}

#[test]
fn estimate_per_format() {
    assert_eq!(estimate_compressed_size(1_000_000, ImageFormat::Bmp, 10000, 10000), 135_000);
    assert_eq!(estimate_compressed_size(1_000_000, ImageFormat::Tiff, 10000, 10000), 135_000);
    assert_eq!(estimate_compressed_size(1_000_000, ImageFormat::Gif, 0, 10000), 150_000);
    assert_eq!(estimate_compressed_size(1_000_000, ImageFormat::Jpeg, 10000, 10000), 720_000);
    assert_eq!(estimate_compressed_size(1_000_000, ImageFormat::Webp, 10000, 10000), 765_000);
    assert_eq!(estimate_compressed_size(1_000_000, ImageFormat::Unknown, 10000, 10000), 450_000);
    assert_eq!(estimate_compressed_size(1_000_000, ImageFormat::Ico, 10000, 10000), 450_000);
}

#[test]
fn estimate_is_clamped() {
    assert_eq!(estimate_compressed_size(500, ImageFormat::Png, 8500, 8000), 500);
    assert_eq!(estimate_compressed_size(5000, ImageFormat::Bmp, 0, 0), 1024);
    assert_eq!(estimate_compressed_size(0, ImageFormat::Png, 8500, 8000), 0);
    assert_eq!(estimate_compressed_size(u64::MAX, ImageFormat::Webp, 10000, 10000) <= u64::MAX, true);
}

#[test]
fn estimate_grows_with_quality_and_ratio() {
    let mut last = 0;
    for q in [0i64, 2500, 5000, 7500, 10000] {
        let e = estimate_compressed_size(2_000_000, ImageFormat::Jpeg, q, 5000);
        assert!(e >= last);
        assert!(e <= 2_000_000 && e >= 1024);
        last = e;
    }
    let mut last = 0;
    for r in [0i64, 1, 1000, 5000, 10000] {
        let e = estimate_compressed_size(2_000_000, ImageFormat::Png, 5000, r);
        assert!(e >= last);
        last = e;
    }
}

#[test]
fn format_from_extension() {
    assert_eq!(detect_format("a/b.JPG"), ImageFormat::Jpeg);
    assert_eq!(detect_format("b.jpeg"), ImageFormat::Jpeg);
    assert_eq!(detect_format("b.Png"), ImageFormat::Png);
    assert_eq!(detect_format("b.tif"), ImageFormat::Tiff);
    assert_eq!(detect_format("b.ico"), ImageFormat::Ico);
    assert_eq!(detect_format("b.txt"), ImageFormat::Unknown);
    assert_eq!(detect_format("noext"), ImageFormat::Unknown);
    assert_eq!(ImageFormat::Webp.name(), "WEBP");
    assert_eq!(ImageFormat::Unknown.name(), "UNKNOWN");
}

#[test]
fn image_description() {
    let facts = ImageFacts { original_size: 1_000_000, width: 640, height: 480, thumbnail: None };
    let i = analyze_image("pics/cat.png".to_string(), PathKind::File, &Ok(()), Ok(facts), 8500, 8000).unwrap();
    assert_eq!(i.path, "pics/cat.png");
    assert_eq!(i.filename, "cat.png");
    assert_eq!(i.format, "PNG");
    assert_eq!(i.estimated_size, 259_200);
    assert_eq!((i.width, i.height), (640, 480));
    assert!(i.thumbnail.is_none());
}

#[test]
fn thumbnail_uri_encodes_bytes() {
    assert_eq!(thumbnail_data_uri(b"hi"), "data:image/png;base64,aGk=");
    assert_eq!(thumbnail_data_uri(b""), "data:image/png;base64,");
}

#[test]
fn analysis_keeps_readable_images_in_order() {
    let facts = |size: u64| ImageFacts { original_size: size, width: 1, height: 2, thumbnail: Some("t".to_string()) };
    let analyses = vec![
        Analysis { path: "a.bmp".to_string(), kind: PathKind::File, decoded: Ok(()), facts: Ok(facts(10_000)) },
        Analysis { path: "broken.png".to_string(), kind: PathKind::File, decoded: Err("bad".to_string()), facts: Ok(facts(5)) },
        Analysis { path: "gone.gif".to_string(), kind: PathKind::Missing, decoded: Ok(()), facts: Ok(facts(5)) },
        Analysis { path: "e.png".to_string(), kind: PathKind::File, decoded: Ok(()), facts: Err("unreadable".to_string()) },
        Analysis { path: "d/c.webp".to_string(), kind: PathKind::File, decoded: Ok(()), facts: Ok(facts(100)) },
    ];
    let r = analyze_images(analyses, 10000, 10000);
    assert_eq!(r.len(), 2);
    assert_eq!((r[0].path.as_str(), r[0].format.as_str(), r[0].estimated_size), ("a.bmp", "BMP", 1350));
    assert_eq!((r[1].filename.as_str(), r[1].format.as_str(), r[1].estimated_size), ("c.webp", "WEBP", 100));
    assert_eq!(r[1].thumbnail, Some("t".to_string()));
}

#[test]
fn image_analysis_reports_first_error() {
    let facts = ImageFacts { original_size: 10, width: 1, height: 1, thumbnail: None };
    assert_eq!(
        analyze_image("x.png".to_string(), PathKind::Missing, &Ok(()), Ok(facts.clone()), 8500, 8000).err(),
        Some("File does not exist: x.png".to_string())
    );
    assert_eq!(
        analyze_image("x.png".to_string(), PathKind::File, &Err("eof".to_string()), Ok(facts), 8500, 8000).err(),
        Some("Invalid or corrupted image file: eof".to_string())
    );
    assert_eq!(
        analyze_image("x.png".to_string(), PathKind::File, &Ok(()), Err("Failed to open image: io".to_string()), 8500, 8000).err(),
        Some("Failed to open image: io".to_string())
    );
}
