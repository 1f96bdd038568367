use base64::Engine;
use imgpress::generate_thumbnail;

#[test]
fn thumbnail_is_a_small_png_uri() {
    let img = image::DynamicImage::new_rgb8(200, 100);
    let uri = generate_thumbnail(&img).unwrap();
    let prefix = "data:image/png;base64,";
    assert!(uri.starts_with(prefix));
    let png = base64::engine::general_purpose::STANDARD
        .decode(&uri[prefix.len()..])
        .unwrap();
    assert_eq!(&png[..4], b"\x89PNG");
    let back = image::load_from_memory(&png).unwrap();
    assert_eq!((back.width(), back.height()), (64, 32));
}
