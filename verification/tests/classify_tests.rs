use image_selector::is_supported_image;
use image_selector::normalize_ext;
use image_selector::extension_of;
use image_selector::str_le;
use image_selector::join_path;
use image_selector::format_label;

#[test]
fn supported_extensions_lower_case() {
    for ext in ["jpg", "jpeg", "png", "bmp", "gif", "webp", "tiff", "tif"] {
        assert!(is_supported_image(ext));
    }
}

#[test]
fn supported_extensions_any_case() {
    for ext in ["JPG", "Jpeg", "PNG", "BmP", "GIF", "WebP", "TIFF", "TiF"] {
        assert!(is_supported_image(ext));
    }
}

#[test]
fn unsupported_extensions() {
    for ext in ["txt", "", "jp", "jpgg", "pngx", "svg", "heic", "j p g"] {
        assert!(!is_supported_image(ext));
    }
}

#[test]
fn normalize_ext_lowers_supported() {
    assert_eq!(normalize_ext("TIFF").as_deref(), Some("tiff"));
    assert_eq!(normalize_ext("Png").as_deref(), Some("png"));
    assert_eq!(normalize_ext("jpg").as_deref(), Some("jpg"));
    assert_eq!(normalize_ext("Txt"), None);
}

#[test]
fn extension_of_simple() {
    assert_eq!(extension_of("photo.png"), Some("png"));
    assert_eq!(extension_of("archive.tar.gz"), Some("gz"));
    assert_eq!(extension_of("UPPER.JPG"), Some("JPG"));
}

#[test]
fn extension_of_edge_cases() {
    assert_eq!(extension_of("noext"), None);
    assert_eq!(extension_of(".hidden"), None);
    assert_eq!(extension_of(""), None);
    assert_eq!(extension_of("trailing."), Some(""));
}

#[test]
fn name_order_is_byte_wise() {
    assert!(str_le("a.jpg", "b.png"));
    assert!(!str_le("b.png", "a.jpg"));
    assert!(str_le("same", "same"));
    assert!(str_le("ab", "abc"));
    assert!(!str_le("abc", "ab"));
    assert!(str_le("A", "a"));
}

#[test]
fn non_ascii_names_handled() {
    assert_eq!(extension_of("фото.png"), Some("png"));
    assert!(is_supported_image("PNG"));
    assert!(!is_supported_image("päg"));
    // Code-point order: 'b' (98) comes before 'ä' (228).
    assert!(str_le("b.png", "ä.png"));
    assert!(!str_le("ä.png", "b.png"));
}

#[test]
fn join_path_inserts_separator() {
    assert_eq!(join_path("/photos", "a.jpg"), "/photos/a.jpg");
    assert_eq!(join_path("/photos/", "a.jpg"), "/photos/a.jpg");
    assert_eq!(join_path("", "a.jpg"), "a.jpg");
}

#[test]
fn format_labels() {
    assert_eq!(format_label("/p/x.PNG"), "Png");
    assert_eq!(format_label("/p/x.jpg"), "Jpeg");
    assert_eq!(format_label("/p/x.jpeg"), "Jpeg");
    assert_eq!(format_label("/p/x.gif"), "Gif");
    assert_eq!(format_label("/p/x.webp"), "WebP");
    assert_eq!(format_label("/p/x.tif"), "Tiff");
    assert_eq!(format_label("/p/x.bmp"), "Bmp");
    assert_eq!(format_label("/p/x.doc"), "Unknown");
    assert_eq!(format_label("noext"), "Unknown");
}

#[test]
fn format_labels_beyond_the_scanned_set() {
    assert_eq!(format_label("/p/x.avif"), "Avif");
    assert_eq!(format_label("/p/x.jfif"), "Jpeg");
    assert_eq!(format_label("/p/x.apng"), "Png");
    assert_eq!(format_label("/p/x.tga"), "Tga");
    assert_eq!(format_label("/p/x.dds"), "Dds");
    assert_eq!(format_label("/p/x.ICO"), "Ico");
    assert_eq!(format_label("/p/x.hdr"), "Hdr");
    assert_eq!(format_label("/p/x.exr"), "OpenExr");
    assert_eq!(format_label("/p/x.pbm"), "Pnm");
    assert_eq!(format_label("/p/x.pgm"), "Pnm");
    assert_eq!(format_label("/p/x.ff"), "Farbfeld");
    assert_eq!(format_label("/p/x.qoi"), "Qoi");
    assert_eq!(format_label("/p/x.pcx"), "Unknown");
}
