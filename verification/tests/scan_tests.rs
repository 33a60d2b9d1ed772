use image_selector::build_record;
use image_selector::build_records;
use image_selector::sort_records;
use image_selector::FileAttrs;
use image_selector::FileManager;
use image_selector::FsEntry;
use image_selector::ScanError;
use image_selector::ScanResult;

fn entry(path: &str, name: &str, is_dir: bool, attrs: Option<(u64, u64)>) -> FsEntry {
    FsEntry {
        path: path.to_string(),
        name: name.to_string(),
        is_dir,
        attrs: attrs.map(|(size, modified)| FileAttrs { size, modified }),
    }
}

#[test]
fn build_record_copies_fields() {
    let e = entry("/photos/Cat.JPG", "Cat.JPG", false, Some((123, 456)));
    let f = build_record(&e).expect("a supported image must yield a record");
    assert_eq!(f.name, "Cat.JPG");
    assert_eq!(f.path, "/photos/Cat.JPG");
    assert_eq!(f.size, 123);
    assert_eq!(f.modified, 456);
    assert_eq!(f.extension, "jpg");
    assert_eq!(f.id.len(), 36);
}

#[test]
fn build_record_skips_directories() {
    let e = entry("/photos/album.png", "album.png", true, Some((0, 0)));
    assert!(build_record(&e).is_none());
}

#[test]
fn build_record_skips_unreadable_attrs() {
    let e = entry("/photos/a.png", "a.png", false, None);
    assert!(build_record(&e).is_none());
}

#[test]
fn build_record_skips_unsupported() {
    assert!(build_record(&entry("/p/notes.txt", "notes.txt", false, Some((1, 1)))).is_none());
    assert!(build_record(&entry("/p/noext", "noext", false, Some((1, 1)))).is_none());
    assert!(build_record(&entry("/p/.hidden", ".hidden", false, Some((1, 1)))).is_none());
}

#[test]
fn fresh_identifiers_differ_between_records() {
    let e = entry("/p/a.png", "a.png", false, Some((1, 1)));
    let a = build_record(&e).unwrap();
    let b = build_record(&e).unwrap();
    assert_ne!(a.id, b.id);
}

#[test]
fn build_records_keeps_only_supported() {
    let entries = vec![
        entry("/p/a.gif", "a.gif", false, Some((1, 10))),
        entry("/p/readme.md", "readme.md", false, Some((2, 20))),
        entry("/p/sub", "sub", true, Some((3, 30))),
        entry("/p/b.TIF", "b.TIF", false, Some((4, 40))),
        entry("/p/c.webp", "c.webp", false, None),
    ];
    let r = build_records(&entries);
    assert_eq!(r.len(), 2);
    assert_eq!(r[0].name, "a.gif");
    assert_eq!(r[0].extension, "gif");
    assert_eq!(r[1].name, "b.TIF");
    assert_eq!(r[1].extension, "tif");
}

#[test]
fn sort_records_orders_by_name() {
    let entries = vec![
        entry("/p/c.png", "c.png", false, Some((1, 1))),
        entry("/p/a.png", "a.png", false, Some((2, 2))),
        entry("/p/b.png", "b.png", false, Some((3, 3))),
    ];
    let mut records = build_records(&entries);
    sort_records(&mut records);
    let names: Vec<&str> = records.iter().map(|f| f.name.as_str()).collect();
    assert_eq!(names, ["a.png", "b.png", "c.png"]);
}

#[test]
fn scan_folder_missing_root() {
    let r = FileManager::scan_folder(false, false, &Vec::new());
    assert_eq!(r.err(), Some(ScanError::NotFound));
}

#[test]
fn scan_folder_sorted_and_filtered() {
    // Root /photos holding b.png (10 bytes), a.jpg (5 bytes) and notes.txt:
    // exactly the two images come back, sorted by name.
    let entries = vec![
        entry("/photos", "photos", true, Some((0, 0))),
        entry("/photos/b.png", "b.png", false, Some((10, 1000))),
        entry("/photos/a.jpg", "a.jpg", false, Some((5, 2000))),
        entry("/photos/notes.txt", "notes.txt", false, Some((7, 3000))),
    ];
    let images = FileManager::scan_folder(true, true, &entries).expect("an existing root must scan");
    assert_eq!(images.len(), 2);
    assert_eq!(images[0].name, "a.jpg");
    assert_eq!(images[0].size, 5);
    assert_eq!(images[0].path, "/photos/a.jpg");
    assert_eq!(images[0].extension, "jpg");
    assert_eq!(images[1].name, "b.png");
    assert_eq!(images[1].size, 10);
    let result = ScanResult::new(images, 12);
    assert_eq!(result.total_count, 2);
    assert_eq!(result.scan_time_ms, 12);
}

#[test]
fn scan_count_ignores_unsupported() {
    // Three supported images among four other entries: exactly three records.
    let entries = vec![
        entry("/p/one.jpg", "one.jpg", false, Some((1, 1))),
        entry("/p/x.doc", "x.doc", false, Some((1, 1))),
        entry("/p/two.bmp", "two.bmp", false, Some((1, 1))),
        entry("/p/y", "y", false, Some((1, 1))),
        entry("/p/z.mp4", "z.mp4", false, Some((1, 1))),
        entry("/p/three.tiff", "three.tiff", false, Some((1, 1))),
        entry("/p/w.md", "w.md", false, Some((1, 1))),
    ];
    let images = FileManager::scan_folder(true, true, &entries).unwrap();
    assert_eq!(images.len(), 3);
}

#[test]
fn scan_keeps_duplicate_names_from_different_directories() {
    let entries = vec![
        entry("/p/sub/a.png", "a.png", false, Some((2, 2))),
        entry("/p/a.png", "a.png", false, Some((1, 1))),
    ];
    let images = FileManager::scan_folder(true, true, &entries).unwrap();
    assert_eq!(images.len(), 2);
    assert_eq!(images[0].name, "a.png");
    assert_eq!(images[1].name, "a.png");
    let mut paths: Vec<&str> = images.iter().map(|f| f.path.as_str()).collect();
    paths.sort();
    assert_eq!(paths, ["/p/a.png", "/p/sub/a.png"]);
}

#[test]
fn scan_of_non_directory_root_is_empty() {
    // A root that exists but is a file yields an empty result, not an
    // error, even when the file itself is a supported image.
    let entries = vec![entry("/r/a.jpg", "a.jpg", false, Some((5, 1)))];
    let images = FileManager::scan_folder(true, false, &entries).expect("an existing root scans");
    assert!(images.is_empty());
}

#[test]
fn scan_folder_empty_listing() {
    let images = FileManager::scan_folder(true, true, &Vec::new()).unwrap();
    assert_eq!(images.len(), 0);
}
