use fwaifu::cache::{count_jpg_files, filename_from, files_to_remove, list_jpg_files, CacheError, CacheManager, FileEntry};
use fwaifu::paths::{is_jpg, join_path, path_file_name};

fn entry(name: &str, is_file: bool, modified: i128) -> FileEntry {
    FileEntry { name: name.to_string(), is_file, modified }
}

#[test]
fn directories() {
    let c = CacheManager::new("/home/u/.cache/fwaifu".to_string());
    assert_eq!(c.stock_dir(false), "/home/u/.cache/fwaifu/sfw");
    assert_eq!(c.stock_dir(true), "/home/u/.cache/fwaifu/nsfw");
    assert_eq!(c.used_dir(false), "/home/u/.cache/fwaifu/used/sfw");
    assert_eq!(c.used_dir(true), "/home/u/.cache/fwaifu/used/nsfw");
    let c = CacheManager::new("/tmp/".to_string());
    assert_eq!(c.stock_dir(true), "/tmp/nsfw");
}

#[test]
fn jpg_detection_like_path_extension() {
    for n in ["a.jpg", "a.JPG", "a.Jpg", ".jpg", "a.jpeg", "a.jpg.png", "ajpg", "x.y.jpg", "a.", "..jpg"] {
        let expect = std::path::Path::new(n).extension().and_then(|e| e.to_str()).is_some_and(|e| e.eq_ignore_ascii_case("jpg"));
        assert_eq!(is_jpg(n), expect, "{n}");
    }
}

#[test]
fn join_and_file_name_like_std_path() {
    for (b, p) in [("/a", "b"), ("/a/", "b"), ("", "b"), ("a", "/abs"), ("/", "x")] {
        let expect = std::path::Path::new(b).join(p).to_string_lossy().into_owned();
        assert_eq!(join_path(b, p), expect);
    }
    for p in ["/a/b.jpg", "/a/b/", "b", "/", "", ".", "..", "a/..", "a/.", "./x", "a//b", "/."] {
        let expect = std::path::Path::new(p).file_name().map(|n| n.to_string_lossy().into_owned());
        assert_eq!(path_file_name(p), expect, "{p:?}");
    }
}

#[test]
fn listing_counts_only_jpg_files() {
    let es = vec![entry("a.jpg", true, 1), entry("b.png", true, 2), entry("c.JPG", true, 3), entry("d.jpg", false, 4)];
    assert_eq!(count_jpg_files(&es), 2);
    assert_eq!(list_jpg_files("/s", &es), vec!["/s/a.jpg".to_string(), "/s/c.JPG".to_string()]);
    let c = CacheManager::new("/c".to_string());
    assert_eq!(c.stock_count(false, &es), 2);
}

#[test]
fn select_from_stock() {
    let c = CacheManager::new("/c".to_string());
    let es = vec![entry("x.png", true, 0), entry("a.jpg", true, 1), entry("b.jpg", true, 2)];
    assert_eq!(c.select_at(false, &es, 1).as_deref(), Some("/c/sfw/b.jpg"));
    assert_eq!(c.select_at(false, &es, 2), None);
    for _ in 0..20 {
        let p = c.select_random(true, &es).unwrap();
        assert!(p == "/c/nsfw/a.jpg" || p == "/c/nsfw/b.jpg");
    }
    assert_eq!(c.select_random(false, &vec![entry("x.png", true, 0)]), None);
}

#[test]
fn move_keeps_name() {
    let c = CacheManager::new("/c".to_string());
    assert_eq!(c.move_to_used("/c/sfw/a.jpg", false), Ok("/c/used/sfw/a.jpg".to_string()));
    assert_eq!(c.move_to_used("/c/nsfw/b.jpg", true), Ok("/c/used/nsfw/b.jpg".to_string()));
    assert_eq!(c.move_to_used("/", true), Err(CacheError::NoFileName));
}

#[test]
fn cleanup_removes_oldest_surplus() {
    let es = vec![entry("a.jpg", true, 30), entry("b.jpg", true, 10), entry("n.txt", true, 0), entry("c.jpg", true, 20), entry("d.jpg", true, 10)];
    let mut r = files_to_remove("/u", &es, 2);
    r.sort();
    assert_eq!(r, vec!["/u/b.jpg".to_string(), "/u/d.jpg".to_string()]);
    assert_eq!(files_to_remove("/u", &es, 4), Vec::<String>::new());
    assert_eq!(files_to_remove("/u", &es, 0).len(), 4);
    let c = CacheManager::new("/c".to_string());
    assert_eq!(c.cleanup_used(true, &es, 3), vec!["/c/used/nsfw/b.jpg".to_string()]);
    assert_eq!(c.cleanup_excess_stock(false, &es, 3), vec!["/c/sfw/b.jpg".to_string()]);
}

#[test]
fn cleanup_ties_go_by_listing_order() {
    let es = vec![entry("x.jpg", true, 5), entry("y.jpg", true, 5), entry("z.jpg", true, 5)];
    assert_eq!(files_to_remove("/d", &es, 1), vec!["/d/x.jpg".to_string(), "/d/y.jpg".to_string()]);
}

#[test]
fn generated_names() {
    assert_eq!(filename_from(false, 1700000000123456789, 0xbeef), "waifu_1700000000123456789_beef.jpg");
    assert_eq!(filename_from(true, 0, 0), "waifu_nsfw_0_0.jpg");
    let c = CacheManager::new("/c".to_string());
    let n = c.generate_filename(true);
    assert!(n.starts_with("waifu_nsfw_") && n.ends_with(".jpg"));
    assert!(is_jpg(&n));
}

#[test]
fn last_displayed_is_newest_used_image() {
    let c = CacheManager::new("/c".to_string());
    let sfw = vec![entry("a.jpg", true, 5), entry("b.jpg", true, 9), entry("z.txt", true, 99)];
    let nsfw = vec![entry("n.jpg", true, 7)];
    assert_eq!(c.find_last_displayed(&sfw, &nsfw), Some(("/c/used/sfw/b.jpg".to_string(), false)));
    let nsfw = vec![entry("n.jpg", true, 12)];
    assert_eq!(c.find_last_displayed(&sfw, &nsfw), Some(("/c/used/nsfw/n.jpg".to_string(), true)));
    let nsfw = vec![entry("n.jpg", true, 9)];
    assert_eq!(c.find_last_displayed(&sfw, &nsfw), Some(("/c/used/sfw/b.jpg".to_string(), false)));
    assert_eq!(c.find_last_displayed(&vec![], &nsfw), Some(("/c/used/nsfw/n.jpg".to_string(), true)));
    assert_eq!(c.find_last_displayed(&vec![], &vec![entry("x.png", true, 1)]), None);
}

#[test]
fn clean_all_lists_stock_and_used_images() {
    let c = CacheManager::new("/c".to_string());
    let stock = vec![entry("a.jpg", true, 1), entry("b.png", true, 1)];
    let used = vec![entry("u.JPG", true, 1)];
    assert_eq!(c.clean_all(true, &stock, &used), vec!["/c/nsfw/a.jpg".to_string(), "/c/used/nsfw/u.JPG".to_string()]);
}

#[test]
fn second_trim_deletes_nothing() {
    let es = vec![
        entry("a.jpg", true, 30),
        entry("b.jpg", true, 10),
        entry("notes.txt", true, 1),
        entry("c.jpg", true, 20),
        entry("d.JPG", true, 40),
    ];
    let removed = files_to_remove("/s", &es, 2);
    assert_eq!(removed.len(), 2);
    let left: Vec<FileEntry> = es
        .iter()
        .filter(|e| !removed.contains(&join_path("/s", &e.name)))
        .map(|e| entry(&e.name, e.is_file, e.modified))
        .collect();
    assert_eq!(count_jpg_files(&left), 2);
    assert!(files_to_remove("/s", &left, 2).is_empty());
    assert!(files_to_remove("/s", &es, 4).is_empty());
}
