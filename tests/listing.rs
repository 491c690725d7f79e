use captioner::listing::{
    count_images, extension, get_directory_contents, is_image_name, precedes, sort_entries,
    FileInfo,
};

fn entry(name: &str, is_dir: bool) -> FileInfo {
    FileInfo { path: format!("/pics/{}", name), name: name.to_string(), is_dir, size: 7 }
}

#[test]
fn extension_follows_last_dot() {
    assert_eq!(extension("photo.tar.png"), Some("png".to_string()));
    assert_eq!(extension("photo."), Some(String::new()));
    assert_eq!(extension("photo"), None);
    assert_eq!(extension(".hidden"), None);
    assert_eq!(extension(".."), None);
    assert_eq!(extension(".a.jpg"), Some("jpg".to_string()));
}

#[test]
fn image_names_by_case_folded_extension() {
    assert!(is_image_name("a.jpg"));
    assert!(is_image_name("a.JPEG"));
    assert!(is_image_name("a.Png"));
    assert!(!is_image_name("a.gif"));
    assert!(!is_image_name("png"));
    assert!(!is_image_name(".png"));
    assert!(!is_image_name("a.png.txt"));
}

#[test]
fn code_point_order() {
    assert!(precedes("a", "b"));
    assert!(precedes("ab", "abc"));
    assert!(!precedes("abc", "ab"));
    assert!(!precedes("abc", "abc"));
    assert!(precedes("", "a"));
    assert!(!precedes("", ""));
    assert!(precedes("z", "é"));
}

#[test]
fn directories_first_then_case_folded_names() {
    let files = vec![
        entry("b.png", false),
        entry("Zoo", true),
        entry("A.jpg", false),
        entry("apple", true),
        entry("c.txt", false),
    ];
    let sorted = sort_entries(files);
    let names: Vec<&str> = sorted.iter().map(|f| f.name.as_str()).collect();
    assert_eq!(names, vec!["apple", "Zoo", "A.jpg", "b.png", "c.txt"]);
}

#[test]
fn sorting_empty_listing() {
    assert!(sort_entries(Vec::new()).is_empty());
}

#[test]
fn counts_only_image_files() {
    let files = vec![
        entry("a.JPG", false),
        entry("b.jpeg", false),
        entry("c.png", false),
        entry("d.gif", false),
        entry("e.png", true),
        entry("notes", false),
    ];
    assert_eq!(count_images(&files), 3);
}

#[test]
fn directory_contents_sorted_and_counted() {
    let files = vec![entry("b.png", false), entry("dir", true), entry("a.txt", false)];
    let c = get_directory_contents(files);
    assert_eq!(c.image_count, 1);
    let names: Vec<&str> = c.files.iter().map(|f| f.name.as_str()).collect();
    assert_eq!(names, vec!["dir", "a.txt", "b.png"]);
    assert_eq!(c.files[1].path, "/pics/a.txt");
    assert_eq!(c.files[1].size, 7);
    assert!(c.files[0].is_dir);
}

#[test]
fn empty_directory_contents() {
    let c = get_directory_contents(Vec::new());
    assert_eq!(c.image_count, 0);
    assert!(c.files.is_empty());
}

#[test]
fn same_rank_keeps_input_order() {
    let first = vec![entry("B.png", false), entry("a.png", false), entry("b.png", false)];
    let names: Vec<String> = sort_entries(first).into_iter().map(|f| f.name).collect();
    assert_eq!(names, vec!["a.png", "B.png", "b.png"]);
    let second = vec![entry("b.png", false), entry("a.png", false), entry("B.png", false)];
    let names: Vec<String> = sort_entries(second).into_iter().map(|f| f.name).collect();
    assert_eq!(names, vec!["a.png", "b.png", "B.png"]);
}
