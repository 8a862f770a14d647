use std::path::Path;
use tarah::paths::{cache_dir_bytes, path_join_bytes, cache_dir, cache_glob, clone_dir, exact_name_pattern, path_join, sync_name_pattern};

#[test]
fn path_join_matches_std() {
    for (base, part) in [("/home/u", ".cache"), ("/home/u/", "x"), ("", "x"), ("/a", "/abs"), ("a", "")] {
        let std_joined = Path::new(base).join(part).to_str().unwrap().to_string();
        assert_eq!(path_join(base, part), std_joined);
    }
}

#[test]
fn cache_locations() {
    assert_eq!(cache_dir("/home/u"), "/home/u/.cache/tarah/git_cloney_thingy");
    assert_eq!(cache_dir("/root/"), "/root/.cache/tarah/git_cloney_thingy");
    assert_eq!(clone_dir("/home/u", "yay"), "/home/u/.cache/tarah/git_cloney_thingy/yay");
    assert_eq!(clone_dir("/home/u", "/etc"), "/etc");
    assert_eq!(cache_glob("/home/u/.cache/tarah/git_cloney_thingy"), "/home/u/.cache/tarah/git_cloney_thingy/*");
}

#[test]
fn search_patterns() {
    assert_eq!(exact_name_pattern("vim"), "^vim$");
    assert_eq!(sync_name_pattern("vim"), "^vim ");
}

#[test]
fn byte_paths() {
    assert_eq!(path_join_bytes(b"/home/\xffu", b"x"), b"/home/\xffu/x".to_vec());
    assert_eq!(path_join_bytes(b"/h/", b"y"), b"/h/y".to_vec());
    assert_eq!(path_join_bytes(b"", b"z"), b"z".to_vec());
    assert_eq!(path_join_bytes(b"/a", b"/abs"), b"/abs".to_vec());
    assert_eq!(cache_dir_bytes(b"/home/\xffu"), b"/home/\xffu/.cache/tarah/git_cloney_thingy".to_vec());
    assert_eq!(cache_dir_bytes(b"/root/"), b"/root/.cache/tarah/git_cloney_thingy".to_vec());
}
