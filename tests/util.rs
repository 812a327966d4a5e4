use cyclone::cli::{Cli, DEFAULT_TEMPSTORE};
use cyclone::{humanize_bytes, is_yes, join_absolute, rename_tempfile, resolve_destination};

fn strings(v: &[&str]) -> Vec<String> {
    v.iter().map(|s| s.to_string()).collect()
}

#[test]
fn humanize_small_counts_stay_in_bytes() {
    assert_eq!(humanize_bytes(0), "0 bytes");
    assert_eq!(humanize_bytes(10), "10 bytes");
    assert_eq!(humanize_bytes(11), "11 bytes");
    assert_eq!(humanize_bytes(10_999), "10999 bytes");
}

#[test]
fn humanize_picks_largest_unit_above_ten() {
    assert_eq!(humanize_bytes(11_000), "11 KB");
    assert_eq!(humanize_bytes(123_456), "123 KB");
    assert_eq!(humanize_bytes(500_000_000), "500 MB");
    assert_eq!(humanize_bytes(10_999_999), "10999 KB");
    assert_eq!(humanize_bytes(42_000_000_000), "42 GB");
    assert_eq!(humanize_bytes(u64::MAX), "18446744 TB");
}

#[test]
fn join_absolute_reroots_absolute_paths() {
    assert_eq!(join_absolute("/tmp/tempstore", "/home/u/notes.txt"), "/tmp/tempstore/home/u/notes.txt");
    assert_eq!(join_absolute("/t", "//a/b"), "/t/a/b");
    assert_eq!(join_absolute("/t/", "a/b"), "/t/a/b");
    assert_eq!(join_absolute("", "/x"), "x");
    assert_eq!(join_absolute("/t", "rel"), "/t/rel");
}

#[test]
fn rename_tempfile_takes_first_free_suffix() {
    assert_eq!(rename_tempfile("/t/a", &vec![]), "/t/a~1");
    assert_eq!(rename_tempfile("/t/a", &strings(&["/t/a~1", "/t/a~2"])), "/t/a~3");
    assert_eq!(rename_tempfile("/t/a", &strings(&["/t/a~2"])), "/t/a~1");
    assert_eq!(rename_tempfile("/t/a", &strings(&["/t/a", "/t/b~1"])), "/t/a~1");
}

#[test]
fn rename_tempfile_goes_past_ten() {
    let occupied: Vec<String> = (1..=10).map(|i| format!("/t/a~{}", i)).collect();
    assert_eq!(rename_tempfile("/t/a", &occupied), "/t/a~11");
}

#[test]
fn destination_mirrors_the_source_path() {
    assert_eq!(
        resolve_destination("/tmp/tempstore", "/home/u/notes.txt", &vec![]),
        "/tmp/tempstore/home/u/notes.txt"
    );
}

#[test]
fn repeated_destination_gets_increasing_suffixes() {
    let first = resolve_destination("/t", "/home/f", &vec![]);
    assert_eq!(first, "/t/home/f");
    let mut occupied = vec![first.clone()];
    let second = resolve_destination("/t", "/home/f", &occupied);
    assert_eq!(second, "/t/home/f~1");
    occupied.push(second.clone());
    let third = resolve_destination("/t", "//home/f", &occupied);
    assert_eq!(third, "/t/home/f~2");
}

#[test]
fn dangling_entries_count_as_occupied() {
    let occupied = strings(&["/t/x", "/t/x~1"]);
    assert_eq!(resolve_destination("/t", "/x", &occupied), "/t/x~2");
}

#[test]
fn yes_replies() {
    assert!(is_yes("y"));
    assert!(is_yes("Yes"));
    assert!(!is_yes(""));
    assert!(!is_yes("n"));
    assert!(!is_yes(" y"));
}

#[test]
fn tempstore_precedence() {
    let mut cli = Cli { files: vec![], tempstore: Some("/opt/ts".to_string()), preview: false };
    assert_eq!(cli.tempstore_root(Some("/env/ts".to_string())), "/opt/ts");
    cli.tempstore = None;
    assert_eq!(cli.tempstore_root(Some("/env/ts".to_string())), "/env/ts");
    assert_eq!(cli.tempstore_root(None), DEFAULT_TEMPSTORE);
    assert_eq!(cli.tempstore_root(None), "/tmp/tempstore");
}
