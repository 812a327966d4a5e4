use cyclone::relocate::{Failure, Phase, MARKER_TEXT};
use cyclone::{
    resolve_destination, resolve_source, Action, Entry, Event, FileKind, Item, Outcome, Relocation,
    Resolution,
};

fn s(x: &str) -> String {
    x.to_string()
}

fn item(rel: &str, kind: FileKind, len: u64, mode: u32) -> Item {
    Item { rel: s(rel), kind, len, mode }
}

/// A relocation whose rename has failed and whose parents were created,
/// waiting for the listing of its source.
fn surveying(source: &str, dest: &str) -> Relocation {
    let mut r = Relocation::new(s(source), s(dest));
    assert_eq!(r.step(Event::Done), Action::Rename { from: s(source), to: s(dest) });
    assert_eq!(r.step(Event::Failed), Action::CreateParents { path: s(dest) });
    assert_eq!(r.step(Event::Done), Action::Survey { path: s(source) });
    r
}

#[test]
fn delete_notes_example() {
    let source = match resolve_source("notes.txt", "/home/u", Some(FileKind::Regular)) {
        Resolution::Canonicalize(p) => p,
        other => panic!("unexpected {:?}", other),
    };
    assert_eq!(source, "/home/u/notes.txt");
    let dest = resolve_destination("/tmp/tempstore", &source, &vec![]);
    assert_eq!(dest, "/tmp/tempstore/home/u/notes.txt");
    let mut r = Relocation::new(source.clone(), dest.clone());
    assert_eq!(r.step(Event::Done), Action::Rename { from: source.clone(), to: dest.clone() });
    let rec = r.step(Event::Done);
    assert_eq!(rec, Action::Record { original: source.clone(), destination: dest.clone() });
    assert_eq!(r.step(Event::Done), Action::Finish(Outcome::Relocated));
    assert!(r.is_finished());
    let line = Entry::new(s("2024-01-01T00:00:00Z"), source, dest).encode();
    assert_eq!(line, "2024-01-01T00:00:00Z\t/home/u/notes.txt\t/tmp/tempstore/home/u/notes.txt");
}

#[test]
fn missing_path_is_skipped() {
    assert_eq!(resolve_source("gone", "/home/u", None), Resolution::Missing);
}

#[test]
fn absolute_input_ignores_cwd() {
    assert_eq!(
        resolve_source("/etc/x", "/home/u", Some(FileKind::Directory)),
        Resolution::Canonicalize(s("/etc/x"))
    );
}

#[test]
fn symlink_is_moved_not_followed() {
    assert_eq!(
        resolve_source("link", "/home/u", Some(FileKind::Symlink)),
        Resolution::Link(s("/home/u/link"))
    );
    let mut r = surveying("/home/u/link", "/t/home/u/link");
    let a = r.step(Event::Listing(vec![item("", FileKind::Symlink, 7, 0o777)]));
    assert_eq!(a, Action::CopyLink { from: s("/home/u/link"), to: s("/t/home/u/link") });
    assert_eq!(r.step(Event::Done), Action::RemoveFile { path: s("/home/u/link") });
}

#[test]
fn small_file_copied_then_removed_then_recorded() {
    let mut r = surveying("/a/f", "/t/a/f");
    let a = r.step(Event::Listing(vec![item("", FileKind::Regular, 10, 0o644)]));
    assert_eq!(a, Action::CopyBytes { from: s("/a/f"), to: s("/t/a/f") });
    assert_eq!(r.step(Event::Done), Action::RemoveFile { path: s("/a/f") });
    assert_eq!(r.step(Event::Done), Action::Record { original: s("/a/f"), destination: s("/t/a/f") });
    assert_eq!(r.step(Event::Done), Action::Finish(Outcome::Relocated));
}

#[test]
fn directory_tree_keeps_relative_offsets() {
    let mut r = surveying("/home/u/d", "/t/home/u/d");
    let listing = vec![
        item("", FileKind::Directory, 0, 0o755),
        item("a.txt", FileKind::Regular, 3, 0o644),
        item("sub", FileKind::Directory, 0, 0o755),
        item("sub/b.txt", FileKind::Regular, 5, 0o644),
    ];
    assert_eq!(r.step(Event::Listing(listing)), Action::CreateDir { path: s("/t/home/u/d") });
    assert_eq!(
        r.step(Event::Done),
        Action::CopyBytes { from: s("/home/u/d/a.txt"), to: s("/t/home/u/d/a.txt") }
    );
    assert_eq!(r.step(Event::Done), Action::CreateDir { path: s("/t/home/u/d/sub") });
    assert_eq!(
        r.step(Event::Done),
        Action::CopyBytes { from: s("/home/u/d/sub/b.txt"), to: s("/t/home/u/d/sub/b.txt") }
    );
    assert_eq!(r.step(Event::Done), Action::RemoveTree { path: s("/home/u/d") });
    assert_eq!(
        r.step(Event::Done),
        Action::Record { original: s("/home/u/d"), destination: s("/t/home/u/d") }
    );
    assert_eq!(r.step(Event::Done), Action::Finish(Outcome::Relocated));
}

#[test]
fn fifo_keeps_its_mode() {
    let mut r = surveying("/p", "/t/p");
    let a = r.step(Event::Listing(vec![item("", FileKind::Fifo, 0, 0o640)]));
    assert_eq!(a, Action::MakeFifo { path: s("/t/p"), mode: 0o640 });
}

#[test]
fn big_file_let_go_is_removed_and_not_recorded() {
    let mut r = surveying("/big", "/t/big");
    let a = r.step(Event::Listing(vec![item("", FileKind::Regular, 500_000_001, 0o644)]));
    assert_eq!(a, Action::AskDiscardBig { path: s("/big"), len: 500_000_001 });
    assert_eq!(r.step(Event::Answer(true)), Action::RemoveFile { path: s("/big") });
    assert_eq!(r.step(Event::Done), Action::Finish(Outcome::Discarded));
    assert_eq!(r.phase(), Phase::Finished(Outcome::Discarded));
}

#[test]
fn big_file_kept_is_copied() {
    let mut r = surveying("/big", "/t/big");
    r.step(Event::Listing(vec![item("", FileKind::Regular, 600_000_000, 0o644)]));
    assert_eq!(r.step(Event::Answer(false)), Action::CopyBytes { from: s("/big"), to: s("/t/big") });
    assert_eq!(r.step(Event::Done), Action::RemoveFile { path: s("/big") });
    assert_eq!(r.step(Event::Done), Action::Record { original: s("/big"), destination: s("/t/big") });
}

#[test]
fn file_at_the_threshold_is_not_big() {
    let mut r = surveying("/f", "/t/f");
    let a = r.step(Event::Listing(vec![item("", FileKind::Regular, 500_000_000, 0o644)]));
    assert_eq!(a, Action::CopyBytes { from: s("/f"), to: s("/t/f") });
}

#[test]
fn big_file_inside_directory_let_go_still_records_directory() {
    let mut r = surveying("/d", "/t/d");
    let listing = vec![
        item("", FileKind::Directory, 0, 0o755),
        item("huge", FileKind::Regular, 900_000_000, 0o644),
    ];
    assert_eq!(r.step(Event::Listing(listing)), Action::CreateDir { path: s("/t/d") });
    assert_eq!(r.step(Event::Done), Action::AskDiscardBig { path: s("/d/huge"), len: 900_000_000 });
    assert_eq!(r.step(Event::Answer(true)), Action::RemoveTree { path: s("/d") });
    assert_eq!(r.step(Event::Done), Action::Record { original: s("/d"), destination: s("/t/d") });
}

#[test]
fn special_file_let_go_leaves_marker() {
    let mut r = surveying("/dev/x", "/t/dev/x");
    let a = r.step(Event::Listing(vec![item("", FileKind::Special, 0, 0o600)]));
    assert_eq!(a, Action::AskDiscardSpecial { path: s("/dev/x") });
    assert_eq!(r.step(Event::Answer(true)), Action::WriteMarker { path: s("/t/dev/x") });
    assert_eq!(r.step(Event::Done), Action::RemoveFile { path: s("/dev/x") });
    assert!(MARKER_TEXT.starts_with("This is a marker"));
}

#[test]
fn special_file_kept_fails_without_removal() {
    let mut r = surveying("/dev/x", "/t/dev/x");
    r.step(Event::Listing(vec![item("", FileKind::Special, 0, 0o600)]));
    assert_eq!(r.step(Event::Answer(false)), Action::Finish(Outcome::Failed(Failure::Copy)));
    assert_eq!(r.step(Event::Done), Action::Finish(Outcome::Failed(Failure::Copy)));
}

#[test]
fn copy_failure_leaves_source() {
    let mut r = surveying("/d", "/t/d");
    let listing = vec![item("", FileKind::Directory, 0, 0o755), item("a", FileKind::Regular, 1, 0o644)];
    r.step(Event::Listing(listing));
    r.step(Event::Done);
    assert_eq!(r.step(Event::Failed), Action::Finish(Outcome::Failed(Failure::Copy)));
}

#[test]
fn other_failures() {
    let mut r = Relocation::new(s("/a"), s("/t/a"));
    r.step(Event::Done);
    r.step(Event::Failed);
    assert_eq!(r.step(Event::Failed), Action::Finish(Outcome::Failed(Failure::Parents)));

    let mut r = surveying("/a", "/t/a");
    assert_eq!(r.step(Event::Listing(vec![])), Action::Finish(Outcome::Failed(Failure::Survey)));

    let mut r = surveying("/a", "/t/a");
    r.step(Event::Listing(vec![item("", FileKind::Regular, 1, 0o644)]));
    r.step(Event::Done);
    assert_eq!(r.step(Event::Failed), Action::Finish(Outcome::Failed(Failure::Remove)));

    let mut r = Relocation::new(s("/a"), s("/t/a"));
    r.step(Event::Done);
    r.step(Event::Done);
    assert_eq!(r.step(Event::Failed), Action::Finish(Outcome::Failed(Failure::Ledger)));
}
