use dirtree::display::display;
use dirtree::error::TraversalError;
use dirtree::entry::{Entry, EntryKind, Listing};
use dirtree::pattern::PatternMatcher;
use dirtree::policy::TraversalPolicy;

fn dir(name: &str, entries: Vec<Entry>) -> Entry {
    Entry { name: name.to_string(), kind: EntryKind::Directory(Listing::Entries(entries)) }
}

fn file(name: &str) -> Entry {
    Entry { name: name.to_string(), kind: EntryKind::File }
}

fn run(
    root: &Listing,
    recursive: bool,
    depth: Option<usize>,
    show_files: bool,
    show_symlinks: bool,
    pattern: Option<&str>,
) -> (Result<(), TraversalError>, String) {
    let policy = TraversalPolicy::resolve(recursive, depth, show_files, show_symlinks).unwrap();
    let matcher = pattern.map(|p| PatternMatcher::new(p).unwrap());
    let mut sink = String::new();
    let result = display("/top", root, &policy, matcher.as_ref(), &mut sink);
    (result, sink)
}

const BANNER: &str = "Displaying contents of \"/top\"\n";

#[test]
fn matching_file_brings_its_directory() {
    let root = Listing::Entries(vec![file("file.txt"), dir("sub", vec![file("match.log")])]);
    let (result, text) = run(&root, true, None, true, false, Some("match"));
    assert_eq!(result, Ok(()));
    assert_eq!(text, format!("{}{}", BANNER, "=\"sub\"\n -\"match.log\"\n"));
    assert!(!text.contains("file.txt"));
}

#[test]
fn nested_directories_are_printed_in_full() {
    let root = Listing::Entries(vec![dir(
        "a",
        vec![dir("b", vec![dir("c", vec![file("target.txt")])])],
    )]);
    let (result, text) = run(&root, true, None, true, false, None);
    assert_eq!(result, Ok(()));
    assert_eq!(
        text,
        format!("{}{}", BANNER, "=\"a\"\n =\"b\"\n  =\"c\"\n   -\"target.txt\"\n")
    );
}

#[test]
fn depth_limit_prunes_what_lies_deeper() {
    let root = Listing::Entries(vec![dir("a", vec![dir("b", vec![dir("c", vec![])])])]);
    let (result, text) = run(&root, true, Some(1), false, false, None);
    assert_eq!(result, Ok(()));
    assert!(text.contains("=\"a\"\n"));
    assert!(!text.contains("\"c\""));
    assert_eq!(text, format!("{}{}", BANNER, "=\"a\"\n =\"b\"\n"));
}

#[test]
fn depth_zero_shows_only_the_first_level() {
    let root = Listing::Entries(vec![dir("a", vec![dir("b", vec![dir("c", vec![])])])]);
    let (result, text) = run(&root, true, Some(0), false, false, None);
    assert_eq!(result, Ok(()));
    assert_eq!(text, format!("{}{}", BANNER, "=\"a\"\n"));
}

#[test]
fn without_recursion_only_the_first_level_is_shown() {
    let root = Listing::Entries(vec![
        dir("one", vec![dir("inner", vec![]), file("deep.txt")]),
        file("top.txt"),
        dir("two", vec![file("other.txt")]),
    ]);
    let (result, text) = run(&root, false, None, false, false, None);
    assert_eq!(result, Ok(()));
    assert_eq!(text, format!("{}{}", BANNER, "=\"one\"\n=\"two\"\n"));
}

#[test]
fn unreadable_root_is_reported_in_the_tree() {
    let (result, text) = run(&Listing::Unreadable, true, None, true, true, None);
    assert_eq!(result, Ok(()));
    assert_eq!(text, format!("{}{}", BANNER, "[ACCESS DENIED]\n"));
}

#[test]
fn unreadable_root_stops_a_narrowed_run() {
    let (result, text) = run(&Listing::Unreadable, true, None, true, true, Some("x"));
    assert_eq!(result, Err(TraversalError::RootUnreadable));
    assert_eq!(text, BANNER);
}

#[test]
fn unreadable_directory_below_the_root_is_marked() {
    let root = Listing::Entries(vec![
        Entry { name: "locked".to_string(), kind: EntryKind::Directory(Listing::Unreadable) },
        dir("open", vec![file("f")]),
    ]);
    let (_, text) = run(&root, true, None, true, false, None);
    assert_eq!(
        text,
        format!("{}{}", BANNER, "=\"locked\"\n [ACCESS DENIED]\n=\"open\"\n -\"f\"\n")
    );
}

#[test]
fn unreadable_directory_is_not_marked_beyond_the_depth_limit() {
    let root = Listing::Entries(vec![Entry {
        name: "locked".to_string(),
        kind: EntryKind::Directory(Listing::Unreadable),
    }]);
    let (_, text) = run(&root, false, None, true, false, None);
    assert_eq!(text, format!("{}{}", BANNER, "=\"locked\"\n"));
}

#[test]
fn files_and_symlinks_follow_their_flags() {
    let root = Listing::Entries(vec![
        file("f"),
        Entry { name: "l".to_string(), kind: EntryKind::Symlink },
        Entry { name: "o".to_string(), kind: EntryKind::Other },
        dir("d", vec![]),
    ]);
    let (_, neither) = run(&root, true, None, false, false, None);
    assert_eq!(neither, format!("{}{}", BANNER, "=\"d\"\n"));
    let (_, files) = run(&root, true, None, true, false, None);
    assert_eq!(files, format!("{}{}", BANNER, "-\"f\"\n=\"d\"\n"));
    let (_, links) = run(&root, true, None, false, true, None);
    assert_eq!(links, format!("{}{}", BANNER, "&\"l\"\n=\"d\"\n"));
    let (_, both) = run(&root, true, None, true, true, None);
    assert_eq!(both, format!("{}{}", BANNER, "-\"f\"\n&\"l\"\n=\"d\"\n"));
}

#[test]
fn entries_keep_the_order_of_enumeration() {
    let root = Listing::Entries(vec![file("z"), file("a"), file("m")]);
    let (_, text) = run(&root, false, None, true, false, None);
    assert_eq!(text, format!("{}{}", BANNER, "-\"z\"\n-\"a\"\n-\"m\"\n"));
}

#[test]
fn narrowed_run_prints_matching_entries_of_the_root() {
    let root = Listing::Entries(vec![
        file("hit.txt"),
        file("miss.txt"),
        Entry { name: "hit.lnk".to_string(), kind: EntryKind::Symlink },
        Entry { name: "hit.sock".to_string(), kind: EntryKind::Other },
        dir("hit.d", vec![]),
    ]);
    let (result, text) = run(&root, true, None, true, true, Some("^hit"));
    assert_eq!(result, Ok(()));
    assert_eq!(
        text,
        format!("{}{}", BANNER, "-\"hit.txt\"\n&\"hit.lnk\"\n=\"hit.d\"\n")
    );
}

#[test]
fn narrowed_run_does_not_ask_the_show_flags() {
    let root = Listing::Entries(vec![
        file("hit.txt"),
        Entry { name: "hit.lnk".to_string(), kind: EntryKind::Symlink },
    ]);
    let (_, text) = run(&root, true, None, false, false, Some("hit"));
    assert_eq!(text, format!("{}{}", BANNER, "-\"hit.txt\"\n&\"hit.lnk\"\n"));
}

#[test]
fn accepted_directory_stands_before_what_it_holds() {
    let root = Listing::Entries(vec![dir(
        "logs",
        vec![file("note"), dir("old", vec![file("a.log"), file("b.txt")]), file("c.log")],
    )]);
    let (_, text) = run(&root, true, None, true, false, Some("log"));
    assert_eq!(
        text,
        format!("{}{}", BANNER, "=\"logs\"\n =\"old\"\n  -\"a.log\"\n -\"c.log\"\n")
    );
}

#[test]
fn header_is_written_once_when_several_entries_match() {
    let root = Listing::Entries(vec![dir(
        "d",
        vec![file("x1"), dir("e", vec![file("x2"), file("x3")]), file("no"), file("x4")],
    )]);
    let (_, text) = run(&root, true, None, true, false, Some("x"));
    assert_eq!(
        text,
        format!("{}{}", BANNER, "=\"d\"\n -\"x1\"\n =\"e\"\n  -\"x2\"\n  -\"x3\"\n -\"x4\"\n")
    );
}

#[test]
fn directory_without_a_match_is_left_out() {
    let root = Listing::Entries(vec![
        dir("empty", vec![]),
        dir("dull", vec![file("a"), dir("duller", vec![file("b")])]),
        dir("x", vec![dir("y", vec![file("hit")])]),
    ]);
    let (_, text) = run(&root, true, None, true, false, Some("hit"));
    assert_eq!(text, format!("{}{}", BANNER, "=\"x\"\n =\"y\"\n  -\"hit\"\n"));
}

#[test]
fn match_beyond_the_depth_limit_does_not_count() {
    let root = Listing::Entries(vec![dir("x", vec![dir("y", vec![file("hit")])])]);
    let (_, at_one) = run(&root, true, Some(1), true, false, Some("hit"));
    assert_eq!(at_one, BANNER);
    let (_, at_two) = run(&root, true, Some(2), true, false, Some("hit"));
    assert_eq!(at_two, format!("{}{}", BANNER, "=\"x\"\n =\"y\"\n  -\"hit\"\n"));
    let (_, flat) = run(&root, false, None, true, false, Some("hit"));
    assert_eq!(flat, BANNER);
}

#[test]
fn narrowed_run_treats_an_unreadable_directory_as_empty() {
    let root = Listing::Entries(vec![
        Entry { name: "locked".to_string(), kind: EntryKind::Directory(Listing::Unreadable) },
        Entry { name: "hit".to_string(), kind: EntryKind::Directory(Listing::Unreadable) },
    ]);
    let (result, text) = run(&root, true, None, true, false, Some("hit"));
    assert_eq!(result, Ok(()));
    assert_eq!(text, format!("{}{}", BANNER, "=\"hit\"\n"));
}

#[test]
fn two_runs_on_the_same_tree_write_the_same_text() {
    let root = Listing::Entries(vec![
        file("file.txt"),
        dir("sub", vec![file("match.log"), dir("deep", vec![file("match.txt")])]),
    ]);
    let (_, first) = run(&root, true, None, true, false, Some("match"));
    let (_, second) = run(&root, true, None, true, false, Some("match"));
    assert_eq!(first, second);
    let (_, plain_first) = run(&root, true, Some(1), true, true, None);
    let (_, plain_second) = run(&root, true, Some(1), true, true, None);
    assert_eq!(plain_first, plain_second);
}

#[test]
fn text_is_appended_to_what_the_sink_holds() {
    let root = Listing::Entries(vec![file("a")]);
    let policy = TraversalPolicy::resolve(false, None, true, false).unwrap();
    let mut sink = String::from("before\n");
    let result = display("/p", &root, &policy, None, &mut sink);
    assert_eq!(result, Ok(()));
    assert_eq!(sink, "before\nDisplaying contents of \"/p\"\n-\"a\"\n");
}
