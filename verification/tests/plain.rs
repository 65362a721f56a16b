use dirtree::entry::{Entry, EntryKind, Listing};
use dirtree::policy::TraversalPolicy;
use dirtree::unfiltered::print_contents;

fn dir(name: &str, entries: Vec<Entry>) -> Entry {
    Entry { name: name.to_string(), kind: EntryKind::Directory(Listing::Entries(entries)) }
}

fn file(name: &str) -> Entry {
    Entry { name: name.to_string(), kind: EntryKind::File }
}

fn print(listing: &Listing, depth: usize, policy: &TraversalPolicy) -> String {
    let mut sink = String::new();
    print_contents(listing, depth, policy, &mut sink);
    sink
}

#[test]
fn nothing_is_printed_below_the_depth_limit() {
    let policy = TraversalPolicy { max_depth: 1, show_files: true, show_symlinks: true };
    let listing = Listing::Entries(vec![file("a"), dir("d", vec![file("b")])]);
    assert_eq!(print(&listing, 2, &policy), "");
    assert_eq!(print(&Listing::Unreadable, 2, &policy), "");
    assert_eq!(print(&listing, 1, &policy), " -\"a\"\n =\"d\"\n");
    assert_eq!(print(&listing, 0, &policy), "-\"a\"\n=\"d\"\n -\"b\"\n");
}

#[test]
fn unreadable_directory_gives_one_notice_at_its_depth() {
    let policy = TraversalPolicy { max_depth: 5, show_files: true, show_symlinks: true };
    assert_eq!(print(&Listing::Unreadable, 0, &policy), "[ACCESS DENIED]\n");
    assert_eq!(print(&Listing::Unreadable, 3, &policy), "   [ACCESS DENIED]\n");
}

#[test]
fn empty_directory_prints_nothing() {
    let policy = TraversalPolicy { max_depth: 5, show_files: true, show_symlinks: true };
    assert_eq!(print(&Listing::Entries(vec![]), 0, &policy), "");
}

#[test]
fn every_shown_entry_within_the_limit_has_its_line() {
    let policy = TraversalPolicy { max_depth: 2, show_files: true, show_symlinks: false };
    let listing = Listing::Entries(vec![
        dir(
            "a",
            vec![
                file("a1"),
                Entry { name: "a2".to_string(), kind: EntryKind::Symlink },
                dir("b", vec![file("b1"), dir("c", vec![file("c1")])]),
            ],
        ),
        file("top"),
    ]);
    let text = print(&listing, 0, &policy);
    assert_eq!(text, "=\"a\"\n -\"a1\"\n =\"b\"\n  -\"b1\"\n  =\"c\"\n-\"top\"\n");
    let deepest = text
        .lines()
        .map(|line| line.chars().take_while(|c| *c == ' ').count())
        .max()
        .unwrap();
    assert_eq!(deepest, 2);
}

#[test]
fn unlimited_depth_reaches_every_level() {
    let policy = TraversalPolicy::resolve(true, None, true, false).unwrap();
    let mut entry = file("leaf");
    for level in (0..40).rev() {
        entry = dir(&format!("d{}", level), vec![entry]);
    }
    let text = print(&Listing::Entries(vec![entry]), 0, &policy);
    assert_eq!(text.lines().count(), 41);
    let last = text.lines().last().unwrap();
    assert_eq!(last, format!("{}-\"leaf\"", " ".repeat(40)));
}
