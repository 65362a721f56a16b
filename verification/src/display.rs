//! The whole run: the opening line, then the tree in the mode that the
//! settings choose.

use vstd::prelude::*;
use vstd::string::*;
use crate::entry::{Listing, ListingView};
use crate::error::TraversalError;
use crate::filtered::{
    filtered_entry_lines,
    filtered_listing_lines,
    filtered_prefix_lines,
    search_and_print,
};
use crate::line::{lemma_render_concat, render, Line};
use crate::pattern::{lemma_same_pattern_same_names, same_test, PatternMatcher};
use crate::policy::TraversalPolicy;
use crate::unfiltered::{listing_lines, print_contents};

verus! {

/// The opening line for a root whose absolute path is `path`.
pub open spec fn banner_text(path: Seq<char>) -> Seq<char> {
    "Displaying contents of \""@ + path + "\"\n"@
}

/// The lines of the tree below `root`: narrowed by the predicate if there
/// is one, in full if there is none.
pub open spec fn tree_lines(
    root: ListingView,
    policy: TraversalPolicy,
    accepts: Option<spec_fn(Seq<char>) -> bool>,
) -> Seq<Line> {
    match accepts {
        Some(accepts) => filtered_listing_lines(root, 0, policy, accepts),
        None => listing_lines(root, 0, policy),
    }
}

/// The predicate of a matcher, if there is one.
pub open spec fn predicate_of(matcher: Option<&PatternMatcher>) -> Option<
    spec_fn(Seq<char>) -> bool,
> {
    match matcher {
        Some(matcher) => Some(matcher.predicate()),
        None => None,
    }
}

/// Everything that a run writes: the opening line and the tree.
pub open spec fn display_text(
    path: Seq<char>,
    root: ListingView,
    policy: TraversalPolicy,
    accepts: Option<spec_fn(Seq<char>) -> bool>,
) -> Seq<char> {
    banner_text(path) + render(tree_lines(root, policy, accepts))
}

/// Two runs write the same text if the path and the policy are the same,
/// the trees hold the same names and kinds in the same order, and the runs
/// are narrowed alike: by no pattern, or by the same pattern.
pub proof fn lemma_same_tree_same_text(
    path: &str,
    first: &Listing,
    second: &Listing,
    policy: &TraversalPolicy,
    first_matcher: Option<&PatternMatcher>,
    second_matcher: Option<&PatternMatcher>,
)
    requires
        first@ == second@,
        same_test(first_matcher, second_matcher),
    ensures
        display_text(path@, first@, *policy, predicate_of(first_matcher)) == display_text(
            path@,
            second@,
            *policy,
            predicate_of(second_matcher),
        ),
{
    match (first_matcher, second_matcher) {
        (Some(a), Some(b)) => {
            if a.regex != b.regex {
                let pattern = choose|pattern: Seq<char>| #[trigger]
                    a.made_from(pattern) && b.made_from(pattern);
                lemma_same_pattern_same_names(a, b, pattern);
            }
        },
        _ => {},
    }
}

/// The opening line, which names the root by its absolute path.
pub fn banner(path: &str) -> (text: String)
    ensures
        text@ == banner_text(path@),
{
    let mut text = String::from_str("Displaying contents of \"");
    text.append(path);
    text.append("\"\n");
    text
}

/// Appends to `sink` the narrowed tree below the root. A root that could
/// not be read is an error, and nothing is written.
pub fn print_matching(
    root: &Listing,
    policy: &TraversalPolicy,
    matcher: &PatternMatcher,
    sink: &mut String,
) -> (result: Result<(), TraversalError>)
    ensures
        root@ is Unreadable ==> result == Err::<(), TraversalError>(TraversalError::RootUnreadable)
            && final(sink)@ == old(sink)@,
        root@ is Entries ==> result is Ok && final(sink)@ == old(sink)@ + render(
            filtered_listing_lines(root@, 0, *policy, matcher.predicate()),
        ),
{
    match root {
        Listing::Unreadable => Err(TraversalError::RootUnreadable),
        Listing::Entries(entries) => {
            let ghost accepts = matcher.predicate();
            let ghost models = root@->Entries_0;
            let mut index: usize = 0;
            while index < entries.len()
                invariant
                    index <= entries.len(),
                    accepts == matcher.predicate(),
                    root == Listing::Entries(*entries),
                    models == root@->Entries_0,
                    models.len() == entries.len(),
                    forall|i: int| 0 <= i < entries.len() ==> models[i] == #[trigger] entries[i]@,
                    sink@ == old(sink)@ + render(
                        filtered_prefix_lines(models, index as nat, 0, *policy, accepts),
                    ),
                decreases entries.len() - index,
            {
                let entry = &entries[index];
                let ghost seen = filtered_prefix_lines(models, index as nat, 0, *policy, accepts);
                match search_and_print(entry, 0, policy, matcher, sink, true) {
                    Some(text) => {
                        sink.append(text.as_str());
                    },
                    None => {},
                }
                proof {
                    lemma_render_concat(seen, filtered_entry_lines(entry@, 0, *policy, accepts));
                }
                index = index + 1;
            }
            Ok(())
        },
    }
}

/// Appends to `sink` the opening line and the tree below the root: with a
/// matcher the narrowed tree, without one the full tree. The one error is a
/// root that could not be read while a matcher is given; the opening line
/// is written all the same.
pub fn display(
    path: &str,
    root: &Listing,
    policy: &TraversalPolicy,
    matcher: Option<&PatternMatcher>,
    sink: &mut String,
) -> (result: Result<(), TraversalError>)
    ensures
        result is Err <==> matcher is Some && root@ is Unreadable,
        result is Err ==> final(sink)@ == old(sink)@ + banner_text(path@),
        result is Ok ==> final(sink)@ == old(sink)@ + display_text(
            path@,
            root@,
            *policy,
            predicate_of(matcher),
        ),
{
    let opening = banner(path);
    sink.append(opening.as_str());
    match matcher {
        Some(matcher) => print_matching(root, policy, matcher, sink),
        None => {
            print_contents(root, 0, policy, sink);
            Ok(())
        },
    }
}

} // verus!
