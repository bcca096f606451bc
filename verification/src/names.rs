//! The name extractor: which filenames are wheels, and the package a wheel
//! belongs to.

use crate::text::{
    before_first, contains_text, find_char, lemma_before_first, lowercase, occurs_in, to_lowercase,
};
use vstd::prelude::*;
use vstd::string::*;

verus! {

/// The substring that marks a filename as a wheel. The test is case-sensitive.
pub const WHEEL_MARKER: &'static str = ".whl";

/// The characters of `WHEEL_MARKER`.
pub open spec fn wheel_marker() -> Seq<char> {
    seq!['.', 'w', 'h', 'l']
}

/// A name is a wheel's if the marker stands somewhere in it.
pub open spec fn is_wheel_name(name: Seq<char>) -> bool {
    occurs_in(name, wheel_marker())
}

/// The names of a listing that carry the wheel marker, in listing order.
pub open spec fn wheels_in(names: Seq<Seq<char>>) -> Seq<Seq<char>> {
    names.filter(|name: Seq<char>| is_wheel_name(name))
}

/// The package a filename belongs to: what stands before its first `-`, in
/// lower case. A filename without a `-` names no package.
pub open spec fn package_name_of(filename: Seq<char>) -> Option<Seq<char>> {
    if filename.contains('-') {
        Some(lowercase(before_first(filename, '-')))
    } else {
        None
    }
}

/// A wheel whose filename has no `-`, so that no package name can be taken
/// from it.
#[derive(Debug, Clone, PartialEq, Eq)]
pub struct MalformedFilenameError {
    pub filename: String,
}

impl View for MalformedFilenameError {
    type V = Seq<char>;

    /// The filename that was refused.
    open spec fn view(&self) -> Seq<char> {
        self.filename@
    }
}

impl DeepView for MalformedFilenameError {
    type V = Seq<char>;

    open spec fn deep_view(&self) -> Seq<char> {
        self@
    }
}

impl MalformedFilenameError {
    /// A line for the log that names the file.
    pub fn message(&self) -> (line: String)
        ensures
            line@ == "malformed wheel filename (no '-' to end the package name): "@ + self@,
    {
        let mut line = String::from_str(
            "malformed wheel filename (no '-' to end the package name): ",
        );
        line.append(self.filename.as_str());
        line
    }
}

/// Whether `name` carries the wheel marker.
pub fn is_wheel(name: &str) -> (wheel: bool)
    ensures
        wheel == is_wheel_name(name@),
{
    proof {
        reveal_strlit(".whl");
        assert(WHEEL_MARKER@ =~= wheel_marker());
    }
    contains_text(name, WHEEL_MARKER)
}

/// The package name of `filename`, or the error for a filename without `-`.
pub fn package_name(filename: &str) -> (name: Result<String, MalformedFilenameError>)
    ensures
        filename@.contains('-') ==> (name matches Ok(package) && package@ == lowercase(
            before_first(filename@, '-'),
        )),
        !filename@.contains('-') ==> (name matches Err(error) && error@ == filename@),
{
    match find_char(filename, '-') {
        Some(dash) => {
            proof {
                lemma_before_first(filename@, '-', dash as int);
            }
            let raw = filename.substring_char(0, dash);
            Ok(to_lowercase(raw))
        },
        None => Err(MalformedFilenameError { filename: String::from_str(filename) }),
    }
}

/// Names without the wheel marker do not count: picking from a listing by a
/// test that only wheels pass gives what picking from its wheels gives.
pub proof fn lemma_pick_from_wheels(names: Seq<Seq<char>>, pick: spec_fn(Seq<char>) -> bool)
    requires
        forall|name: Seq<char>| #[trigger] pick(name) ==> is_wheel_name(name),
    ensures
        wheels_in(names).filter(pick) == names.filter(pick),
    decreases names.len(),
{
    let wheel = |name: Seq<char>| is_wheel_name(name);
    if names.len() == 0 {
        names.lemma_filter_len(wheel);
    } else {
        let earlier = names.drop_last();
        let last = names.last();
        assert(names =~= earlier.push(last));
        lemma_pick_from_wheels(earlier, pick);
        earlier.lemma_filter_push(last, wheel);
        earlier.lemma_filter_push(last, pick);
        if is_wheel_name(last) {
            earlier.filter(wheel).lemma_filter_push(last, pick);
        }
    }
}

} // verus!
