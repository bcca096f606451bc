//! The HTML of the index pages and the keys they are stored under.

use crate::names::{is_wheel_name, wheel_marker};
use crate::text::occurs_at;
use vstd::prelude::*;
use vstd::string::*;

verus! {

broadcast use vstd::seq_lib::group_seq_properties;

/// What every index page starts with.
pub const PAGE_HEADER: &'static str =
    "\n<!DOCTYPE html>\n<html>\n    <head>\n        <meta name=\"pypi:repository-version\" content=\"1.0\">\n        <title>Simple index</title>\n    </head>\n<body>";

/// What every index page ends with.
pub const PAGE_FOOTER: &'static str = "\n</body>\n</html>";

/// The content type that index pages are stored with.
pub const PAGE_CONTENT_TYPE: &'static str = "text/html";

/// An object to write to the store.
#[derive(Debug, Clone, PartialEq, Eq)]
pub struct Page {
    pub key: String,
    pub content_type: String,
    pub body: String,
}

/// A `Page` as the characters of its three parts.
pub struct PageView {
    pub key: Seq<char>,
    pub content_type: Seq<char>,
    pub body: Seq<char>,
}

impl View for Page {
    type V = PageView;

    open spec fn view(&self) -> PageView {
        PageView { key: self.key@, content_type: self.content_type@, body: self.body@ }
    }
}

impl DeepView for Page {
    type V = PageView;

    open spec fn deep_view(&self) -> PageView {
        self@
    }
}

/// The root page's link to a package: its directory under the prefix, with
/// the name and a slash as text.
pub open spec fn package_link(prefix: Seq<char>, name: Seq<char>) -> Seq<char> {
    "\n<a href=\"/"@ + prefix + "/"@ + name + "/\">"@ + name + "/</a>"@
}

/// A package page's link to one of its files, with the filename as text.
pub open spec fn file_link(prefix: Seq<char>, name: Seq<char>, file: Seq<char>) -> Seq<char> {
    "\n<a href=\"/"@ + prefix + "/"@ + name + "/"@ + file + "\">"@ + file + "</a>"@
}

/// Header, one link for each name in the given order, footer.
pub open spec fn root_body(prefix: Seq<char>, names: Seq<Seq<char>>) -> Seq<char> {
    PAGE_HEADER@ + names.map_values(|name: Seq<char>| package_link(prefix, name)).flatten()
        + PAGE_FOOTER@
}

/// Header, one link for each file in the given order, footer.
pub open spec fn package_body(
    prefix: Seq<char>,
    name: Seq<char>,
    files: Seq<Seq<char>>,
) -> Seq<char> {
    PAGE_HEADER@ + files.map_values(|file: Seq<char>| file_link(prefix, name, file)).flatten()
        + PAGE_FOOTER@
}

/// The root page: stored as `index.html` directly under the prefix.
pub open spec fn root_page_of(prefix: Seq<char>, names: Seq<Seq<char>>) -> PageView {
    PageView {
        key: prefix + "/index.html"@,
        content_type: PAGE_CONTENT_TYPE@,
        body: root_body(prefix, names),
    }
}

/// A package's page: stored as `index.html` in the package's directory.
pub open spec fn package_page_of(
    prefix: Seq<char>,
    name: Seq<char>,
    files: Seq<Seq<char>>,
) -> PageView {
    PageView {
        key: prefix + "/"@ + name + "/index.html"@,
        content_type: PAGE_CONTENT_TYPE@,
        body: package_body(prefix, name, files),
    }
}

/// Renders the root page for the packages `names`, linked in that order.
pub fn root_page(prefix: &str, names: &Vec<String>) -> (page: Page)
    ensures
        page@ == root_page_of(prefix@, names.deep_view()),
{
    let ghost link = |name: Seq<char>| package_link(prefix@, name);
    let mut body = String::from_str(PAGE_HEADER);
    let mut i: usize = 0;
    while i < names.len()
        invariant
            i <= names.len(),
            link == |name: Seq<char>| package_link(prefix@, name),
            body@ == PAGE_HEADER@ + names.deep_view().take(i as int).map_values(link).flatten(),
        decreases names.len() - i,
    {
        let name = names[i].as_str();
        proof {
            let done = names.deep_view().take(i as int);
            assert(names.deep_view().take(i + 1) =~= done.push(name@));
            done.lemma_push_map_commute(link, name@);
            done.map_values(link).lemma_flatten_push(link(name@));
        }
        body.append("\n<a href=\"/");
        body.append(prefix);
        body.append("/");
        body.append(name);
        body.append("/\">");
        body.append(name);
        body.append("/</a>");
        i += 1;
    }
    body.append(PAGE_FOOTER);
    let mut key = String::from_str(prefix);
    key.append("/index.html");
    Page { key, content_type: String::from_str(PAGE_CONTENT_TYPE), body }
}

/// Renders the page of package `name` for `files`, linked in that order.
pub fn package_page(prefix: &str, name: &str, files: &Vec<String>) -> (page: Page)
    ensures
        page@ == package_page_of(prefix@, name@, files.deep_view()),
{
    let ghost link = |file: Seq<char>| file_link(prefix@, name@, file);
    let mut body = String::from_str(PAGE_HEADER);
    let mut i: usize = 0;
    while i < files.len()
        invariant
            i <= files.len(),
            link == |file: Seq<char>| file_link(prefix@, name@, file),
            body@ == PAGE_HEADER@ + files.deep_view().take(i as int).map_values(link).flatten(),
        decreases files.len() - i,
    {
        let file = files[i].as_str();
        proof {
            let done = files.deep_view().take(i as int);
            assert(files.deep_view().take(i + 1) =~= done.push(file@));
            done.lemma_push_map_commute(link, file@);
            done.map_values(link).lemma_flatten_push(link(file@));
        }
        body.append("\n<a href=\"/");
        body.append(prefix);
        body.append("/");
        body.append(name);
        body.append("/");
        body.append(file);
        body.append("\">");
        body.append(file);
        body.append("</a>");
        i += 1;
    }
    body.append(PAGE_FOOTER);
    let mut key = String::from_str(prefix);
    key.append("/");
    key.append(name);
    key.append("/index.html");
    Page { key, content_type: String::from_str(PAGE_CONTENT_TYPE), body }
}

/// The wheel marker holds no slash, so where it stands in two parts joined
/// by a slash it stands in one of the parts.
proof fn lemma_marker_in_joined(front: Seq<char>, back: Seq<char>)
    requires
        is_wheel_name(front + seq!['/'] + back),
    ensures
        is_wheel_name(front) || is_wheel_name(back),
{
    let joined = front + seq!['/'] + back;
    let marker = wheel_marker();
    let at: int = choose|at: int| occurs_at(joined, marker, at);
    let window = joined.subrange(at, at + 4);
    if at + 4 <= front.len() {
        assert(front.subrange(at, at + 4) =~= window);
        assert(occurs_at(front, marker, at));
    } else if at > front.len() {
        let shifted: int = at - front.len() - 1;
        assert(back.subrange(shifted, shifted + 4) =~= window);
        assert(occurs_at(back, marker, shifted));
    } else {
        assert(window[front.len() - at] == '/');
    }
}

/// The index pages are stored under keys that are no wheel's, as long as
/// neither the prefix nor the package name carries the wheel marker. A later
/// listing of the store therefore holds the same wheels.
pub proof fn lemma_page_keys_are_no_wheels(prefix: Seq<char>, name: Seq<char>)
    requires
        !is_wheel_name(prefix),
        !is_wheel_name(name),
    ensures
        !is_wheel_name(prefix + "/index.html"@),
        !is_wheel_name(prefix + "/"@ + name + "/index.html"@),
{
    reveal_strlit("/index.html");
    reveal_strlit("/");
    let file = seq!['i', 'n', 'd', 'e', 'x', '.', 'h', 't', 'm', 'l'];
    assert(!is_wheel_name(file)) by {
        assert forall|at: int| !occurs_at(file, wheel_marker(), at) by {
            if occurs_at(file, wheel_marker(), at) {
                let window = file.subrange(at, at + 4);
                assert(window[0] == '.' && window[1] == 'w');
            }
        }
    }
    if is_wheel_name(prefix + "/index.html"@) {
        assert(prefix + "/index.html"@ =~= prefix + seq!['/'] + file);
        lemma_marker_in_joined(prefix, file);
    }
    if is_wheel_name(prefix + "/"@ + name + "/index.html"@) {
        let directory = prefix + seq!['/'] + name;
        assert(prefix + "/"@ + name + "/index.html"@ =~= directory + seq!['/'] + file);
        lemma_marker_in_joined(directory, file);
        lemma_marker_in_joined(prefix, name);
    }
}

} // verus!
