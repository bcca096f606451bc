use upload_wheels::indexer::{
    classify_key, create_indexes, entry_from_match, group_keys, KeyEntry, SiteIndex,
};
use upload_wheels::names::MalformedFilenameError;
use upload_wheels::package_index::PackageIndex;
use upload_wheels::pages::{Page, PAGE_FOOTER, PAGE_HEADER};
use upload_wheels::pattern::{filename_in_key, FILENAME_PATTERN};

fn keys(list: &[&str]) -> Vec<String> {
    list.iter().map(|key| key.to_string()).collect()
}

fn wheel(package: &str, file: &str) -> KeyEntry {
    KeyEntry::Wheel { package: package.to_string(), file: file.to_string() }
}

fn sorted_entries(index: PackageIndex) -> Vec<(String, Vec<String>)> {
    let mut entries = index.into_entries();
    entries.sort();
    entries
}

fn page_for<'a>(site: &'a SiteIndex, name: &str) -> &'a Page {
    let at = site.names.iter().position(|n| n == name).unwrap();
    &site.packages[at]
}

fn link_lines(body: &str) -> Vec<String> {
    let inner = body.strip_prefix(PAGE_HEADER).unwrap().strip_suffix(PAGE_FOOTER).unwrap();
    let mut lines: Vec<String> =
        inner.split('\n').filter(|l| !l.is_empty()).map(|l| l.to_string()).collect();
    lines.sort();
    lines
}

#[test]
fn filename_pattern_is_a_word_a_dash_and_the_rest() {
    assert_eq!(FILENAME_PATTERN, "([a-zA-Z_\\d]+)\\-.+");
}

#[test]
fn filename_is_found_at_the_end_of_a_key() {
    assert_eq!(
        filename_in_key("test/numpy/Numpy-1.2-cp39.whl"),
        Ok(Some("Numpy-1.2-cp39.whl".to_string()))
    );
    assert_eq!(filename_in_key("flask-1.0.whl"), Ok(Some("flask-1.0.whl".to_string())));
    assert_eq!(
        filename_in_key("test/my.pkg/my.pkg-1.0.whl"),
        Ok(Some("pkg-1.0.whl".to_string()))
    );
}

#[test]
fn filename_starts_at_the_first_word_that_a_dash_follows() {
    assert_eq!(
        filename_in_key("my-prefix/numpy/Numpy-1.2.whl"),
        Ok(Some("my-prefix/numpy/Numpy-1.2.whl".to_string()))
    );
}

#[test]
fn key_without_word_and_dash_holds_no_filename() {
    assert_eq!(filename_in_key("test/nodash.whl"), Ok(None));
    assert_eq!(filename_in_key("-1.0.whl"), Ok(None));
    assert_eq!(filename_in_key("name-"), Ok(None));
    assert_eq!(filename_in_key(""), Ok(None));
}

#[test]
fn entry_takes_file_and_package_from_the_match() {
    assert_eq!(
        entry_from_match(Some("Numpy-1.2-cp39.whl".to_string())),
        wheel("numpy", "Numpy-1.2-cp39.whl")
    );
    assert_eq!(entry_from_match(Some("nodash.whl".to_string())), KeyEntry::Malformed);
    assert_eq!(entry_from_match(None), KeyEntry::Malformed);
}

#[test]
fn keys_are_classified() {
    assert_eq!(
        classify_key("test/numpy/Numpy-1.2-cp39.whl"),
        Ok(wheel("numpy", "Numpy-1.2-cp39.whl"))
    );
    assert_eq!(classify_key("test/index.html"), Ok(KeyEntry::Skipped));
    assert_eq!(classify_key("test/numpy/numpy-1.2.tar.gz"), Ok(KeyEntry::Skipped));
    assert_eq!(classify_key("test/nodash.whl"), Ok(KeyEntry::Malformed));
}

#[test]
fn listing_is_grouped_by_lowercased_package() {
    let grouping = group_keys(&keys(&[
        "requests-2.1-py3.whl",
        "Requests-2.0-py3.whl",
        "flask-1.0.whl",
    ]))
    .unwrap();
    assert!(grouping.rejected.is_empty());
    assert_eq!(
        sorted_entries(grouping.index),
        vec![
            ("flask".to_string(), keys(&["flask-1.0.whl"])),
            ("requests".to_string(), keys(&["requests-2.1-py3.whl", "Requests-2.0-py3.whl"])),
        ]
    );
}

#[test]
fn grouping_keeps_listing_order_within_a_package() {
    let grouping = group_keys(&keys(&[
        "test/a/a-3.whl",
        "test/b/b-1.whl",
        "test/a/a-1.whl",
        "test/a/A-2.whl",
    ]))
    .unwrap();
    assert_eq!(
        sorted_entries(grouping.index),
        vec![
            ("a".to_string(), keys(&["a-3.whl", "a-1.whl", "A-2.whl"])),
            ("b".to_string(), keys(&["b-1.whl"])),
        ]
    );
}

#[test]
fn grouping_passes_over_keys_without_marker() {
    let with_others = group_keys(&keys(&[
        "test/index.html",
        "test/a/a-1.whl",
        "test/a/index.html",
        "test/a/a-1.tar.gz",
        "test/b/b-1.whl",
    ]))
    .unwrap();
    let wheels_only = group_keys(&keys(&["test/a/a-1.whl", "test/b/b-1.whl"])).unwrap();
    assert_eq!(with_others.rejected, wheels_only.rejected);
    let entries = sorted_entries(with_others.index);
    assert_eq!(entries, sorted_entries(wheels_only.index));
    assert_eq!(
        entries,
        vec![("a".to_string(), keys(&["a-1.whl"])), ("b".to_string(), keys(&["b-1.whl"]))]
    );
}

#[test]
fn grouping_records_malformed_keys_and_goes_on() {
    let grouping =
        group_keys(&keys(&["test/a/a-1.whl", "test/nodash.whl", "test/b/b-1.whl"])).unwrap();
    assert_eq!(
        grouping.rejected,
        vec![MalformedFilenameError { filename: "test/nodash.whl".to_string() }]
    );
    assert_eq!(
        sorted_entries(grouping.index),
        vec![("a".to_string(), keys(&["a-1.whl"])), ("b".to_string(), keys(&["b-1.whl"]))]
    );
}

#[test]
fn package_index_appends_to_a_package_or_starts_one() {
    let mut index = PackageIndex::new();
    index.insert("a".to_string(), "a-1.whl".to_string());
    index.insert("b".to_string(), "b-1.whl".to_string());
    index.insert("a".to_string(), "a-2.whl".to_string());
    index.insert("a".to_string(), "a-1.whl".to_string());
    assert_eq!(
        sorted_entries(index),
        vec![
            ("a".to_string(), keys(&["a-1.whl", "a-2.whl", "a-1.whl"])),
            ("b".to_string(), keys(&["b-1.whl"])),
        ]
    );
    assert!(PackageIndex::new().into_entries().is_empty());
}

#[test]
fn empty_listing_gives_only_an_empty_root_page() {
    let site = create_indexes("test", &Vec::new()).unwrap();
    assert!(site.names.is_empty());
    assert!(site.packages.is_empty());
    assert!(site.rejected.is_empty());
    assert_eq!(
        site.root,
        Page {
            key: "test/index.html".to_string(),
            content_type: "text/html".to_string(),
            body: format!("{}{}", PAGE_HEADER, PAGE_FOOTER),
        }
    );
}

#[test]
fn index_has_a_root_page_and_one_page_for_each_package() {
    let site = create_indexes(
        "test",
        &keys(&[
            "test/flask/flask-1.0.whl",
            "test/index.html",
            "test/requests/Requests-2.0-py3.whl",
            "test/requests/index.html",
            "test/requests/requests-2.1-py3.whl",
        ]),
    )
    .unwrap();
    let mut names = site.names.clone();
    names.sort();
    assert_eq!(names, keys(&["flask", "requests"]));
    assert_eq!(site.packages.len(), 2);
    assert!(site.rejected.is_empty());

    assert_eq!(site.root.key, "test/index.html");
    assert_eq!(site.root.content_type, "text/html");
    assert_eq!(
        link_lines(&site.root.body),
        keys(&[
            "<a href=\"/test/flask/\">flask/</a>",
            "<a href=\"/test/requests/\">requests/</a>",
        ])
    );

    assert_eq!(
        *page_for(&site, "flask"),
        Page {
            key: "test/flask/index.html".to_string(),
            content_type: "text/html".to_string(),
            body: format!(
                "{}\n<a href=\"/test/flask/flask-1.0.whl\">flask-1.0.whl</a>{}",
                PAGE_HEADER, PAGE_FOOTER
            ),
        }
    );
    assert_eq!(
        *page_for(&site, "requests"),
        Page {
            key: "test/requests/index.html".to_string(),
            content_type: "text/html".to_string(),
            body: format!(
                "{}\n<a href=\"/test/requests/Requests-2.0-py3.whl\">Requests-2.0-py3.whl</a>\n<a href=\"/test/requests/requests-2.1-py3.whl\">requests-2.1-py3.whl</a>{}",
                PAGE_HEADER, PAGE_FOOTER
            ),
        }
    );
}

#[test]
fn root_page_follows_the_order_of_names() {
    let site = create_indexes("p", &keys(&["p/a/a-1.whl", "p/b/b-1.whl", "p/c/c-1.whl"])).unwrap();
    let mut expected = PAGE_HEADER.to_string();
    for name in &site.names {
        expected.push_str(&format!("\n<a href=\"/p/{}/\">{}/</a>", name, name));
    }
    expected.push_str(PAGE_FOOTER);
    assert_eq!(site.root.body, expected);
    for (name, page) in site.names.iter().zip(site.packages.iter()) {
        assert_eq!(page.key, format!("p/{}/index.html", name));
    }
}

#[test]
fn index_reports_malformed_keys_beside_the_pages() {
    let site = create_indexes("test", &keys(&["test/nodash.whl", "test/a/a-1.whl"])).unwrap();
    assert_eq!(
        site.rejected,
        vec![MalformedFilenameError { filename: "test/nodash.whl".to_string() }]
    );
    assert_eq!(site.names, keys(&["a"]));
    assert_eq!(site.packages.len(), 1);
}

#[test]
fn indexing_again_gives_the_same_pages() {
    let listing = keys(&[
        "test/flask/flask-1.0.whl",
        "test/requests/Requests-2.0-py3.whl",
        "test/requests/requests-2.1-py3.whl",
        "test/numpy/Numpy-1.2-cp39.whl",
    ]);
    let first = create_indexes("test", &listing).unwrap();

    let mut later = listing.clone();
    later.push(first.root.key.clone());
    for page in &first.packages {
        later.push(page.key.clone());
    }
    later.sort();
    let second = create_indexes("test", &later).unwrap();

    assert_eq!(first.rejected, second.rejected);
    assert_eq!(first.root.key, second.root.key);
    assert_eq!(link_lines(&first.root.body), link_lines(&second.root.body));
    assert_eq!(first.names.len(), second.names.len());
    for name in &first.names {
        assert_eq!(page_for(&first, name), page_for(&second, name));
    }
    if first.names == second.names {
        assert_eq!(first, second);
    }
}
