use lndev_site::collection::build_collection;

const ORIGIN: &str = "https://lndev.nl";

fn content(title: &str, date: &str) -> String {
    [
        "---".to_string(),
        format!("title: {}", title),
        "summary: S".to_string(),
        "cover:".to_string(),
        "  image: /i.png".to_string(),
        format!("date: \"{}\"", date),
        "tags: []".to_string(),
        "---".to_string(),
        "Body.".to_string(),
    ]
    .join("\n")
}

#[test]
fn collection_sorts_by_date_descending() {
    let files = vec![
        ("posts/a.md".to_string(), content("A", "2023-01-01")),
        ("posts/b.md".to_string(), content("B", "2024-06-15")),
        ("posts/c.md".to_string(), content("C", "2023-06-01")),
    ];
    let posts = build_collection(ORIGIN, &files).unwrap();
    let dates: Vec<&str> = posts.iter().map(|p| p.matter.date.as_str()).collect();
    assert_eq!(dates, vec!["2024-06-15", "2023-06-01", "2023-01-01"]);
}

#[test]
fn collection_sort_is_stable_on_equal_dates() {
    let files = vec![
        ("posts/first.md".to_string(), content("First", "2024-01-01")),
        ("posts/newer.md".to_string(), content("Newer", "2024-06-15")),
        ("posts/second.md".to_string(), content("Second", "2024-01-01")),
    ];
    let posts = build_collection(ORIGIN, &files).unwrap();
    let titles: Vec<&str> = posts.iter().map(|p| p.matter.title.as_str()).collect();
    assert_eq!(titles, vec!["Newer", "First", "Second"]);
}

#[test]
fn collection_fails_fast_on_bad_file() {
    let bad = "---\nsummary: no title here\n---\nBody.".to_string();
    let no_matter = "no front matter at all".to_string();
    let files = vec![
        ("posts/good.md".to_string(), content("Good", "2024-01-01")),
        ("posts/bad.md".to_string(), bad),
        ("posts/worse.md".to_string(), no_matter),
    ];
    // The error carried is the first failing file's: a missing title, not
    // the later file's missing front matter.
    assert_eq!(
        build_collection(ORIGIN, &files).err(),
        Some(lndev_site::matter::BuildError::MissingTitle)
    );
}

#[test]
fn empty_collection_builds() {
    let files: Vec<(String, String)> = vec![];
    let posts = build_collection(ORIGIN, &files).unwrap();
    assert!(posts.is_empty());
}

#[test]
fn collection_pages_keep_invariants() {
    let files = vec![
        ("posts/a.md".to_string(), content("A", "2023-01-01")),
        ("drafts/deep/b.md".to_string(), content("B", "2024-06-15")),
    ];
    let posts = build_collection(ORIGIN, &files).unwrap();
    for p in &posts {
        assert!(p.path.starts_with('/'));
        assert_eq!(p.full_url, format!("{}{}", ORIGIN, p.path));
    }
    assert_eq!(posts[0].path, "/drafts/deep/b");
    assert_eq!(posts[1].path, "/posts/a");
}
