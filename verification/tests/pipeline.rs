use lndev_site::encode::encode_component;
use lndev_site::matter::BuildError;
use lndev_site::paths::{is_md_path, route_path};
use lndev_site::post::{build_post, format_reading_time};
use lndev_site::text::{join_comma, lex_lt, u64_to_dec};

const ORIGIN: &str = "https://lndev.nl";

fn sample_content() -> String {
    [
        "---",
        "title: Hello World",
        "summary: A post about the lightning network",
        "cover:",
        "  image: /img/cover.png",
        "date: \"2024-06-15\"",
        "tags:",
        "  - lightning",
        "  - dev",
        "---",
        "Hello **world**, this is a body.",
    ]
    .join("\n")
}

#[test]
fn reading_time_seconds() {
    assert_eq!(format_reading_time(45), "45 sec read");
}

#[test]
fn reading_time_minutes_truncates() {
    assert_eq!(format_reading_time(185), "3 min read");
}

#[test]
fn reading_time_exact_minute() {
    assert_eq!(format_reading_time(60), "1 min read");
}

#[test]
fn reading_time_zero() {
    assert_eq!(format_reading_time(0), "0 sec read");
}

#[test]
fn decimal_rendering() {
    assert_eq!(u64_to_dec(0), "0");
    assert_eq!(u64_to_dec(7), "7");
    assert_eq!(u64_to_dec(10), "10");
    assert_eq!(u64_to_dec(185), "185");
    assert_eq!(u64_to_dec(1234567890), "1234567890");
}

#[test]
fn lex_compare_dates() {
    assert!(lex_lt("2023-01-01", "2024-06-15"));
    assert!(!lex_lt("2024-06-15", "2023-01-01"));
    assert!(!lex_lt("2023-01-01", "2023-01-01"));
}

#[test]
fn join_comma_tags() {
    let tags = vec!["a".to_string(), "b".to_string(), "c".to_string()];
    assert_eq!(join_comma(&tags), "a,b,c");
    let one = vec!["solo".to_string()];
    assert_eq!(join_comma(&one), "solo");
    let none: Vec<String> = vec![];
    assert_eq!(join_comma(&none), "");
}

#[test]
fn route_path_nested() {
    assert_eq!(route_path("posts/hello-world.md"), "/posts/hello-world");
}

#[test]
fn route_path_bare_file() {
    assert_eq!(route_path("hello.md"), "/hello");
}

#[test]
fn route_path_already_rooted() {
    assert_eq!(route_path("/abs/dir/x.md"), "/abs/dir/x");
}

#[test]
fn md_filter() {
    assert!(is_md_path("posts/a.md"));
    assert!(is_md_path("a.md"));
    assert!(!is_md_path("posts/a.html"));
    assert!(!is_md_path("posts/amd"));
    assert!(!is_md_path("posts/"));
}

#[test]
fn encode_space_and_punctuation() {
    assert_eq!(encode_component("Hello World!"), "Hello+World%21");
    assert_eq!(encode_component("a*b-c.d_e"), "a*b-c.d_e");
    assert_eq!(
        encode_component("https://lndev.nl/blog/hello"),
        "https%3A%2F%2Flndev.nl%2Fblog%2Fhello"
    );
}

#[test]
fn build_post_routes_and_urls() {
    let content = sample_content();
    let post = build_post(ORIGIN, "blog/hello.md", &content).unwrap();
    assert_eq!(post.path, "/blog/hello");
    assert_eq!(post.full_url, "https://lndev.nl/blog/hello");
    assert_eq!(post.full_image_url, "https://lndev.nl/img/cover.png");
    assert_eq!(post.page_title, "lndev - Hello World");
    assert_eq!(post.matter.title, "Hello World");
    assert_eq!(post.matter.summary, "A post about the lightning network");
    assert_eq!(post.matter.date, "2024-06-15");
    assert_eq!(post.matter.modified, None);
    assert_eq!(post.matter.tags, vec!["lightning".to_string(), "dev".to_string()]);
}

#[test]
fn build_post_share_links() {
    let content = sample_content();
    let post = build_post(ORIGIN, "blog/hello.md", &content).unwrap();
    let enc_url = "https%3A%2F%2Flndev.nl%2Fblog%2Fhello";
    assert_eq!(
        post.facebook.url,
        format!("https://facebook.com/sharer/sharer.php?u={}", enc_url)
    );
    assert_eq!(
        post.twitter.url,
        format!(
            "https://x.com/intent/tweet/?text=Hello+World&url={}&hashtags=lightning%2Cdev",
            enc_url
        )
    );
    assert_eq!(
        post.linkedin.url,
        format!(
            "https://www.linkedin.com/shareArticle?mini=true&url={}&title=Hello+World&summary=Hello+World&source={}",
            enc_url, enc_url
        )
    );
    assert_eq!(
        post.reddit.url,
        format!("https://reddit.com/submit?url={}&title=Hello+World", enc_url)
    );
    assert_eq!(
        post.whatsapp.url,
        format!("https://api.whatsapp.com/send?text=Hello+World%20-%20{}", enc_url)
    );
    assert_eq!(
        post.telegram.url,
        format!("https://telegram.me/share/url?text=Hello+World&url={}", enc_url)
    );
    assert_eq!(post.twitter.label, "Share Hello World on X");
    assert_eq!(post.facebook.label, "Share Hello World on Facebook");
    assert_eq!(post.linkedin.label, "Share Hello World on LinkedIn");
    assert_eq!(post.reddit.label, "Share Hello World on Reddit");
    assert_eq!(post.whatsapp.label, "Share Hello World on WhatsApp");
    assert_eq!(post.telegram.label, "Share Hello World on Telegram");
}

#[test]
fn build_post_body_and_reading_time() {
    let content = sample_content();
    let post = build_post(ORIGIN, "blog/hello.md", &content).unwrap();
    let parsed: gray_matter::ParsedEntity = gray_matter::Matter::<
        gray_matter::engine::YAML,
    >::new()
    .parse(&content)
    .unwrap();
    let body = parsed.content;
    assert_eq!(post.content, markdown::to_html(&body));
    assert_ne!(post.content, body);
    let opts = estimated_read_time::Options::new().build().unwrap();
    let secs = estimated_read_time::text(&body, &opts).seconds();
    let expected = if secs < 60 {
        format!("{} sec read", secs)
    } else {
        format!("{} min read", secs / 60)
    };
    assert_eq!(post.reading_time, expected);
}

#[test]
fn build_post_modified_field() {
    let content = [
        "---",
        "title: T",
        "summary: S",
        "cover:",
        "  image: /i.png",
        "date: \"2024-01-01\"",
        "modified: \"2024-02-02\"",
        "tags: []",
        "---",
        "Body.",
    ]
    .join("\n");
    let post = build_post(ORIGIN, "a.md", &content).unwrap();
    assert_eq!(post.matter.modified, Some("2024-02-02".to_string()));
    assert_eq!(post.matter.tags, Vec::<String>::new());
}

fn content_with(fields: &[&str]) -> String {
    let mut lines = vec!["---".to_string()];
    for f in fields {
        lines.push(f.to_string());
    }
    lines.push("---".to_string());
    lines.push("Body.".to_string());
    lines.join("\n")
}

#[test]
fn missing_title_fails_build() {
    let content = content_with(&[
        "summary: S",
        "cover:",
        "  image: /i.png",
        "date: \"2024-01-01\"",
        "tags: []",
    ]);
    let r = build_post(ORIGIN, "a.md", &content);
    assert_eq!(r.err(), Some(BuildError::MissingTitle));
}

#[test]
fn no_front_matter_fails_build() {
    let r = build_post(ORIGIN, "a.md", "Just a plain body with no front matter at all.");
    assert_eq!(r.err(), Some(BuildError::NoFrontMatter));
}

#[test]
fn missing_summary_fails_build() {
    let content = content_with(&[
        "title: T",
        "cover:",
        "  image: /i.png",
        "date: \"2024-01-01\"",
        "tags: []",
    ]);
    assert_eq!(build_post(ORIGIN, "a.md", &content).err(), Some(BuildError::MissingSummary));
}

#[test]
fn missing_cover_image_fails_build() {
    let content = content_with(&["title: T", "summary: S", "date: \"2024-01-01\"", "tags: []"]);
    assert_eq!(
        build_post(ORIGIN, "a.md", &content).err(),
        Some(BuildError::MissingCoverImage)
    );
}

#[test]
fn missing_date_fails_build() {
    let content = content_with(&["title: T", "summary: S", "cover:", "  image: /i.png", "tags: []"]);
    assert_eq!(build_post(ORIGIN, "a.md", &content).err(), Some(BuildError::MissingDate));
}

#[test]
fn invalid_modified_fails_build() {
    let content = content_with(&[
        "title: T",
        "summary: S",
        "cover:",
        "  image: /i.png",
        "date: \"2024-01-01\"",
        "modified: 5",
        "tags: []",
    ]);
    assert_eq!(build_post(ORIGIN, "a.md", &content).err(), Some(BuildError::InvalidModified));
}

#[test]
fn missing_tags_fails_build() {
    let content = content_with(&[
        "title: T",
        "summary: S",
        "cover:",
        "  image: /i.png",
        "date: \"2024-01-01\"",
    ]);
    assert_eq!(build_post(ORIGIN, "a.md", &content).err(), Some(BuildError::MissingTags));
}

#[test]
fn wrong_type_title_fails_build() {
    let content = content_with(&[
        "title: 42",
        "summary: S",
        "cover:",
        "  image: /i.png",
        "date: \"2024-01-01\"",
        "tags: []",
    ]);
    assert_eq!(build_post(ORIGIN, "a.md", &content).err(), Some(BuildError::MissingTitle));
}

#[test]
fn first_missing_field_reported() {
    let content = content_with(&["date: \"2024-01-01\"", "tags: []"]);
    assert_eq!(build_post(ORIGIN, "a.md", &content).err(), Some(BuildError::MissingTitle));
}
