use lndev_site::output::{minify_html, prepare_output};
use lndev_site::paths::is_html_path;

const SAMPLE_HTML: &str = "<!DOCTYPE html>\n<html>\n  <head>\n    <title>t</title>\n  </head>\n  <body>\n    <p>Hello   world</p>\n  </body>\n</html>\n";

#[test]
fn minify_is_idempotent_on_plain_html() {
    // A fragment without the constructs the minifier treats structurally
    // (<html>/<head> tag omission): minifying twice equals minifying once.
    let fragment = "<div>\n  <p>Hello   world</p>\n  <em>x</em>\n</div>\n";
    let once = minify_html(fragment.as_bytes());
    let twice = minify_html(&once);
    assert_eq!(once, twice);
}

#[test]
fn minify_keeps_doctype_and_closing_tags() {
    let out = minify_html(SAMPLE_HTML.as_bytes());
    let text = String::from_utf8(out).unwrap();
    assert!(text.to_lowercase().starts_with("<!doctype html>"));
    assert!(text.contains("</p>"));
    assert!(text.contains("</body>"));
}

#[test]
fn non_html_output_is_byte_identical() {
    let bytes = b"body { color: #fff; }\n".to_vec();
    assert_eq!(prepare_output("assets/style.css", bytes.clone()), bytes);
    let data = vec![0u8, 159, 146, 150];
    assert_eq!(prepare_output("files/blob.bin", data.clone()), data);
}

#[test]
fn html_output_is_minified() {
    let bytes = SAMPLE_HTML.as_bytes().to_vec();
    let written = prepare_output("blog/index.html", bytes.clone());
    assert_eq!(written, minify_html(SAMPLE_HTML.as_bytes()));
    assert_ne!(written, bytes);
}

#[test]
fn html_extension_detection() {
    assert!(is_html_path("a/index.html"));
    assert!(is_html_path("index.html"));
    assert!(is_html_path("a/b.x.html"));
    assert!(!is_html_path("a/style.css"));
    assert!(!is_html_path("a/.html"));
    assert!(!is_html_path("html"));
    assert!(!is_html_path("a/page.HTML"));
}
