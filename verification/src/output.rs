//! Preparation of output buffers: a buffer headed for an HTML target is
//! passed through the minifier with a fixed configuration, every other buffer
//! is left byte-identical.

use vstd::prelude::*;
use crate::paths::{is_html_path, spec_is_html_path};

verus! {

/// What the minifier returns for a given input, with the fixed configuration
/// below. The result depends on the input bytes alone.
pub uninterp spec fn minified_of(b: Seq<u8>) -> Seq<u8>;

/// Relies on `minify_html::minify` with a fixed configuration: closing tags
/// are kept, and the defaults leave the doctype unminified, keep required
/// quoting on attribute values, and keep the spaces between attributes.
#[verifier::external_body]
fn minify_call(contents: &[u8]) -> (r: Vec<u8>)
    ensures
        r@ == minified_of(contents@),
{
    let cfg = minify_html::Cfg { keep_closing_tags: true, ..minify_html::Cfg::default() };
    minify_html::minify(contents, &cfg)
}

/// Minifies an HTML buffer with the pipeline's fixed configuration.
pub fn minify_html(contents: &[u8]) -> (r: Vec<u8>)
    ensures
        r@ == minified_of(contents@),
{
    minify_call(contents)
}

/// Prepares a buffer for writing at `path`: minified when the target is an
/// HTML file, byte-identical otherwise.
pub fn prepare_output(path: &str, contents: Vec<u8>) -> (r: Vec<u8>)
    ensures
        spec_is_html_path(path@) ==> r@ == minified_of(contents@),
        !spec_is_html_path(path@) ==> r@ == contents@,
{
    if is_html_path(path) {
        minify_html(contents.as_slice())
    } else {
        contents
    }
}

} // verus!
