//! Front matter: splitting a content file into a front-matter block and a
//! Markdown body, and decoding the block into the typed record every page
//! needs. The split and the YAML decoding are delegated to `gray_matter`;
//! the field extraction and its fail-fast error reporting are verified.

use vstd::prelude::*;

verus! {

/// Declares `gray_matter::Pod`, the parser's polyglot value for a decoded
/// front-matter block, so parsed blocks can flow through verified code.
#[verifier::external_type_specification]
#[verifier::external_body]
pub struct ExPod(gray_matter::Pod);

/// Whether `gray_matter` finds a front-matter block in the given text.
pub uninterp spec fn matter_found(s: Seq<char>) -> bool;

/// The body `gray_matter` returns for the given text: the input with the
/// front-matter block and its delimiters stripped.
pub uninterp spec fn matter_body(s: Seq<char>) -> Seq<char>;

/// The string value of a top-level front-matter field, when the field is
/// present and holds a string.
pub uninterp spec fn pod_str_field(p: gray_matter::Pod, key: Seq<char>) -> Option<Seq<char>>;

/// The string value of a field nested one level down, when the outer field is
/// a table and the inner field holds a string.
pub uninterp spec fn pod_nested_str_field(
    p: gray_matter::Pod,
    outer: Seq<char>,
    inner: Seq<char>,
) -> Option<Seq<char>>;

/// The values of a top-level front-matter field that holds a list, when every
/// element of the list is a string.
pub uninterp spec fn pod_str_list_field(p: gray_matter::Pod, key: Seq<char>) -> Option<
    Seq<Seq<char>>,
>;

/// Whether a top-level front-matter field is present at all, whatever it
/// holds.
pub uninterp spec fn pod_has_field(p: gray_matter::Pod, key: Seq<char>) -> bool;

/// The `title` string of the given text's front matter, when present.
pub uninterp spec fn matter_title(s: Seq<char>) -> Option<Seq<char>>;

/// The `summary` string of the given text's front matter, when present.
pub uninterp spec fn matter_summary(s: Seq<char>) -> Option<Seq<char>>;

/// The `cover.image` string of the given text's front matter, when present.
pub uninterp spec fn matter_cover_image(s: Seq<char>) -> Option<Seq<char>>;

/// The `date` string of the given text's front matter, when present.
pub uninterp spec fn matter_date(s: Seq<char>) -> Option<Seq<char>>;

/// The `modified` string of the given text's front matter, when present and
/// a string.
pub uninterp spec fn matter_modified(s: Seq<char>) -> Option<Seq<char>>;

/// Whether the given text's front matter has a `modified` field at all.
pub uninterp spec fn matter_has_modified(s: Seq<char>) -> bool;

/// The `tags` strings of the given text's front matter, when present and all
/// strings.
pub uninterp spec fn matter_tags(s: Seq<char>) -> Option<Seq<Seq<char>>>;

/// The parsed block `p` carries exactly the fields that the text `s` decodes
/// to: the parse is deterministic, so each field read of its result is a
/// function of the text alone.
pub open spec fn pod_matches_text(p: gray_matter::Pod, s: Seq<char>) -> bool {
    &&& pod_str_field(p, "title"@) == matter_title(s)
    &&& pod_str_field(p, "summary"@) == matter_summary(s)
    &&& pod_nested_str_field(p, "cover"@, "image"@) == matter_cover_image(s)
    &&& pod_str_field(p, "date"@) == matter_date(s)
    &&& pod_str_field(p, "modified"@) == matter_modified(s)
    &&& pod_has_field(p, "modified"@) == matter_has_modified(s)
    &&& pod_str_list_field(p, "tags"@) == matter_tags(s)
}

/// Relies on `gray_matter::Matter::<YAML>::parse`: splits the input at the
/// `---` delimiters, returning the decoded front matter and the remaining
/// body, or `None` when no front matter is found or the block does not parse.
/// The parse is deterministic in the input, so the returned block's fields
/// are tied to the input text through `pod_matches_text`.
#[verifier::external_body]
fn matter_parse(input: &str) -> (r: Option<(gray_matter::Pod, String)>)
    ensures
        r is Some <==> matter_found(input@),
        r matches Some(v) ==> v.1@ == matter_body(input@),
        r matches Some(v) ==> pod_str_field(v.0, "title"@) == matter_title(input@),
        r matches Some(v) ==> pod_str_field(v.0, "summary"@) == matter_summary(input@),
        r matches Some(v) ==> pod_nested_str_field(v.0, "cover"@, "image"@) == matter_cover_image(
            input@,
        ),
        r matches Some(v) ==> pod_str_field(v.0, "date"@) == matter_date(input@),
        r matches Some(v) ==> pod_str_field(v.0, "modified"@) == matter_modified(input@),
        r matches Some(v) ==> pod_has_field(v.0, "modified"@) == matter_has_modified(input@),
        r matches Some(v) ==> pod_str_list_field(v.0, "tags"@) == matter_tags(input@),
{
    match gray_matter::Matter::<gray_matter::engine::YAML>::new().parse::<gray_matter::Pod>(
        input,
    ) {
        Result::Ok(e) => e.data.map(|d| (d, e.content)),
        Result::Err(_) => None,
    }
}

/// Relies on `Pod::as_hashmap`, `HashMap::get` and `Pod::as_string`: the
/// string value of a top-level field, `None` when the field is absent or not
/// a string.
#[verifier::external_body]
fn pod_get_str(p: &gray_matter::Pod, key: &str) -> (r: Option<String>)
    ensures
        r.deep_view() == pod_str_field(*p, key@),
        r is Some ==> pod_has_field(*p, key@),
{
    p.as_hashmap().ok().and_then(|h| h.get(key).and_then(|v| v.as_string().ok()))
}

/// Relies on `Pod::as_hashmap` and `HashMap::contains_key`: whether a
/// top-level field is present.
#[verifier::external_body]
fn pod_contains(p: &gray_matter::Pod, key: &str) -> (r: bool)
    ensures
        r == pod_has_field(*p, key@),
{
    match p.as_hashmap() {
        Result::Ok(h) => h.contains_key(key),
        Result::Err(_) => false,
    }
}

/// Relies on `Pod::as_hashmap`, `HashMap::get` and `Pod::as_string`: the
/// string value of a field one level down, `None` when either level is
/// missing or of the wrong shape.
#[verifier::external_body]
fn pod_get_nested_str(p: &gray_matter::Pod, outer: &str, inner: &str) -> (r: Option<String>)
    ensures
        r.deep_view() == pod_nested_str_field(*p, outer@, inner@),
{
    p.as_hashmap().ok().and_then(|h| h.get(outer).and_then(|o| o.as_hashmap().ok())).and_then(
        |h| h.get(inner).and_then(|v| v.as_string().ok()),
    )
}

/// Relies on `Pod::as_hashmap`, `HashMap::get`, `Pod::as_vec` and
/// `Pod::as_string`: the elements of a list-valued field, `None` when the
/// field is absent, not a list, or holds a non-string element.
#[verifier::external_body]
fn pod_get_str_list(p: &gray_matter::Pod, key: &str) -> (r: Option<Vec<String>>)
    ensures
        r.deep_view() == pod_str_list_field(*p, key@),
{
    let items = p.as_hashmap().ok().and_then(|h| h.get(key).and_then(|v| v.as_vec().ok()))?;
    items.iter().map(|v| v.as_string().ok()).collect()
}

/// The decoded front matter of one content file.
pub struct FrontMatter {
    pub title: String,
    pub summary: String,
    pub cover_image: String,
    pub date: String,
    pub modified: Option<String>,
    pub tags: Vec<String>,
}

/// The failures that abort a build, each carried unchanged to the driver.
#[derive(Debug, Clone, Copy, PartialEq, Eq)]
pub enum BuildError {
    /// The file has no front-matter block, or the block does not parse.
    NoFrontMatter,
    /// `title` is absent or not a string.
    MissingTitle,
    /// `summary` is absent or not a string.
    MissingSummary,
    /// `cover.image` is absent or not a string.
    MissingCoverImage,
    /// `date` is absent or not a string.
    MissingDate,
    /// `modified` is present but not a string.
    InvalidModified,
    /// `tags` is absent, not a list, or holds a non-string element.
    MissingTags,
}

pub open spec fn title_ok(p: gray_matter::Pod) -> bool {
    pod_str_field(p, "title"@) is Some
}

pub open spec fn summary_ok(p: gray_matter::Pod) -> bool {
    pod_str_field(p, "summary"@) is Some
}

pub open spec fn cover_ok(p: gray_matter::Pod) -> bool {
    pod_nested_str_field(p, "cover"@, "image"@) is Some
}

pub open spec fn date_ok(p: gray_matter::Pod) -> bool {
    pod_str_field(p, "date"@) is Some
}

pub open spec fn modified_ok(p: gray_matter::Pod) -> bool {
    pod_has_field(p, "modified"@) ==> pod_str_field(p, "modified"@) is Some
}

pub open spec fn tags_ok(p: gray_matter::Pod) -> bool {
    pod_str_list_field(p, "tags"@) is Some
}

/// All required fields are present and well typed.
pub open spec fn decode_ok(p: gray_matter::Pod) -> bool {
    title_ok(p) && summary_ok(p) && cover_ok(p) && date_ok(p) && modified_ok(p) && tags_ok(p)
}

/// The record `fm` holds exactly the fields of `p`.
pub open spec fn fm_matches(p: gray_matter::Pod, fm: FrontMatter) -> bool {
    &&& Some(fm.title@) == pod_str_field(p, "title"@)
    &&& Some(fm.summary@) == pod_str_field(p, "summary"@)
    &&& Some(fm.cover_image@) == pod_nested_str_field(p, "cover"@, "image"@)
    &&& Some(fm.date@) == pod_str_field(p, "date"@)
    &&& fm.modified.deep_view() == (if pod_has_field(p, "modified"@) {
        pod_str_field(p, "modified"@)
    } else {
        None::<Seq<char>>
    })
    &&& Some(fm.tags.deep_view()) == pod_str_list_field(p, "tags"@)
}

/// The error a decode of `p` fails with: the first absent or ill-typed
/// field, in declaration order (meaningful only when `!decode_ok(p)`).
pub open spec fn spec_decode_err(p: gray_matter::Pod) -> BuildError {
    if !title_ok(p) {
        BuildError::MissingTitle
    } else if !summary_ok(p) {
        BuildError::MissingSummary
    } else if !cover_ok(p) {
        BuildError::MissingCoverImage
    } else if !date_ok(p) {
        BuildError::MissingDate
    } else if !modified_ok(p) {
        BuildError::InvalidModified
    } else {
        BuildError::MissingTags
    }
}

/// Decodes the front-matter fields out of a parsed block, failing on the
/// first absent or ill-typed field, in declaration order.
pub fn decode_front_matter(p: &gray_matter::Pod) -> (r: Result<FrontMatter, BuildError>)
    ensures
        r is Ok <==> decode_ok(*p),
        r matches Ok(fm) ==> fm_matches(*p, fm),
        r matches Err(e) ==> e == spec_decode_err(*p),
{
    let title = match pod_get_str(p, "title") {
        Some(t) => t,
        None => {
            return Err(BuildError::MissingTitle);
        },
    };
    let summary = match pod_get_str(p, "summary") {
        Some(s) => s,
        None => {
            return Err(BuildError::MissingSummary);
        },
    };
    let cover_image = match pod_get_nested_str(p, "cover", "image") {
        Some(c) => c,
        None => {
            return Err(BuildError::MissingCoverImage);
        },
    };
    let date = match pod_get_str(p, "date") {
        Some(d) => d,
        None => {
            return Err(BuildError::MissingDate);
        },
    };
    let modified = if pod_contains(p, "modified") {
        match pod_get_str(p, "modified") {
            Some(m) => Some(m),
            None => {
                return Err(BuildError::InvalidModified);
            },
        }
    } else {
        None
    };
    let tags = match pod_get_str_list(p, "tags") {
        Some(t) => t,
        None => {
            return Err(BuildError::MissingTags);
        },
    };
    Ok(FrontMatter { title, summary, cover_image, date, modified, tags })
}

/// All required fields of the given text's front matter are present and
/// well typed.
pub open spec fn matter_decode_ok(s: Seq<char>) -> bool {
    &&& matter_title(s) is Some
    &&& matter_summary(s) is Some
    &&& matter_cover_image(s) is Some
    &&& matter_date(s) is Some
    &&& (matter_has_modified(s) ==> matter_modified(s) is Some)
    &&& matter_tags(s) is Some
}

/// The error that parsing the given text fails with: a missing block first,
/// then the first absent or ill-typed field, in declaration order
/// (meaningful only when `!matter_found(s) || !matter_decode_ok(s)`).
pub open spec fn matter_decode_err(s: Seq<char>) -> BuildError {
    if !matter_found(s) {
        BuildError::NoFrontMatter
    } else if matter_title(s) is None {
        BuildError::MissingTitle
    } else if matter_summary(s) is None {
        BuildError::MissingSummary
    } else if matter_cover_image(s) is None {
        BuildError::MissingCoverImage
    } else if matter_date(s) is None {
        BuildError::MissingDate
    } else if matter_has_modified(s) && matter_modified(s) is None {
        BuildError::InvalidModified
    } else {
        BuildError::MissingTags
    }
}

/// The record `fm` holds exactly the fields that the text `s` decodes to.
pub open spec fn fm_of_text(s: Seq<char>, fm: FrontMatter) -> bool {
    &&& Some(fm.title@) == matter_title(s)
    &&& Some(fm.summary@) == matter_summary(s)
    &&& Some(fm.cover_image@) == matter_cover_image(s)
    &&& Some(fm.date@) == matter_date(s)
    &&& fm.modified.deep_view() == (if matter_has_modified(s) {
        matter_modified(s)
    } else {
        None::<Seq<char>>
    })
    &&& Some(fm.tags.deep_view()) == matter_tags(s)
}

/// Splits a content file into its decoded front matter and its body, failing
/// when there is no front-matter block.
pub fn split_content(input: &str) -> (r: Result<(gray_matter::Pod, String), BuildError>)
    ensures
        r is Ok <==> matter_found(input@),
        r matches Ok(v) ==> v.1@ == matter_body(input@) && pod_matches_text(v.0, input@),
        r matches Err(e) ==> e == BuildError::NoFrontMatter,
{
    match matter_parse(input) {
        Some(v) => Ok(v),
        None => Err(BuildError::NoFrontMatter),
    }
}

} // verus!
