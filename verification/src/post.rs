//! The page entity: one content file mapped to one published route, with
//! every derived field pinned down — route path, canonical URL, cover-image
//! URL, rendered body, reading-time label and the social-share links.

use vstd::prelude::*;
use crate::encode::{enc, encode_component};
use crate::matter::{
    decode_ok, decode_front_matter, fm_matches, fm_of_text, matter_body, matter_decode_err,
    matter_decode_ok, matter_found, spec_decode_err, split_content, BuildError, FrontMatter,
};
use crate::paths::{has_md_ext, route_path, spec_route_path};
use crate::text::{concat2, dec_str, join_comma, spec_join_comma, u64_to_dec};

verus! {

/// What the Markdown converter returns for a given body. The result depends
/// on the input text alone.
pub uninterp spec fn html_of(md: Seq<char>) -> Seq<char>;

/// Relies on `markdown::to_html`: the CommonMark rendering of the body, a
/// function of the input text alone.
#[verifier::external_body]
fn markdown_to_html(md: &str) -> (r: String)
    ensures
        r@ == html_of(md@),
{
    markdown::to_html(md)
}

/// What the reading-time estimator returns for a given text, in seconds. The
/// result depends on the input text alone.
pub uninterp spec fn read_seconds_of(text: Seq<char>) -> u64;

/// Relies on `estimated_read_time::text` with the default options (whose
/// `build` always succeeds: the default difficulty lies in its valid range).
#[verifier::external_body]
fn estimate_read_seconds(text: &str) -> (r: u64)
    ensures
        r == read_seconds_of(text@),
{
    estimated_read_time::text(
        text,
        &estimated_read_time::Options::new().build().unwrap(),
    ).seconds()
}

/// The reading-time label: seconds when the estimate is under a minute,
/// whole minutes (fractional minutes discarded) otherwise.
pub open spec fn spec_reading_time(seconds: u64) -> Seq<char> {
    if seconds < 60 {
        dec_str(seconds as nat) + " sec read"@
    } else {
        dec_str((seconds / 60) as nat) + " min read"@
    }
}

/// Formats an estimated duration, e.g. `45` as `"45 sec read"` and `185` as
/// `"3 min read"`.
pub fn format_reading_time(seconds: u64) -> (r: String)
    ensures
        r@ == spec_reading_time(seconds),
{
    if seconds < 60 {
        let mut s = u64_to_dec(seconds);
        s.append(" sec read");
        s
    } else {
        let mut s = u64_to_dec(seconds / 60);
        s.append(" min read");
        s
    }
}

pub open spec fn spec_twitter_url(t: Seq<char>, u: Seq<char>, g: Seq<char>) -> Seq<char> {
    "https://x.com/intent/tweet/?text="@ + t + "&url="@ + u + "&hashtags="@ + g
}

pub open spec fn spec_facebook_url(u: Seq<char>) -> Seq<char> {
    "https://facebook.com/sharer/sharer.php?u="@ + u
}

pub open spec fn spec_linkedin_url(u: Seq<char>, t: Seq<char>) -> Seq<char> {
    "https://www.linkedin.com/shareArticle?mini=true&url="@ + u + "&title="@ + t + "&summary="@
        + t + "&source="@ + u
}

pub open spec fn spec_reddit_url(u: Seq<char>, t: Seq<char>) -> Seq<char> {
    "https://reddit.com/submit?url="@ + u + "&title="@ + t
}

pub open spec fn spec_whatsapp_url(t: Seq<char>, u: Seq<char>) -> Seq<char> {
    "https://api.whatsapp.com/send?text="@ + t + "%20-%20"@ + u
}

pub open spec fn spec_telegram_url(t: Seq<char>, u: Seq<char>) -> Seq<char> {
    "https://telegram.me/share/url?text="@ + t + "&url="@ + u
}

/// Every share entry is labelled "Share `<title>` on `<platform>`".
pub open spec fn spec_share_label(title: Seq<char>, platform: Seq<char>) -> Seq<char> {
    "Share "@ + title + " on "@ + platform
}

/// One named share entry: the target URL and its display label.
pub struct Social {
    pub url: String,
    pub label: String,
}

/// One content file mapped to one published route, fully derived.
pub struct Post {
    pub matter: FrontMatter,
    pub page_title: String,
    pub content: String,
    pub path: String,
    pub full_url: String,
    pub full_image_url: String,
    pub reading_time: String,
    pub twitter: Social,
    pub linkedin: Social,
    pub reddit: Social,
    pub facebook: Social,
    pub whatsapp: Social,
    pub telegram: Social,
}

/// The invariants of a constructed page: the route is path-rooted, the
/// canonical and cover URLs are the origin concatenated with the route and
/// the cover path, the page title carries the site prefix, and every share
/// entry follows its platform's fixed template over the percent-encoded
/// title, canonical URL and comma-joined tags.
pub open spec fn post_wf(origin: Seq<char>, post: Post) -> bool {
    let t = enc(post.matter.title@);
    let u = enc(post.full_url@);
    let g = enc(spec_join_comma(post.matter.tags.deep_view()));
    &&& post.path@.len() > 0 && post.path@[0] == '/'
    &&& post.full_url@ == origin + post.path@
    &&& post.full_image_url@ == origin + post.matter.cover_image@
    &&& post.page_title@ == "lndev - "@ + post.matter.title@
    &&& post.twitter.url@ == spec_twitter_url(t, u, g)
    &&& post.facebook.url@ == spec_facebook_url(u)
    &&& post.linkedin.url@ == spec_linkedin_url(u, t)
    &&& post.reddit.url@ == spec_reddit_url(u, t)
    &&& post.whatsapp.url@ == spec_whatsapp_url(t, u)
    &&& post.telegram.url@ == spec_telegram_url(t, u)
    &&& post.twitter.label@ == spec_share_label(post.matter.title@, "X"@)
    &&& post.facebook.label@ == spec_share_label(post.matter.title@, "Facebook"@)
    &&& post.linkedin.label@ == spec_share_label(post.matter.title@, "LinkedIn"@)
    &&& post.reddit.label@ == spec_share_label(post.matter.title@, "Reddit"@)
    &&& post.whatsapp.label@ == spec_share_label(post.matter.title@, "WhatsApp"@)
    &&& post.telegram.label@ == spec_share_label(post.matter.title@, "Telegram"@)
}

fn share_label(title: &str, platform: &str) -> (r: String)
    ensures
        r@ == spec_share_label(title@, platform@),
{
    let mut r = "Share ".to_owned();
    r.append(title);
    r.append(" on ");
    r.append(platform);
    r
}

/// Builds the page record from a decoded front-matter block and the body, a
/// verified function of every value the outside parsers may hand back.
pub fn assemble_post(origin: &str, rel_path: &str, pod: &gray_matter::Pod, body: &str) -> (r:
    Result<Post, BuildError>)
    requires
        has_md_ext(rel_path@),
    ensures
        r is Ok <==> decode_ok(*pod),
        r matches Err(e) ==> e == spec_decode_err(*pod),
        r matches Ok(post) ==> {
            &&& fm_matches(*pod, post.matter)
            &&& post.path@ == spec_route_path(rel_path@)
            &&& post.content@ == html_of(body@)
            &&& post.reading_time@ == spec_reading_time(read_seconds_of(body@))
            &&& post_wf(origin@, post)
        },
{
    let matter = match decode_front_matter(pod) {
        Ok(m) => m,
        Err(e) => {
            return Err(e);
        },
    };
    let path = route_path(rel_path);
    let full_url = concat2(origin, path.as_str());
    let full_image_url = concat2(origin, matter.cover_image.as_str());
    let content = markdown_to_html(body);
    let reading_time = format_reading_time(estimate_read_seconds(body));
    let page_title = concat2("lndev - ", matter.title.as_str());
    let encoded_title = encode_component(matter.title.as_str());
    let encoded_url = encode_component(full_url.as_str());
    let joined_tags = join_comma(&matter.tags);
    let encoded_tags = encode_component(joined_tags.as_str());

    let mut twitter_url = "https://x.com/intent/tweet/?text=".to_owned();
    twitter_url.append(encoded_title.as_str());
    twitter_url.append("&url=");
    twitter_url.append(encoded_url.as_str());
    twitter_url.append("&hashtags=");
    twitter_url.append(encoded_tags.as_str());

    let mut facebook_url = "https://facebook.com/sharer/sharer.php?u=".to_owned();
    facebook_url.append(encoded_url.as_str());

    let mut linkedin_url = "https://www.linkedin.com/shareArticle?mini=true&url=".to_owned();
    linkedin_url.append(encoded_url.as_str());
    linkedin_url.append("&title=");
    linkedin_url.append(encoded_title.as_str());
    linkedin_url.append("&summary=");
    linkedin_url.append(encoded_title.as_str());
    linkedin_url.append("&source=");
    linkedin_url.append(encoded_url.as_str());

    let mut reddit_url = "https://reddit.com/submit?url=".to_owned();
    reddit_url.append(encoded_url.as_str());
    reddit_url.append("&title=");
    reddit_url.append(encoded_title.as_str());

    let mut whatsapp_url = "https://api.whatsapp.com/send?text=".to_owned();
    whatsapp_url.append(encoded_title.as_str());
    whatsapp_url.append("%20-%20");
    whatsapp_url.append(encoded_url.as_str());

    let mut telegram_url = "https://telegram.me/share/url?text=".to_owned();
    telegram_url.append(encoded_title.as_str());
    telegram_url.append("&url=");
    telegram_url.append(encoded_url.as_str());

    let twitter = Social { url: twitter_url, label: share_label(matter.title.as_str(), "X") };
    let facebook = Social {
        url: facebook_url,
        label: share_label(matter.title.as_str(), "Facebook"),
    };
    let linkedin = Social {
        url: linkedin_url,
        label: share_label(matter.title.as_str(), "LinkedIn"),
    };
    let reddit = Social { url: reddit_url, label: share_label(matter.title.as_str(), "Reddit") };
    let whatsapp = Social {
        url: whatsapp_url,
        label: share_label(matter.title.as_str(), "WhatsApp"),
    };
    let telegram = Social {
        url: telegram_url,
        label: share_label(matter.title.as_str(), "Telegram"),
    };

    Ok(
        Post {
            matter,
            page_title,
            content,
            path,
            full_url,
            full_image_url,
            reading_time,
            twitter,
            linkedin,
            reddit,
            facebook,
            whatsapp,
            telegram,
        },
    )
}

/// Parses one content file into a fully populated page, or the first
/// failure: a missing front-matter block, then the first absent or ill-typed
/// front-matter field. Success is owed exactly on the texts whose front
/// matter is found and decodes.
pub fn build_post(origin: &str, rel_path: &str, text: &str) -> (r: Result<Post, BuildError>)
    requires
        has_md_ext(rel_path@),
    ensures
        r is Ok <==> matter_found(text@) && matter_decode_ok(text@),
        r matches Err(e) ==> e == matter_decode_err(text@),
        r matches Ok(post) ==> {
            &&& fm_of_text(text@, post.matter)
            &&& post.path@ == spec_route_path(rel_path@)
            &&& post.content@ == html_of(matter_body(text@))
            &&& post.reading_time@ == spec_reading_time(read_seconds_of(matter_body(text@)))
            &&& post_wf(origin@, post)
        },
{
    let (pod, body) = match split_content(text) {
        Ok(v) => v,
        Err(e) => {
            return Err(e);
        },
    };
    assemble_post(origin, rel_path, &pod, body.as_str())
}

} // verus!
