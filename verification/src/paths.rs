//! Derivation of routing data from content file paths: directory and base
//! name, the slug (base name with the content extension stripped), the
//! site-relative route path, and the extension test that decides whether an
//! output buffer is HTML.

use vstd::prelude::*;

verus! {

/// The index of the last `'/'` in `p`, or `-1` when there is none.
pub open spec fn last_slash_index(p: Seq<char>) -> int
    decreases p.len(),
{
    if p.len() == 0 {
        -1
    } else if p[p.len() - 1] == '/' {
        p.len() - 1
    } else {
        last_slash_index(p.drop_last())
    }
}

pub proof fn lemma_last_slash_index_range(p: Seq<char>)
    ensures
        -1 <= last_slash_index(p) < p.len(),
    decreases p.len(),
{
    if p.len() > 0 && p[p.len() - 1] != '/' {
        lemma_last_slash_index_range(p.drop_last());
    }
}

/// Everything after the last `'/'` (the whole path when there is none).
pub open spec fn spec_basename(p: Seq<char>) -> Seq<char> {
    p.skip(last_slash_index(p) + 1)
}

/// Everything before the last `'/'` (empty when there is none).
pub open spec fn spec_dirname(p: Seq<char>) -> Seq<char> {
    if last_slash_index(p) < 0 {
        Seq::empty()
    } else {
        p.take(last_slash_index(p))
    }
}

/// Whether the path's base name ends in the content extension `.md`.
pub open spec fn has_md_ext(p: Seq<char>) -> bool {
    let b = spec_basename(p);
    b.len() >= 3 && b[b.len() - 3] == '.' && b[b.len() - 2] == 'm' && b[b.len() - 1] == 'd'
}

/// The slug: the base name with the trailing `.md` stripped.
pub open spec fn spec_slug(p: Seq<char>) -> Seq<char> {
    let b = spec_basename(p);
    b.take(b.len() - 3)
}

/// The site-relative route path: the source file's directory joined with the
/// slug, given a leading `'/'` if the join does not already start with one.
pub open spec fn spec_route_path(p: Seq<char>) -> Seq<char> {
    let joined = spec_dirname(p) + seq!['/'] + spec_slug(p);
    if joined[0] == '/' {
        joined
    } else {
        seq!['/'] + joined
    }
}

/// Every route path starts with `'/'`.
pub proof fn lemma_route_path_rooted(p: Seq<char>)
    ensures
        spec_route_path(p).len() > 0,
        spec_route_path(p)[0] == '/',
{
    lemma_last_slash_index_range(p);
}

/// Whether the path names an HTML target: its base name is of the form
/// `<nonempty stem>.html`.
pub open spec fn spec_is_html_path(p: Seq<char>) -> bool {
    let b = spec_basename(p);
    b.len() >= 6 && b[b.len() - 5] == '.' && b[b.len() - 4] == 'h' && b[b.len() - 3] == 't' && b[
        b.len() - 2
    ] == 'm' && b[b.len() - 1] == 'l'
}

/// Splits a path into its directory part and base name.
pub fn split_dir_base(p: &str) -> (r: (String, String))
    ensures
        r.0@ == spec_dirname(p@),
        r.1@ == spec_basename(p@),
{
    let n = p.unicode_len();
    let mut i: usize = n;
    proof {
        assert(p@.take(n as int) =~= p@);
    }
    while i > 0
        invariant
            n == p@.len(),
            i <= n,
            last_slash_index(p@) == last_slash_index(p@.take(i as int)),
            forall|k: int| i <= k < n ==> p@[k] != '/',
        decreases i,
    {
        let c = p.get_char(i - 1);
        if c == '/' {
            proof {
                assert(p@.take(i as int)[i - 1] == p@[i - 1]);
                assert(last_slash_index(p@.take(i as int)) == i - 1);
                lemma_last_slash_index_range(p@);
            }
            let dir = p.substring_char(0, i - 1);
            let base = p.substring_char(i, n);
            proof {
                assert(dir@ =~= spec_dirname(p@));
                assert(base@ =~= spec_basename(p@));
            }
            return (dir.to_owned(), base.to_owned());
        }
        proof {
            assert(p@.take(i as int).drop_last() =~= p@.take(i as int - 1));
            assert(p@.take(i as int)[i - 1] == p@[i - 1]);
        }
        i = i - 1;
    }
    proof {
        assert(p@.take(0) =~= Seq::<char>::empty());
        assert(last_slash_index(p@) == -1);
        assert(spec_basename(p@) =~= p@);
    }
    (String::new(), p.to_owned())
}

/// Derives the route path of a content file, per `spec_route_path`.
pub fn route_path(p: &str) -> (r: String)
    requires
        has_md_ext(p@),
    ensures
        r@ == spec_route_path(p@),
        r@.len() > 0 && r@[0] == '/',
{
    let (dir, base) = split_dir_base(p);
    let blen = base.as_str().unicode_len();
    let slug = base.as_str().substring_char(0, blen - 3);
    proof {
        assert(slug@ =~= spec_slug(p@));
    }
    let mut joined = dir;
    joined.append("/");
    joined.append(slug);
    proof {
        reveal_strlit("/");
        assert("/"@ =~= seq!['/']);
        assert(joined@ =~= spec_dirname(p@) + seq!['/'] + spec_slug(p@));
        lemma_last_slash_index_range(p@);
        assert(joined@.len() > 0);
    }
    let first = joined.as_str().get_char(0);
    if first == '/' {
        joined
    } else {
        let r = crate::text::concat2("/", joined.as_str());
        proof {
            reveal_strlit("/");
            assert(r@ =~= spec_route_path(p@));
        }
        r
    }
}

/// Decides `has_md_ext`: the content locator's filter.
pub fn is_md_path(p: &str) -> (r: bool)
    ensures
        r == has_md_ext(p@),
{
    let (_dir, base) = split_dir_base(p);
    let b = base.as_str();
    let blen = b.unicode_len();
    if blen < 3 {
        return false;
    }
    b.get_char(blen - 3) == '.' && b.get_char(blen - 2) == 'm' && b.get_char(blen - 1) == 'd'
}

/// Decides `spec_is_html_path`.
pub fn is_html_path(p: &str) -> (r: bool)
    ensures
        r == spec_is_html_path(p@),
{
    let (_dir, base) = split_dir_base(p);
    let b = base.as_str();
    let blen = b.unicode_len();
    if blen < 6 {
        return false;
    }
    let r = b.get_char(blen - 5) == '.' && b.get_char(blen - 4) == 'h' && b.get_char(blen - 3)
        == 't' && b.get_char(blen - 2) == 'm' && b.get_char(blen - 1) == 'l';
    r
}

} // verus!
