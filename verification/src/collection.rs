//! Collections: a named, ordered sequence of pages backing one listing page.
//! Pages are ordered by publication date, descending, under a stable
//! insertion sort, so pages with equal dates keep their enumeration order.

use vstd::prelude::*;
use vstd::multiset::Multiset;
use vstd::seq_lib::lemma_multiset_commutative;
use crate::matter::{
    fm_of_text, matter_body, matter_decode_err, matter_decode_ok, matter_found, BuildError,
};
use crate::paths::{has_md_ext, spec_route_path};
use crate::post::{build_post, post_wf, Post};
use crate::text::{lex_lt, lemma_lex_lt_irrefl, lemma_lex_lt_trans, spec_lex_lt};

verus! {

broadcast use vstd::seq_lib::group_to_multiset_ensures;

/// The publication date a page sorts by.
pub open spec fn date_of(p: Post) -> Seq<char> {
    p.matter.date@
}

/// Stable insertion of a page into a date-descending sequence: the new page
/// goes before the first page with a strictly older date, so it lands after
/// every page already there with the same date.
pub open spec fn spec_insert_desc(x: Post, s: Seq<Post>) -> Seq<Post>
    decreases s.len(),
{
    if s.len() == 0 {
        seq![x]
    } else if spec_lex_lt(date_of(s[0]), date_of(x)) {
        seq![x] + s
    } else {
        seq![s[0]] + spec_insert_desc(x, s.skip(1))
    }
}

/// Stable sort by publication date, descending: pages are inserted in
/// enumeration order, each after the pages with an equal date before it.
pub open spec fn spec_sort_desc(s: Seq<Post>) -> Seq<Post>
    decreases s.len(),
{
    if s.len() == 0 {
        Seq::empty()
    } else {
        spec_insert_desc(s.last(), spec_sort_desc(s.drop_last()))
    }
}

/// Date-descending order: no page's date is lexicographically below a later
/// page's date.
pub open spec fn sorted_desc(s: Seq<Post>) -> bool {
    forall|i: int, j: int|
        0 <= i < j < s.len() ==> !spec_lex_lt(date_of(s[i]), date_of(s[j]))
}

proof fn lemma_insert_desc_len(x: Post, s: Seq<Post>)
    ensures
        spec_insert_desc(x, s).len() == s.len() + 1,
    decreases s.len(),
{
    if s.len() > 0 && !spec_lex_lt(date_of(s[0]), date_of(x)) {
        lemma_insert_desc_len(x, s.skip(1));
    }
}

proof fn lemma_insert_desc_multiset(x: Post, s: Seq<Post>)
    ensures
        spec_insert_desc(x, s).to_multiset() =~= s.to_multiset().insert(x),
    decreases s.len(),
{
    if s.len() == 0 {
        assert(seq![x] =~= Seq::<Post>::empty().push(x));
    } else if spec_lex_lt(date_of(s[0]), date_of(x)) {
        lemma_multiset_commutative(seq![x], s);
        assert(seq![x].to_multiset() =~= Multiset::<Post>::empty().insert(x)) by {
            assert(seq![x] =~= Seq::<Post>::empty().push(x));
        }
    } else {
        lemma_insert_desc_multiset(x, s.skip(1));
        lemma_multiset_commutative(seq![s[0]], s.skip(1));
        lemma_multiset_commutative(seq![s[0]], spec_insert_desc(x, s.skip(1)));
        assert(seq![s[0]] + s.skip(1) =~= s);
        assert(seq![s[0]].to_multiset() =~= Multiset::<Post>::empty().insert(s[0])) by {
            assert(seq![s[0]] =~= Seq::<Post>::empty().push(s[0]));
        }
    }
}

proof fn lemma_insert_desc_sorted(x: Post, s: Seq<Post>)
    requires
        sorted_desc(s),
    ensures
        sorted_desc(spec_insert_desc(x, s)),
    decreases s.len(),
{
    lemma_insert_desc_len(x, s);
    if s.len() == 0 {
    } else if spec_lex_lt(date_of(s[0]), date_of(x)) {
        let r = seq![x] + s;
        assert forall|j: int| 0 < j < r.len() implies !spec_lex_lt(date_of(r[0]), date_of(r[j])) by {
            if spec_lex_lt(date_of(x), date_of(s[j - 1])) {
                if j == 1 {
                    lemma_lex_lt_trans(date_of(s[0]), date_of(x), date_of(s[0]));
                    lemma_lex_lt_irrefl(date_of(s[0]));
                } else {
                    lemma_lex_lt_trans(date_of(s[0]), date_of(x), date_of(s[j - 1]));
                }
            }
        }
        assert(sorted_desc(r));
    } else {
        assert(sorted_desc(s.skip(1)));
        lemma_insert_desc_sorted(x, s.skip(1));
        lemma_insert_desc_len(x, s.skip(1));
        let ins = spec_insert_desc(x, s.skip(1));
        let r = seq![s[0]] + ins;
        assert forall|j: int| 0 < j < r.len() implies !spec_lex_lt(date_of(r[0]), date_of(r[j])) by {
            lemma_insert_desc_elem(x, s.skip(1), j - 1);
            let e = ins[j - 1];
            if e == x {
                assert(!spec_lex_lt(date_of(s[0]), date_of(x)));
            } else {
                let k = choose|k: int| 0 <= k < s.skip(1).len() && s.skip(1)[k] == e;
                assert(!spec_lex_lt(date_of(s[0]), date_of(s[k + 1])));
            }
        }
        assert(sorted_desc(r));
    }
}

proof fn lemma_insert_desc_elem(x: Post, s: Seq<Post>, k: int)
    requires
        0 <= k < spec_insert_desc(x, s).len(),
    ensures
        spec_insert_desc(x, s)[k] == x || exists|i: int|
            0 <= i < s.len() && s[i] == spec_insert_desc(x, s)[k],
    decreases s.len(),
{
    if s.len() == 0 {
    } else if spec_lex_lt(date_of(s[0]), date_of(x)) {
        if k > 0 {
            assert(s[k - 1] == spec_insert_desc(x, s)[k]);
        }
    } else {
        if k > 0 {
            lemma_insert_desc_elem(x, s.skip(1), k - 1);
            let e = spec_insert_desc(x, s)[k];
            assert(e == spec_insert_desc(x, s.skip(1))[k - 1]);
            if e != x {
                let i = choose|i: int| 0 <= i < s.skip(1).len() && s.skip(1)[i] == e;
                assert(s[i + 1] == e);
            }
        }
    }
}

/// The sorted sequence is date-descending and holds exactly the pages of the
/// input, multiplicity included: sorting permutes and never drops, duplicates
/// or invents a page.
pub proof fn lemma_sort_desc_correct(s: Seq<Post>)
    ensures
        sorted_desc(spec_sort_desc(s)),
        spec_sort_desc(s).to_multiset() =~= s.to_multiset(),
        spec_sort_desc(s).len() == s.len(),
    decreases s.len(),
{
    if s.len() == 0 {
    } else {
        lemma_sort_desc_correct(s.drop_last());
        lemma_insert_desc_sorted(s.last(), spec_sort_desc(s.drop_last()));
        lemma_insert_desc_multiset(s.last(), spec_sort_desc(s.drop_last()));
        lemma_insert_desc_len(s.last(), spec_sort_desc(s.drop_last()));
        assert(s.drop_last().push(s.last()) =~= s);
        assert(s.drop_last().push(s.last()).to_multiset() =~= s.drop_last().to_multiset().insert(
            s.last(),
        ));
    }
}

/// The pages carrying one given publication date.
pub open spec fn date_is(d: Seq<char>) -> spec_fn(Post) -> bool {
    |p: Post| date_of(p) == d
}

proof fn lemma_filter_none(s: Seq<Post>, d: Seq<char>)
    requires
        forall|j: int| 0 <= j < s.len() ==> !(date_of(#[trigger] s[j]) == d),
    ensures
        s.filter(date_is(d)) =~= Seq::<Post>::empty(),
    decreases s.len(),
{
    reveal(Seq::filter);
    if s.len() > 0 {
        lemma_filter_none(s.drop_last(), d);
        assert(!date_is(d)(s.last()));
    }
}

proof fn lemma_insert_desc_filter(x: Post, s: Seq<Post>, d: Seq<char>)
    requires
        sorted_desc(s),
    ensures
        date_of(x) == d ==> spec_insert_desc(x, s).filter(date_is(d)) =~= s.filter(
            date_is(d),
        ).push(x),
        date_of(x) != d ==> spec_insert_desc(x, s).filter(date_is(d)) =~= s.filter(date_is(d)),
    decreases s.len(),
{
    reveal(Seq::filter);
    let pred = date_is(d);
    if s.len() == 0 {
        assert(seq![x].drop_last() =~= Seq::<Post>::empty());
        assert(Seq::<Post>::empty().filter(pred) =~= Seq::<Post>::empty());
        assert(seq![x].last() == x);
    } else if spec_lex_lt(date_of(s[0]), date_of(x)) {
        Seq::filter_distributes_over_add(seq![x], s, pred);
        assert(seq![x].drop_last() =~= Seq::<Post>::empty());
        assert(Seq::<Post>::empty().filter(pred) =~= Seq::<Post>::empty());
        assert(seq![x].last() == x);
        if date_of(x) == d {
            assert forall|j: int| 0 <= j < s.len() implies !(date_of(#[trigger] s[j]) == d) by {
                if date_of(s[j]) == d {
                    if j == 0 {
                        lemma_lex_lt_irrefl(date_of(x));
                    } else {
                        lemma_lex_lt_trans(date_of(s[0]), date_of(x), date_of(s[j]));
                    }
                }
            }
            lemma_filter_none(s, d);
            assert(seq![x].filter(pred) =~= seq![x]);
            assert((seq![x] + s).filter(pred) =~= s.filter(pred).push(x));
        } else {
            assert(seq![x].filter(pred) =~= Seq::<Post>::empty());
            assert((seq![x] + s).filter(pred) =~= s.filter(pred));
        }
    } else {
        assert(sorted_desc(s.skip(1)));
        lemma_insert_desc_filter(x, s.skip(1), d);
        let ins = spec_insert_desc(x, s.skip(1));
        Seq::filter_distributes_over_add(seq![s[0]], ins, pred);
        Seq::filter_distributes_over_add(seq![s[0]], s.skip(1), pred);
        assert(seq![s[0]] + s.skip(1) =~= s);
        assert(seq![s[0]].drop_last() =~= Seq::<Post>::empty());
        assert(Seq::<Post>::empty().filter(pred) =~= Seq::<Post>::empty());
        assert(seq![s[0]].last() == s[0]);
        if date_of(x) == d {
            assert(seq![s[0]].filter(pred) + ins.filter(pred) =~= seq![s[0]].filter(pred) + s.skip(
                1,
            ).filter(pred).push(x));
            assert(seq![s[0]].filter(pred) + s.skip(1).filter(pred).push(x) =~= (seq![s[0]].filter(
                pred,
            ) + s.skip(1).filter(pred)).push(x));
        }
    }
}

/// Sorting is stable: the pages that carry any one publication date stand in
/// the sorted sequence exactly as they stand in the input, in the same order.
pub proof fn lemma_sort_desc_stable(s: Seq<Post>, d: Seq<char>)
    ensures
        spec_sort_desc(s).filter(date_is(d)) =~= s.filter(date_is(d)),
    decreases s.len(),
{
    reveal(Seq::filter);
    if s.len() > 0 {
        lemma_sort_desc_stable(s.drop_last(), d);
        lemma_sort_desc_correct(s.drop_last());
        lemma_insert_desc_filter(s.last(), spec_sort_desc(s.drop_last()), d);
    }
}

proof fn lemma_insert_desc_at(x: Post, s: Seq<Post>, pos: int)
    requires
        0 <= pos <= s.len(),
        forall|j: int| 0 <= j < pos ==> !spec_lex_lt(date_of(s[j]), date_of(x)),
        pos < s.len() ==> spec_lex_lt(date_of(s[pos]), date_of(x)),
    ensures
        spec_insert_desc(x, s) =~= s.take(pos) + seq![x] + s.skip(pos),
    decreases pos,
{
    if pos == 0 {
    } else {
        lemma_insert_desc_at(x, s.skip(1), pos - 1);
        assert(s.skip(1).take(pos - 1) =~= s.take(pos).skip(1));
        assert(s.skip(1).skip(pos - 1) =~= s.skip(pos));
        assert(seq![s[0]] + (s.take(pos).skip(1) + seq![x] + s.skip(pos)) =~= s.take(pos) + seq![x]
            + s.skip(pos));
    }
}

/// Sorts pages by publication date, descending, stably: the result is
/// exactly `spec_sort_desc` of the input.
pub fn sort_posts(posts: Vec<Post>) -> (r: Vec<Post>)
    ensures
        r@ == spec_sort_desc(posts@),
{
    let ghost orig = posts@;
    let mut v = posts;
    let n = v.len();
    if n == 0 {
        proof {
            assert(spec_sort_desc(orig) =~= orig);
        }
        return v;
    }
    let mut i: usize = 1;
    proof {
        assert(orig.take(1).drop_last() =~= Seq::<Post>::empty());
        assert(spec_sort_desc(Seq::<Post>::empty()) =~= Seq::<Post>::empty());
        assert(orig.take(1).last() == orig[0]);
        assert(spec_sort_desc(orig.take(1)) =~= spec_insert_desc(orig[0], Seq::<Post>::empty()));
        assert(spec_sort_desc(orig.take(1)) =~= seq![orig[0]]);
        assert(v@.take(1) =~= seq![orig[0]]);
        assert(v@.skip(1) =~= orig.skip(1));
    }
    while i < n
        invariant
            1 <= i <= n,
            n == v.len(),
            orig.len() == n,
            v@.take(i as int) =~= spec_sort_desc(orig.take(i as int)),
            v@.skip(i as int) =~= orig.skip(i as int),
        decreases n - i,
    {
        let ghost vp = v@;
        let mut pos: usize = i;
        let mut j: usize = i;
        while j > 0
            invariant
                j <= pos <= i < n == v.len(),
                v@ == vp,
                pos == i ==> forall|k: int|
                    j <= k < i ==> !spec_lex_lt(date_of(v@[k]), date_of(v@[i as int])),
                pos < i ==> spec_lex_lt(date_of(v@[pos as int]), date_of(v@[i as int])) && forall|
                    k: int,
                |
                    j <= k < pos ==> !spec_lex_lt(date_of(v@[k]), date_of(v@[i as int])),
            decreases j,
        {
            j = j - 1;
            if lex_lt(v[j].matter.date.as_str(), v[i].matter.date.as_str()) {
                pos = j;
            }
        }
        let x = v.remove(i);
        v.insert(pos, x);
        proof {
            let ghost pre = vp.take(i as int);
            assert(vp[i as int] == orig[i as int]) by {
                assert(vp.skip(i as int)[0] == vp[i as int]);
            }
            lemma_insert_desc_at(x, pre, pos as int);
            assert(vp.remove(i as int) =~= pre + vp.skip(i as int + 1));
            assert(v@ =~= vp.remove(i as int).insert(pos as int, x));
            assert(v@.take(i as int + 1) =~= pre.take(pos as int) + seq![x] + pre.skip(
                pos as int,
            )) by {
                assert(vp.remove(i as int).insert(pos as int, x).take(i as int + 1) =~= pre.take(
                    pos as int,
                ) + seq![x] + pre.skip(pos as int));
            }
            assert(v@.take(i as int + 1) =~= spec_insert_desc(x, pre));
            assert(orig.take(i as int + 1).drop_last() =~= orig.take(i as int));
            assert(orig.take(i as int + 1).last() == orig[i as int]);
            assert(v@.take(i as int + 1) =~= spec_sort_desc(orig.take(i as int + 1)));
            assert(v@.skip(i as int + 1) =~= orig.skip(i as int + 1)) by {
                assert(vp.remove(i as int).insert(pos as int, x).skip(i as int + 1) =~= vp.skip(
                    i as int + 1,
                ));
                assert(vp.skip(i as int).skip(1) =~= vp.skip(i as int + 1));
                assert(orig.skip(i as int).skip(1) =~= orig.skip(i as int + 1));
                assert(vp.skip(i as int + 1) =~= orig.skip(i as int + 1));
            }
        }
        i = i + 1;
    }
    proof {
        assert(orig.take(n as int) =~= orig);
        assert(v@.take(n as int) =~= v@);
    }
    v
}

/// A named, ordered collection of pages backing one listing page.
pub struct Blog {
    pub description: String,
    pub page_title: String,
    pub posts: Vec<Post>,
}

/// `built` holds, in enumeration order, exactly one fully derived page per
/// located content file: the k-th page is the k-th file's.
pub open spec fn collection_from(
    origin: Seq<char>,
    files: Seq<(String, String)>,
    built: Seq<Post>,
) -> bool {
    &&& built.len() == files.len()
    &&& forall|k: int|
        0 <= k < built.len() ==> {
            &&& (#[trigger] built[k]).path@ == spec_route_path(files[k].0@)
            &&& built[k].content@ == crate::post::html_of(matter_body(files[k].1@))
            &&& built[k].reading_time@ == crate::post::spec_reading_time(
                crate::post::read_seconds_of(matter_body(files[k].1@)),
            )
            &&& fm_of_text(files[k].1@, built[k].matter)
            &&& post_wf(origin, built[k])
        }
}

/// One file parses and decodes.
pub open spec fn file_ok(files: Seq<(String, String)>, k: int) -> bool {
    matter_found(files[k].1@) && matter_decode_ok(files[k].1@)
}

/// The file at `j` is the first that fails to parse or decode.
pub open spec fn first_failure_at(files: Seq<(String, String)>, j: int) -> bool {
    &&& 0 <= j < files.len()
    &&& !file_ok(files, j)
    &&& forall|k: int| 0 <= k < j ==> #[trigger] file_ok(files, k)
}

/// Builds one collection: parses every located content file, failing fast on
/// the first bad file, then sorts the pages by publication date, descending.
/// `files` holds each file's enumerated path and its full text, in
/// enumeration order. Success is owed exactly when every file parses and
/// decodes; a failure carries the first failing file's error. On success the
/// result is the stable descending sort of one page per file, in enumeration
/// order.
pub fn build_collection(origin: &str, files: &Vec<(String, String)>) -> (r: Result<
    Vec<Post>,
    BuildError,
>)
    requires
        forall|k: int| 0 <= k < files@.len() ==> has_md_ext(#[trigger] files@[k].0@),
    ensures
        r is Ok <==> forall|k: int| 0 <= k < files@.len() ==> #[trigger] file_ok(files@, k),
        r matches Err(e) ==> exists|j: int|
            #[trigger] first_failure_at(files@, j) && e == matter_decode_err(files@[j].1@),
        r matches Ok(posts) ==> {
            &&& posts@.len() == files@.len()
            &&& sorted_desc(posts@)
            &&& forall|k: int| 0 <= k < posts@.len() ==> post_wf(origin@, #[trigger] posts@[k])
            &&& exists|built: Seq<Post>|
                #[trigger] collection_from(origin@, files@, built) && posts@ == spec_sort_desc(
                    built,
                )
        },
{
    let mut posts: Vec<Post> = Vec::new();
    let n = files.len();
    let mut i: usize = 0;
    while i < n
        invariant
            i <= n,
            n == files.len(),
            forall|k: int| 0 <= k < files@.len() ==> has_md_ext(#[trigger] files@[k].0@),
            forall|k: int| 0 <= k < i ==> #[trigger] file_ok(files@, k),
            collection_from(origin@, files@.take(i as int), posts@),
        decreases n - i,
    {
        let post = match build_post(origin, files[i].0.as_str(), files[i].1.as_str()) {
            Ok(p) => p,
            Err(e) => {
                proof {
                    assert(first_failure_at(files@, i as int));
                }
                return Err(e);
            },
        };
        posts.push(post);
        i = i + 1;
        proof {
            assert(files@.take(i as int).drop_last() =~= files@.take(i as int - 1));
            assert(collection_from(origin@, files@.take(i as int), posts@));
        }
    }
    let ghost unsorted = posts@;
    let sorted = sort_posts(posts);
    proof {
        assert(files@.take(n as int) =~= files@);
        assert(collection_from(origin@, files@, unsorted));
        lemma_sort_desc_correct(unsorted);
        assert forall|k: int| 0 <= k < sorted@.len() implies post_wf(
            origin@,
            #[trigger] sorted@[k],
        ) by {
            assert(sorted@.contains(sorted@[k]));
            assert(sorted@.to_multiset().contains(sorted@[k]));
            assert(unsorted.contains(sorted@[k]));
            let j = choose|j: int| 0 <= j < unsorted.len() && unsorted[j] == sorted@[k];
            assert(post_wf(origin@, unsorted[j]));
        }
    }
    Ok(sorted)
}

} // verus!
