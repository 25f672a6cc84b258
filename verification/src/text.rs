//! String building blocks the page pipeline needs: decimal rendering of
//! counters, lexicographic comparison of date strings, concatenation and
//! comma-joining.

use vstd::prelude::*;

verus! {

/// The character for one decimal digit.
pub open spec fn dec_digit(d: nat) -> char {
    ((48 + d) as u8) as char
}

/// The decimal rendering of a natural number, most significant digit first,
/// with no leading zeros (a single `'0'` for zero).
pub open spec fn dec_str(n: nat) -> Seq<char>
    decreases n,
{
    if n < 10 {
        seq![dec_digit(n)]
    } else {
        dec_str(n / 10).push(dec_digit(n % 10))
    }
}

fn digit_str(d: u64) -> (r: &'static str)
    requires
        d < 10,
    ensures
        r@ == seq![dec_digit(d as nat)],
{
    let r = match d {
        0 => "0",
        1 => "1",
        2 => "2",
        3 => "3",
        4 => "4",
        5 => "5",
        6 => "6",
        7 => "7",
        8 => "8",
        _ => "9",
    };
    proof {
        reveal_strlit("0");
        reveal_strlit("1");
        reveal_strlit("2");
        reveal_strlit("3");
        reveal_strlit("4");
        reveal_strlit("5");
        reveal_strlit("6");
        reveal_strlit("7");
        reveal_strlit("8");
        reveal_strlit("9");
        assert(r@ =~= seq![dec_digit(d as nat)]);
    }
    r
}

/// Renders a number in decimal, e.g. `185` as `"185"`.
pub fn u64_to_dec(n: u64) -> (r: String)
    ensures
        r@ == dec_str(n as nat),
    decreases n,
{
    if n < 10 {
        digit_str(n).to_owned()
    } else {
        let mut prefix = u64_to_dec(n / 10);
        prefix.append(digit_str(n % 10));
        proof {
            assert(prefix@ =~= dec_str(n as nat));
        }
        prefix
    }
}

/// Strict lexicographic order on character sequences: the order in which
/// fixed-width, most-significant-first date strings sort by calendar date.
pub open spec fn spec_lex_lt(a: Seq<char>, b: Seq<char>) -> bool
    decreases a.len(),
{
    if b.len() == 0 {
        false
    } else if a.len() == 0 {
        true
    } else if a[0] != b[0] {
        (a[0] as u32) < (b[0] as u32)
    } else {
        spec_lex_lt(a.skip(1), b.skip(1))
    }
}

/// The lexicographic order is irreflexive.
pub proof fn lemma_lex_lt_irrefl(a: Seq<char>)
    ensures
        !spec_lex_lt(a, a),
    decreases a.len(),
{
    if a.len() > 0 {
        lemma_lex_lt_irrefl(a.skip(1));
    }
}

/// The lexicographic order is transitive.
pub proof fn lemma_lex_lt_trans(a: Seq<char>, b: Seq<char>, c: Seq<char>)
    requires
        spec_lex_lt(a, b),
        spec_lex_lt(b, c),
    ensures
        spec_lex_lt(a, c),
    decreases a.len(),
{
    if a.len() > 0 && a[0] == b[0] && b[0] == c[0] {
        lemma_lex_lt_trans(a.skip(1), b.skip(1), c.skip(1));
    }
}

/// Decides `spec_lex_lt` on two strings.
pub fn lex_lt(a: &str, b: &str) -> (r: bool)
    ensures
        r == spec_lex_lt(a@, b@),
    decreases a@.len(),
{
    let alen = a.unicode_len();
    let blen = b.unicode_len();
    if blen == 0 {
        false
    } else if alen == 0 {
        true
    } else {
        let ca = a.get_char(0);
        let cb = b.get_char(0);
        if ca != cb {
            (ca as u32) < (cb as u32)
        } else {
            let ra = a.substring_char(1, alen);
            let rb = b.substring_char(1, blen);
            proof {
                assert(ra@ =~= a@.skip(1));
                assert(rb@ =~= b@.skip(1));
            }
            lex_lt(ra, rb)
        }
    }
}

/// The concatenation of two strings.
pub fn concat2(a: &str, b: &str) -> (r: String)
    ensures
        r@ == a@ + b@,
{
    let mut r = a.to_owned();
    r.append(b);
    r
}

/// The elements of `parts` joined with a single comma between neighbours.
pub open spec fn spec_join_comma(parts: Seq<Seq<char>>) -> Seq<char>
    decreases parts.len(),
{
    if parts.len() == 0 {
        Seq::empty()
    } else if parts.len() == 1 {
        parts[0]
    } else {
        parts[0] + seq![','] + spec_join_comma(parts.skip(1))
    }
}

/// Joins the given strings with commas, e.g. `["a", "b"]` to `"a,b"`.
pub fn join_comma(parts: &Vec<String>) -> (r: String)
    ensures
        r@ == spec_join_comma(parts.deep_view()),
{
    let mut r = String::new();
    let n = parts.len();
    let mut i: usize = 0;
    while i < n
        invariant
            n == parts.len(),
            i <= n,
            i == 0 ==> r@ =~= Seq::<char>::empty(),
            0 < i < n ==> spec_join_comma(parts.deep_view()) =~= r@ + seq![',']
                + spec_join_comma(parts.deep_view().skip(i as int)),
            0 < i == n ==> spec_join_comma(parts.deep_view()) =~= r@,
        decreases n - i,
    {
        proof {
            reveal_strlit(",");
        }
        let ghost pv = parts.deep_view();
        let ghost r_before = r@;
        if i > 0 {
            r.append(",");
        }
        r.append(parts[i].as_str());
        proof {
            assert(pv.skip(i as int)[0] == parts[i as int]@);
            assert(pv.skip(i as int).skip(1) =~= pv.skip(i as int + 1));
            assert(","@ =~= seq![',']);
            if i == 0 {
                if n == 1 {
                    assert(spec_join_comma(pv) =~= r@);
                } else {
                    assert(spec_join_comma(pv) =~= r@ + seq![','] + spec_join_comma(
                        pv.skip(1),
                    ));
                }
            } else {
                assert(r@ =~= r_before + seq![','] + parts[i as int]@);
                if i + 1 == n {
                    assert(spec_join_comma(pv.skip(i as int)) == parts[i as int]@);
                    assert(spec_join_comma(pv) =~= r@);
                } else {
                    assert(spec_join_comma(pv.skip(i as int)) =~= parts[i as int]@ + seq![
                        ',',
                    ] + spec_join_comma(pv.skip(i as int + 1)));
                    assert(spec_join_comma(pv) =~= r@ + seq![','] + spec_join_comma(
                        pv.skip(i as int + 1),
                    ));
                }
            }
        }
        i = i + 1;
    }
    proof {
        if n == 0 {
            assert(spec_join_comma(parts.deep_view()) =~= r@);
        }
    }
    r
}

} // verus!
