//! Cron expressions travel in URL paths: `/` is written `slh`, and a space
//! arrives as `%20`. This module escapes and unescapes them.
use vstd::prelude::*;
use crate::text::{chars_of, contains_seq, lemma_replace_absent, occurs_at, replace_chars, replace_spec, string_from_chars};

verus! {

pub open spec fn slash_seq() -> Seq<char> {
    seq!['/']
}

pub open spec fn slh_seq() -> Seq<char> {
    seq!['s', 'l', 'h']
}

pub open spec fn pct20_seq() -> Seq<char> {
    seq!['%', '2', '0']
}

pub open spec fn space_seq() -> Seq<char> {
    seq![' ']
}

/// Every `/` written as `slh`.
pub open spec fn escape_spec(e: Seq<char>) -> Seq<char> {
    replace_spec(e, slash_seq(), slh_seq())
}

/// Every `slh` read as `/`, then every `%20` as a space.
pub open spec fn unescape_spec(e: Seq<char>) -> Seq<char> {
    replace_spec(replace_spec(e, slh_seq(), slash_seq()), pct20_seq(), space_seq())
}

/// Escapes an expression for a URL path (`expr.replace("/", "slh")`).
pub fn escape_expression(expr: &str) -> (r: String)
    ensures
        r@ == escape_spec(expr@),
{
    let s = chars_of(expr);
    let pat = vec!['/'];
    let rep = vec!['s', 'l', 'h'];
    assert(pat@ =~= slash_seq());
    assert(rep@ =~= slh_seq());
    let out = replace_chars(&s, &pat, &rep);
    string_from_chars(&out)
}

/// Reads back an expression from a URL path
/// (`expression.replace("slh", "/").replace("%20", " ")`).
pub fn unescape_expression(expr: &str) -> (r: String)
    ensures
        r@ == unescape_spec(expr@),
{
    let s = chars_of(expr);
    let slh = vec!['s', 'l', 'h'];
    let slash = vec!['/'];
    let pct = vec!['%', '2', '0'];
    let space = vec![' '];
    assert(slh@ =~= slh_seq());
    assert(slash@ =~= slash_seq());
    assert(pct@ =~= pct20_seq());
    assert(space@ =~= space_seq());
    let first = replace_chars(&s, &slh, &slash);
    let second = replace_chars(&first, &pct, &space);
    string_from_chars(&second)
}

proof fn lemma_escape_unfold(e: Seq<char>)
    requires
        e.len() > 0,
    ensures
        escape_spec(e) == (if e[0] == '/' {
            slh_seq()
        } else {
            seq![e[0]]
        }) + escape_spec(e.drop_first()),
{
    assert(e.take(1) =~= seq![e[0]]);
    assert(e.skip(1) =~= e.drop_first());
    if e[0] != '/' {
        assert(e.take(1) != slash_seq()) by {
            assert(e.take(1)[0] != slash_seq()[0]);
        }
    }
}

proof fn lemma_no_occurrence_tail(e: Seq<char>, pat: Seq<char>)
    requires
        e.len() > 0,
        !contains_seq(e, pat),
    ensures
        !contains_seq(e.drop_first(), pat),
{
    let t = e.drop_first();
    if contains_seq(t, pat) {
        let i = choose|i: int| occurs_at(t, pat, i);
        assert(e.subrange(i + 1, i + 1 + pat.len()) =~= t.subrange(i, i + pat.len()));
        assert(occurs_at(e, pat, i + 1));
    }
}

proof fn lemma_unslh_escape(e: Seq<char>)
    requires
        !contains_seq(e, slh_seq()),
    ensures
        replace_spec(escape_spec(e), slh_seq(), slash_seq()) == e,
    decreases e.len(),
{
    if e.len() > 0 {
        let t = e.drop_first();
        lemma_no_occurrence_tail(e, slh_seq());
        lemma_unslh_escape(t);
        lemma_escape_unfold(e);
        let x = escape_spec(t);
        if e[0] == '/' {
            let y = slh_seq() + x;
            assert(y.take(3) =~= slh_seq());
            assert(y.skip(3) =~= x);
            assert(seq!['/'] + t =~= e);
        } else {
            let y = seq![e[0]] + x;
            if y.len() >= 3 && y.take(3) == slh_seq() {
                assert(y.take(3)[0] == 's' && y.take(3)[1] == 'l' && y.take(3)[2] == 'h');
                assert(e[0] == 's');
                assert(x[0] == 'l' && x[1] == 'h');
                assert(t.len() > 0);
                lemma_escape_unfold(t);
                assert(t[0] == 'l');
                let u = t.drop_first();
                assert(escape_spec(t) =~= seq!['l'] + escape_spec(u));
                assert(escape_spec(u)[0] == 'h');
                assert(u.len() > 0);
                lemma_escape_unfold(u);
                assert(u[0] == 'h');
                assert(e.subrange(0, 3) =~= slh_seq());
                assert(occurs_at(e, slh_seq(), 0));
            }
            assert(y.drop_first() =~= x);
            assert(seq![e[0]] + t =~= e);
        }
    }
}

/// An expression without `slh` and without `%20` survives the URL path:
/// reading back its escaped form gives the expression itself.
pub proof fn lemma_unescape_escape(e: Seq<char>)
    requires
        !contains_seq(e, slh_seq()),
        !contains_seq(e, pct20_seq()),
    ensures
        unescape_spec(escape_spec(e)) == e,
{
    lemma_unslh_escape(e);
    lemma_replace_absent(e, pct20_seq(), space_seq());
}

} // verus!
