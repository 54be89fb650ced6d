use vstd::prelude::*;

use vstd::string::StrSliceExecFns;

verus! {

/// The text with every at sign removed.
pub open spec fn strip_at(s: Seq<char>) -> Seq<char> {
    s.filter(|c: char| c != '@')
}

/// Removes every at sign from the text.
pub fn strip_at_exec(s: &str) -> (r: String)
    ensures
        r@ == strip_at(s@),
{
    let n = s.unicode_len();
    let mut r = String::new();
    proof {
        assert(s@.take(0int) =~= Seq::empty());
        assert(r@ =~= strip_at(s@.take(0int)));
    }
    for i in 0..n
        invariant
            n == s@.len(),
            r@ == strip_at(s@.take(i as int)),
    {
        let c = s.get_char(i);
        if c != '@' {
            push_char(&mut r, c);
        }
        proof {
            assert(s@.take(i as int + 1) =~= s@.take(i as int).push(s@[i as int]));
            s@.take(i as int).lemma_filter_push(s@[i as int], |c: char| c != '@');
        }
    }
    proof {
        assert(s@.take(n as int) =~= s@);
    }
    r
}

/// The texts joined with the separator between consecutive elements.
pub open spec fn join_texts(vs: Seq<Seq<char>>, sep: Seq<char>) -> Seq<char>
    decreases vs.len(),
{
    if vs.len() == 0 {
        Seq::empty()
    } else if vs.len() == 1 {
        vs[0]
    } else {
        join_texts(vs.drop_last(), sep) + sep + vs.last()
    }
}

/// Joins the texts with the separator between consecutive elements.
pub fn join_exec(vs: &Vec<String>, sep: &str) -> (r: String)
    ensures
        r@ == join_texts(vs@.map_values(|v: String| v@), sep@),
{
    let ghost mv = vs@.map_values(|v: String| v@);
    let mut r = String::new();
    let n = vs.len();
    proof {
        assert(mv.take(0int) =~= Seq::empty());
    }
    for i in 0..n
        invariant
            n == vs.len(),
            mv == vs@.map_values(|v: String| v@),
            r@ == join_texts(mv.take(i as int), sep@),
    {
        if i > 0 {
            r.append(sep);
        }
        r.append(vs[i].as_str());
        proof {
            assert(mv.take(i as int + 1).drop_last() =~= mv.take(i as int));
            assert(mv.take(i as int + 1).last() == mv[i as int]);
            if i == 0 {
                assert(r@ =~= join_texts(mv.take(1int), sep@));
            } else {
                assert(r@ =~= join_texts(mv.take(i as int + 1), sep@));
            }
        }
    }
    proof {
        assert(mv.take(n as int) =~= mv);
    }
    r
}

/// Relies on `String::push`, which appends exactly the given character.
#[verifier::external_body]
pub fn push_char(s: &mut String, c: char)
    ensures
        final(s)@ == old(s)@.push(c),
{
    s.push(c);
}

/// Whether two string slices hold the same characters.
pub fn str_eq(a: &str, b: &str) -> (r: bool)
    ensures
        r == (a@ == b@),
{
    a.to_owned() == b.to_owned()
}

} // verus!
