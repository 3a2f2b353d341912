use vstd::prelude::*;

use crate::resolve::views_of;

verus! {

/// The byte that separates entries of a PATH-like variable.
pub const PATH_LIST_SEPARATOR: u8 = 58;

/// The segments of a PATH-like byte string: the pieces between the
/// list separators, in order. An empty string holds one empty segment,
/// and adjoining separators hold an empty segment between them; empty
/// or repeated directories are legal in a search path and simply yield
/// no matches.
pub open spec fn split_spec(s: Seq<u8>) -> Seq<Seq<u8>>
    decreases s.len(),
{
    if s.len() == 0 {
        seq![Seq::<u8>::empty()]
    } else if s[0] == PATH_LIST_SEPARATOR {
        seq![Seq::<u8>::empty()] + split_spec(s.skip(1))
    } else {
        let rest = split_spec(s.skip(1));
        seq![seq![s[0]] + rest[0]] + rest.skip(1)
    }
}

/// A split always holds at least one segment.
pub proof fn lemma_split_nonempty(s: Seq<u8>)
    ensures
        split_spec(s).len() >= 1,
    decreases s.len(),
{
    if s.len() > 0 {
        lemma_split_nonempty(s.skip(1));
    }
}

/// Splits the value of a PATH-like variable into the ordered list of
/// search directories it names.
pub fn split_search_path(s: &[u8]) -> (r: Vec<Vec<u8>>)
    ensures
        views_of(r@) == split_spec(s@),
{
    let mut done: Vec<Vec<u8>> = Vec::new();
    let mut cur: Vec<u8> = Vec::new();
    let mut i: usize = 0;
    proof {
        assert(s@.skip(0) =~= s@);
        lemma_split_nonempty(s@);
    }
    while i < s.len()
        invariant
            i <= s@.len(),
            split_spec(s@) =~~= views_of(done@) + seq![
                cur@ + split_spec(s@.skip(i as int))[0],
            ] + split_spec(s@.skip(i as int)).skip(1),
        decreases s@.len() - i,
    {
        let ghost tail = s@.skip(i as int);
        let ghost next = s@.skip(i as int + 1);
        proof {
            assert(tail[0] == s@[i as int]);
            assert(tail.skip(1) =~= next);
            lemma_split_nonempty(next);
        }
        if s[i] == PATH_LIST_SEPARATOR {
            proof {
                assert(split_spec(tail) == seq![Seq::<u8>::empty()] + split_spec(next));
            }
            let finished = cur;
            cur = Vec::new();
            let ghost done_prev = done@;
            done.push(finished);
            proof {
                assert(views_of(done@) =~~= views_of(done_prev) + seq![finished@]) by {
                    assert(forall|k: int|
                        0 <= k < done_prev.len() ==> done@[k] == done_prev[k]);
                }
                assert(split_spec(s@) =~~= views_of(done@) + seq![
                    cur@ + split_spec(next)[0],
                ] + split_spec(next).skip(1));
            }
        } else {
            proof {
                assert(split_spec(tail) == seq![seq![tail[0]] + split_spec(next)[0]]
                    + split_spec(next).skip(1));
            }
            let ghost cur_prev = cur@;
            cur.push(s[i]);
            proof {
                assert(cur@ =~= cur_prev + seq![tail[0]]);
                assert(split_spec(s@) =~~= views_of(done@) + seq![
                    cur@ + split_spec(next)[0],
                ] + split_spec(next).skip(1));
            }
        }
        i += 1;
    }
    proof {
        let tail = s@.skip(i as int);
        assert(tail.len() == 0);
        assert(split_spec(tail) == seq![Seq::<u8>::empty()]);
    }
    let last = cur;
    let ghost done_prev = done@;
    done.push(last);
    proof {
        assert(views_of(done@) =~~= views_of(done_prev) + seq![last@]) by {
            assert(forall|k: int| 0 <= k < done_prev.len() ==> done@[k] == done_prev[k]);
        }
        assert(views_of(done@) =~~= split_spec(s@));
    }
    done
}

} // verus!
