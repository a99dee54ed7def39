//! Paths compared the way `std::path::Path` compares them on Unix: by their
//! components, so that `a//b`, `a/./b` and `a/b/` all name `a/b`.
use vstd::prelude::*;
use crate::text::{chars_of, same_text, text_of};

verus! {

/// After reading `p`: the segments between slashes finished so far, and the
/// segment being read.
pub open spec fn split_state(p: Seq<char>) -> (Seq<Seq<char>>, Seq<char>)
    decreases p.len(),
{
    if p.len() == 0 {
        (Seq::empty(), Seq::empty())
    } else {
        let prev = split_state(p.drop_last());
        if p.last() == '/' {
            (prev.0.push(prev.1), Seq::empty())
        } else {
            (prev.0, prev.1.push(p.last()))
        }
    }
}

/// The text between the slashes of `p`, empty pieces included.
pub open spec fn segments(p: Seq<char>) -> Seq<Seq<char>> {
    let st = split_state(p);
    st.0.push(st.1)
}

/// Whether a segment names something: it is neither empty nor `.`.
pub open spec fn is_named(segment: Seq<char>) -> bool {
    segment.len() > 0 && segment != seq!['.']
}

/// The components of `p`: `/` first for an absolute path, or `.` for a
/// relative path that starts with a `.` segment; then every segment that is
/// neither empty nor `.`, in order.
pub open spec fn components_of(p: Seq<char>) -> Seq<Seq<char>> {
    let segs = segments(p);
    (if p.len() > 0 && p[0] == '/' {
        seq![seq!['/']]
    } else if segs[0] == seq!['.'] {
        seq![seq!['.']]
    } else {
        Seq::empty()
    }) + segs.filter(|s: Seq<char>| is_named(s))
}

/// The components of `p` (as `Path::components` gives them on Unix).
pub fn path_components(p: &str) -> (r: Vec<String>)
    ensures
        r.deep_view() == components_of(p@),
{
    proof {
        reveal_strlit(".");
        reveal_strlit("/");
        reveal_strlit("");
        assert("."@ =~= seq!['.']);
        assert("/"@ =~= seq!['/']);
        assert(""@ =~= Seq::<char>::empty());
    }
    let v = chars_of(p);
    let mut done: Vec<String> = Vec::new();
    let mut cur: Vec<char> = Vec::new();
    let mut i: usize = 0;
    while i < v.len()
        invariant
            v@ == p@,
            i <= v.len(),
            (done.deep_view(), cur@) == split_state(v@.subrange(0, i as int)),
        decreases v.len() - i,
    {
        assert(v@.subrange(0, i + 1).drop_last() =~= v@.subrange(0, i as int));
        if v[i] == '/' {
            let seg = text_of(&cur, 0, cur.len());
            assert(seg@ =~= cur@);
            done.push(seg);
            cur = Vec::new();
            assert(done.deep_view() =~= split_state(v@.subrange(0, i + 1)).0);
            assert(cur@ =~= split_state(v@.subrange(0, i + 1)).1);
        } else {
            cur.push(v[i]);
        }
        i = i + 1;
    }
    assert(v@.subrange(0, i as int) =~= p@);
    let last = text_of(&cur, 0, cur.len());
    assert(last@ =~= cur@);
    done.push(last);
    let ghost segs = segments(p@);
    assert(done.deep_view() =~= segs);
    let mut r: Vec<String> = Vec::new();
    let ghost lead: Seq<Seq<char>>;
    if v.len() > 0 && v[0] == '/' {
        r.push("/".to_owned());
        proof {
            lead = seq![seq!['/']];
        }
        assert(r.deep_view() =~= lead);
    } else if same_text(done[0].as_str(), ".") {
        r.push(".".to_owned());
        proof {
            lead = seq![seq!['.']];
        }
        assert(r.deep_view() =~= lead);
    } else {
        proof {
            lead = Seq::empty();
        }
    }
    assert(r.deep_view() =~= lead);
    let ghost keep = |s: Seq<char>| is_named(s);
    let mut k: usize = 0;
    while k < done.len()
        invariant
            done.deep_view() == segs,
            keep == (|s: Seq<char>| is_named(s)),
            "."@ == seq!['.'],
            ""@ == Seq::<char>::empty(),
            k <= done.len(),
            r.deep_view() == lead + segs.take(k as int).filter(keep),
        decreases done.len() - k,
    {
        proof {
            reveal_with_fuel(Seq::<_>::filter, 1);
            assert(segs.take(k + 1).drop_last() =~= segs.take(k as int));
            assert(segs.take(k + 1).last() == segs[k as int]);
        }
        let ghost before = r.deep_view();
        let seg = done[k].as_str();
        if !same_text(seg, "") && !same_text(seg, ".") {
            r.push(done[k].clone());
            assert(r.deep_view() =~= before.push(segs[k as int]));
            assert(done[k as int]@ == segs[k as int]);
            proof {
                if segs[k as int].len() == 0 {
                    assert(segs[k as int] =~= Seq::<char>::empty());
                }
            }
            assert(keep(segs[k as int]));
            assert(segs.take(k + 1).filter(keep) == segs.take(k as int).filter(keep).push(
                segs[k as int],
            )) by {
                reveal_with_fuel(Seq::<_>::filter, 1);
                assert(segs.take(k + 1).drop_last() =~= segs.take(k as int));
            }
            assert(lead + segs.take(k + 1).filter(keep) =~= (lead + segs.take(k as int).filter(
                keep,
            )).push(segs[k as int]));
        } else {
            assert(!keep(segs[k as int]));
            assert(segs.take(k + 1).filter(keep) == segs.take(k as int).filter(keep)) by {
                reveal_with_fuel(Seq::<_>::filter, 1);
                assert(segs.take(k + 1).drop_last() =~= segs.take(k as int));
            }
            assert(lead + segs.take(k + 1).filter(keep) =~= lead + segs.take(k as int).filter(
                keep,
            ));
        }
        k = k + 1;
    }
    assert(segs.take(k as int) =~= segs);
    r
}

/// Whether two component lists are the same.
pub fn same_components(a: &Vec<String>, b: &Vec<String>) -> (r: bool)
    ensures
        r == (a.deep_view() == b.deep_view()),
{
    if a.len() != b.len() {
        assert(a.deep_view().len() != b.deep_view().len());
        return false;
    }
    let mut i: usize = 0;
    while i < a.len()
        invariant
            a.len() == b.len(),
            i <= a.len(),
            forall|j: int| 0 <= j < i ==> a.deep_view()[j] == b.deep_view()[j],
        decreases a.len() - i,
    {
        if !same_text(a[i].as_str(), b[i].as_str()) {
            assert(a.deep_view()[i as int] != b.deep_view()[i as int]);
            return false;
        }
        i = i + 1;
    }
    assert(a.deep_view() =~= b.deep_view());
    true
}

} // verus!
