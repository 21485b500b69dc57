//! Path segment handling for locators: splitting an absolute path on `/`,
//! removing `.` and `..` segments, and joining the result back into the
//! canonical path text.

use vstd::prelude::*;
use crate::text::{find_char, lemma_find_char, lemma_find_char_is, lemma_find_char_none,
    find_char_at, subvec, append_chars};

verus! {

/// The views of a sequence of character vectors.
pub open spec fn seq_views(s: Seq<Vec<char>>) -> Seq<Seq<char>> {
    Seq::new(s.len(), |i: int| s[i]@)
}

/// The segments of `s`, split on `/`.  A string without `/` is one segment;
/// every `/` separates two (possibly empty) segments.
pub open spec fn split_slash(s: Seq<char>) -> Seq<Seq<char>>
    decreases s.len(),
{
    match find_char(s, '/') {
        None => seq![s],
        Some(i) => {
            proof {
                lemma_find_char(s, '/');
            }
            seq![s.take(i)] + split_slash(s.skip(i + 1))
        },
    }
}

pub open spec fn dot_seg() -> Seq<char> {
    seq!['.']
}

pub open spec fn dotdot_seg() -> Seq<char> {
    seq!['.', '.']
}

/// Dot-segment removal over a segment list, processed left to right with a
/// stack: `.` is dropped, `..` pops the previous segment (or is dropped at
/// the root), anything else is kept.
pub open spec fn norm_segs(segs: Seq<Seq<char>>) -> Seq<Seq<char>>
    decreases segs.len(),
{
    if segs.len() == 0 {
        Seq::empty()
    } else {
        let prefix = norm_segs(segs.drop_last());
        let last = segs.last();
        if last == dot_seg() {
            prefix
        } else if last == dotdot_seg() {
            if prefix.len() > 0 {
                prefix.drop_last()
            } else {
                prefix
            }
        } else {
            prefix.push(last)
        }
    }
}

/// The segments joined with `/` between them.
pub open spec fn join_slash(segs: Seq<Seq<char>>) -> Seq<char>
    decreases segs.len(),
{
    if segs.len() == 0 {
        Seq::empty()
    } else if segs.len() == 1 {
        segs[0]
    } else {
        join_slash(segs.drop_last()) + seq!['/'] + segs.last()
    }
}

/// The canonical form of an absolute path `p` (one starting with `/`):
/// a leading `/` followed by the dot-normalized segments.
pub open spec fn norm_path(p: Seq<char>) -> Seq<char> {
    seq!['/'] + join_slash(norm_segs(split_slash(p.skip(1))))
}

/// Split `v[from..]` on `/` into owned segment vectors.
pub fn split_segments(v: &Vec<char>, from: usize) -> (segs: Vec<Vec<char>>)
    requires
        from <= v@.len(),
    ensures
        seq_views(segs@) == split_slash(v@.skip(from as int)),
{
    let n = v.len();
    let mut segs: Vec<Vec<char>> = Vec::new();
    let mut cur: usize = from;
    loop
        invariant
            n == v@.len(),
            from <= cur <= v@.len(),
            split_slash(v@.skip(from as int)) =~= seq_views(segs@) + split_slash(
                v@.skip(cur as int),
            ),
        decreases v@.len() - cur,
    {
        let next = find_char_at(v, cur, '/');
        match next {
            Some(k) => {
                let seg = subvec(v, cur, k);
                segs.push(seg);
                proof {
                    let rest = v@.skip(cur as int);
                    assert forall|j: int| 0 <= j < k - cur implies rest[j] != '/' by {
                        assert(rest[j] == v@[cur + j]);
                    }
                    assert(rest[k - cur] == v@[k as int]);
                    lemma_find_char_is(rest, '/', k - cur as int);
                    assert(rest.take(k - cur as int) =~= v@.subrange(cur as int, k as int));
                    assert(rest.skip(k - cur as int + 1) =~= v@.skip(k as int + 1));
                    assert(split_slash(rest) == seq![v@.subrange(cur as int, k as int)]
                        + split_slash(v@.skip(k as int + 1)));
                    assert(seq_views(segs@) =~= seq_views(segs@.drop_last()) + seq![
                        v@.subrange(cur as int, k as int),
                    ]);
                }
                cur = k + 1;
            },
            None => {
                let seg = subvec(v, cur, n);
                segs.push(seg);
                proof {
                    let rest = v@.skip(cur as int);
                    assert forall|j: int| 0 <= j < rest.len() implies rest[j] != '/' by {
                        assert(rest[j] == v@[cur + j]);
                    }
                    lemma_find_char_none(rest, '/');
                    assert(rest =~= v@.subrange(cur as int, v@.len() as int));
                    assert(seq_views(segs@) =~= seq_views(segs@.drop_last()) + seq![rest]);
                    assert(seq_views(segs@) =~= split_slash(v@.skip(from as int)));
                }
                return segs;
            },
        }
    }
}

/// Whether a segment is the single dot.
fn is_dot(seg: &Vec<char>) -> (b: bool)
    ensures
        b == (seg@ == dot_seg()),
{
    if seg.len() == 1 && seg[0] == '.' {
        proof {
            assert(seg@ =~= dot_seg());
        }
        true
    } else {
        proof {
            if seg@ == dot_seg() {
                assert(seg@.len() == 1 && seg@[0] == '.');
            }
        }
        false
    }
}

/// Whether a segment is the double dot.
fn is_dotdot(seg: &Vec<char>) -> (b: bool)
    ensures
        b == (seg@ == dotdot_seg()),
{
    if seg.len() == 2 && seg[0] == '.' && seg[1] == '.' {
        proof {
            assert(seg@ =~= dotdot_seg());
        }
        true
    } else {
        proof {
            if seg@ == dotdot_seg() {
                assert(seg@.len() == 2 && seg@[0] == '.' && seg@[1] == '.');
            }
        }
        false
    }
}

/// The canonical text of the absolute path `p`: dot segments removed,
/// clamped at the root.
pub fn normalize_path(p: &Vec<char>) -> (r: Vec<char>)
    requires
        p@.len() >= 1,
        p@[0] == '/',
    ensures
        r@ == norm_path(p@),
{
    let segs = split_segments(p, 1);
    let ghost all = seq_views(segs@);
    let mut stack: Vec<Vec<char>> = Vec::new();
    let mut i: usize = 0;
    while i < segs.len()
        invariant
            i <= segs@.len(),
            all == seq_views(segs@),
            seq_views(stack@) =~= norm_segs(all.take(i as int)),
        decreases segs@.len() - i,
    {
        proof {
            assert(all.take(i + 1).drop_last() =~= all.take(i as int));
            assert(all.take(i + 1).last() == segs@[i as int]@);
        }
        let seg = &segs[i];
        if is_dot(seg) {
        } else if is_dotdot(seg) {
            if stack.len() > 0 {
                let _popped = stack.pop();
                proof {
                    assert(seq_views(stack@) =~= norm_segs(all.take(i as int)).drop_last());
                }
            }
        } else {
            let kept = subvec(seg, 0, seg.len());
            proof {
                assert(kept@ =~= seg@);
            }
            stack.push(kept);
            proof {
                assert(seq_views(stack@) =~= norm_segs(all.take(i as int)).push(seg@));
            }
        }
        i = i + 1;
    }
    proof {
        assert(all.take(segs@.len() as int) =~= all);
    }
    let mut out: Vec<char> = Vec::new();
    out.push('/');
    proof {
        assert(out@ =~= seq!['/'] + join_slash(seq_views(stack@).take(0int)));
    }
    let mut j: usize = 0;
    while j < stack.len()
        invariant
            j <= stack@.len(),
            seq_views(stack@) =~= norm_segs(all),
            all == seq_views(segs@),
            out@ =~= seq!['/'] + join_slash(seq_views(stack@).take(j as int)),
        decreases stack@.len() - j,
    {
        let ghost sv = seq_views(stack@);
        proof {
            assert(sv.take(j + 1).drop_last() =~= sv.take(j as int));
            assert(sv.take(j + 1).last() == stack@[j as int]@);
        }
        if j > 0 {
            out.push('/');
        }
        append_chars(&mut out, &stack[j]);
        proof {
            if j == 0 {
                assert(sv.take(1int) =~= seq![stack@[0int]@]);
                assert(join_slash(sv.take(1int)) == stack@[0int]@);
                assert(out@ =~= seq!['/'] + join_slash(sv.take(1int)));
            } else {
                assert(join_slash(sv.take(j + 1)) == join_slash(sv.take(j as int)) + seq!['/']
                    + stack@[j as int]@);
                assert(out@ =~= seq!['/'] + join_slash(sv.take(j + 1)));
            }
        }
        j = j + 1;
    }
    proof {
        assert(seq_views(stack@).take(stack@.len() as int) =~= seq_views(stack@));
        assert(out@ =~= seq!['/'] + join_slash(norm_segs(split_slash(p@.skip(1)))));
    }
    out
}

} // verus!
