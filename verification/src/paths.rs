//! Paths as `/`-separated strings.
//!
//! A module identity is a canonical path: its segments hold no `.`, no `..`
//! and no empty component.  Resolution builds candidate paths out of
//! segments, so this module provides splitting a path into segments, joining
//! segments back into a path, and normalizing away `.`, `..` and empty
//! segments.

use vstd::prelude::*;

verus! {

/// The segments of `s`, split on `/`.  Splitting never yields an empty list:
/// the empty string has the single empty segment.
pub open spec fn spec_split(s: Seq<char>) -> Seq<Seq<char>>
    decreases s.len(),
{
    if s.len() == 0 {
        seq![Seq::<char>::empty()]
    } else {
        let init = spec_split(s.drop_last());
        if s.last() == '/' {
            init.push(Seq::<char>::empty())
        } else {
            init.update(init.len() - 1, init.last().push(s.last()))
        }
    }
}

/// Splitting yields at least one segment.
pub proof fn lemma_spec_split_len(s: Seq<char>)
    ensures
        spec_split(s).len() >= 1,
    decreases s.len(),
{
    if s.len() > 0 {
        lemma_spec_split_len(s.drop_last());
    }
}

/// The segments joined with `/` between them.
pub open spec fn spec_join(segs: Seq<Seq<char>>) -> Seq<char>
    decreases segs.len(),
{
    if segs.len() == 0 {
        Seq::<char>::empty()
    } else if segs.len() == 1 {
        segs[0]
    } else {
        spec_join(segs.drop_last()) + seq!['/'] + segs.last()
    }
}

/// Resolves `.`, `..` and empty segments, left to right: `.` and the empty
/// segment disappear, `..` removes the segment before it.  `None` when a
/// `..` has nothing left to remove.
pub open spec fn spec_normalize(segs: Seq<Seq<char>>) -> Option<Seq<Seq<char>>>
    decreases segs.len(),
{
    if segs.len() == 0 {
        Some(Seq::<Seq<char>>::empty())
    } else {
        match spec_normalize(segs.drop_last()) {
            None => None,
            Some(stack) => {
                let last = segs.last();
                if last == Seq::<char>::empty() || last == seq!['.'] {
                    Some(stack)
                } else if last == seq!['.', '.'] {
                    if stack.len() == 0 {
                        None
                    } else {
                        Some(stack.drop_last())
                    }
                } else {
                    Some(stack.push(last))
                }
            },
        }
    }
}

/// The canonical form of a path: its segments normalized and rejoined.
/// `None` when a `..` escapes the root.
pub open spec fn spec_canonical(s: Seq<char>) -> Option<Seq<char>> {
    match spec_normalize(spec_split(s)) {
        Some(segs) => Some(spec_join(segs)),
        None => None,
    }
}

/// Whether the segment is the empty string.
fn seg_is_empty(s: &String) -> (r: bool)
    ensures
        r == (s@ == Seq::<char>::empty()),
{
    let r = s.as_str().unicode_len() == 0;
    proof {
        if s@.len() == 0 {
            assert(s@ =~= Seq::<char>::empty());
        }
    }
    r
}

/// Whether the segment is `.`.
fn seg_is_dot(s: &String) -> (r: bool)
    ensures
        r == (s@ == seq!['.']),
{
    let t = s.as_str();
    if t.unicode_len() == 1 {
        let r = t.get_char(0) == '.';
        proof {
            if r {
                assert(s@ =~= seq!['.']);
            } else {
                assert(s@ != seq!['.']) by {
                    assert(seq!['.'][0] == '.');
                }
            }
        }
        r
    } else {
        assert(s@ != seq!['.']) by {
            assert(seq!['.'].len() == 1);
        }
        false
    }
}

/// Whether the segment is `..`.
fn seg_is_dot_dot(s: &String) -> (r: bool)
    ensures
        r == (s@ == seq!['.', '.']),
{
    let t = s.as_str();
    if t.unicode_len() == 2 {
        let r = t.get_char(0) == '.' && t.get_char(1) == '.';
        proof {
            if r {
                assert(s@ =~= seq!['.', '.']);
            } else {
                assert(s@ != seq!['.', '.']) by {
                    assert(seq!['.', '.'][0] == '.' && seq!['.', '.'][1] == '.');
                }
            }
        }
        r
    } else {
        assert(s@ != seq!['.', '.']) by {
            assert(seq!['.', '.'].len() == 2);
        }
        false
    }
}

/// Splits a path into its segments.
pub fn split_path(s: &str) -> (segs: Vec<String>)
    ensures
        segs.deep_view() == spec_split(s@),
        segs.len() >= 1,
{
    let n = s.unicode_len();
    let mut segs: Vec<String> = Vec::new();
    let mut start: usize = 0;
    let mut i: usize = 0;
    proof {
        assert(s@.take(0) =~= Seq::<char>::empty());
        assert(segs.deep_view().push(s@.subrange(0, 0)) =~= seq![Seq::<char>::empty()]);
    }
    while i < n
        invariant
            n == s@.len(),
            start <= i <= n,
            segs.deep_view().push(s@.subrange(start as int, i as int)) == spec_split(
                s@.take(i as int),
            ),
        decreases n - i,
    {
        let ghost prev = segs.deep_view();
        let c = s.get_char(i);
        proof {
            assert(s@.take(i as int + 1).drop_last() =~= s@.take(i as int));
            assert(s@.take(i as int + 1).last() == s@[i as int]);
        }
        if c == '/' {
            let seg = s.substring_char(start, i);
            let ghost old_start = start as int;
            segs.push(String::from_str(seg));
            start = i + 1;
            proof {
                assert(segs.deep_view() =~= prev.push(s@.subrange(old_start, i as int)));
                assert(s@.subrange(start as int, i as int + 1) =~= Seq::<char>::empty());
                assert(segs.deep_view().push(s@.subrange(start as int, i as int + 1)) =~= spec_split(
                    s@.take(i as int + 1),
                ));
            }
        } else {
            proof {
                let sp = spec_split(s@.take(i as int));
                lemma_spec_split_len(s@.take(i as int));
                assert(sp.last() == s@.subrange(start as int, i as int));
                assert(s@.subrange(start as int, i as int).push(s@[i as int]) =~= s@.subrange(
                    start as int,
                    i as int + 1,
                ));
                assert(segs.deep_view().push(s@.subrange(start as int, i as int + 1)) =~= sp.update(
                    sp.len() - 1,
                    sp.last().push(s@[i as int]),
                ));
            }
        }
        i += 1;
    }
    let seg = s.substring_char(start, n);
    segs.push(String::from_str(seg));
    proof {
        assert(s@.take(n as int) =~= s@);
        assert(segs.deep_view() =~= spec_split(s@));
    }
    segs
}

/// Joins segments with `/` between them.
pub fn join_path(segs: &Vec<String>) -> (r: String)
    ensures
        r@ == spec_join(segs.deep_view()),
{
    let mut r = String::new();
    let n = segs.len();
    let mut i: usize = 0;
    proof {
        reveal_strlit("/");
        assert(segs.deep_view().take(0) =~= Seq::<Seq<char>>::empty());
    }
    while i < n
        invariant
            n == segs.len(),
            i <= n,
            r@ == spec_join(segs.deep_view().take(i as int)),
        decreases n - i,
    {
        proof {
            reveal_strlit("/");
        }
        if i > 0 {
            r.append("/");
        }
        r.append(segs[i].as_str());
        proof {
            let dv = segs.deep_view();
            assert(dv.take(i as int + 1).drop_last() =~= dv.take(i as int));
            assert(dv.take(i as int + 1).last() == dv[i as int]);
            if i == 0 {
                assert(r@ =~= spec_join(dv.take(1)));
            } else {
                assert(r@ =~= spec_join(dv.take(i as int)) + seq!['/'] + dv[i as int]);
            }
        }
        i += 1;
    }
    proof {
        assert(segs.deep_view().take(n as int) =~= segs.deep_view());
    }
    r
}

/// Normalizes a segment list: resolves `.`, `..` and empty segments.  `None`
/// when a `..` has nothing left to remove.
pub fn normalize_segments(segs: &Vec<String>) -> (r: Option<Vec<String>>)
    ensures
        r.deep_view() == spec_normalize(segs.deep_view()),
{
    let n = segs.len();
    let mut stack: Vec<String> = Vec::new();
    let mut i: usize = 0;
    proof {
        assert(segs.deep_view().take(0) =~= Seq::<Seq<char>>::empty());
        assert(stack.deep_view() =~= Seq::<Seq<char>>::empty());
    }
    while i < n
        invariant
            n == segs.len(),
            i <= n,
            Some(stack.deep_view()) == spec_normalize(segs.deep_view().take(i as int)),
        decreases n - i,
    {
        let ghost prev = stack.deep_view();
        let seg = &segs[i];
        proof {
            let dv = segs.deep_view();
            assert(dv.take(i as int + 1).drop_last() =~= dv.take(i as int));
            assert(dv.take(i as int + 1).last() == dv[i as int]);
        }
        if seg_is_empty(seg) || seg_is_dot(seg) {
            // dropped
        } else if seg_is_dot_dot(seg) {
            if stack.len() == 0 {
                proof {
                    lemma_normalize_none_extends(segs.deep_view(), i as int + 1);
                }
                return None;
            }
            let _ = stack.pop();
            proof {
                assert(stack.deep_view() =~= prev.drop_last());
            }
        } else {
            stack.push(seg.clone());
            proof {
                assert(stack.deep_view() =~= prev.push(segs.deep_view()[i as int]));
            }
        }
        i += 1;
    }
    proof {
        assert(segs.deep_view().take(n as int) =~= segs.deep_view());
    }
    Some(stack)
}

/// Once a prefix fails to normalize, the whole list fails.
proof fn lemma_normalize_none_extends(segs: Seq<Seq<char>>, k: int)
    requires
        0 <= k <= segs.len(),
        spec_normalize(segs.take(k)) is None,
    ensures
        spec_normalize(segs) is None,
    decreases segs.len() - k,
{
    if k < segs.len() {
        assert(segs.take(k + 1).drop_last() =~= segs.take(k));
        lemma_normalize_none_extends(segs, k + 1);
    } else {
        assert(segs.take(k) =~= segs);
    }
}

/// The canonical form of a path string: segments normalized, rejoined with
/// `/`.
pub fn canonical_path(s: &String) -> (r: Option<String>)
    ensures
        r.deep_view() == spec_canonical(s@),
{
    let segs = split_path(s.as_str());
    match normalize_segments(&segs) {
        Some(n) => Some(join_path(&n)),
        None => None,
    }
}

} // verus!
