//! Shaping the findings for the report: suppressing findings on ignored
//! files, and grouping the rest by file.
//!
//! An ignore pattern suppresses findings for matching files in the final
//! report, but the files stay in the graph and their raw findings still
//! count; an exclude pattern (consumed by the graph builder) removes files
//! from the graph entirely.

use vstd::prelude::*;

use crate::find_unused_exports::UnusedExport;
use crate::find_unused_exports::clone_unused_export;
use crate::patterns::any_pattern_matches;
use crate::patterns::matches_any;

verus! {

/// The findings that survive the ignore patterns, in order: exactly those
/// whose filename no pattern matches.
pub open spec fn kept_exports(us: Seq<UnusedExport>, patterns: Seq<Seq<char>>) -> Seq<UnusedExport>
    decreases us.len(),
{
    if us.len() == 0 {
        Seq::empty()
    } else {
        let init = kept_exports(us.drop_last(), patterns);
        if any_pattern_matches(patterns, us.last().deep_view().filename) {
            init
        } else {
            init.push(us.last())
        }
    }
}

/// Drops every finding whose filename an ignore pattern matches; the rest
/// keep their order.
pub fn filter_ignored(unused_exports: &Vec<UnusedExport>, ignore_patterns: &Vec<String>) -> (r:
    Vec<UnusedExport>)
    ensures
        r@ == kept_exports(unused_exports@, ignore_patterns.deep_view()),
{
    let n = unused_exports.len();
    let mut r: Vec<UnusedExport> = Vec::new();
    let mut i: usize = 0;
    proof {
        assert(unused_exports@.take(0) =~= Seq::<UnusedExport>::empty());
        assert(r@ =~= kept_exports(unused_exports@.take(0), ignore_patterns.deep_view()));
    }
    while i < n
        invariant
            n == unused_exports@.len(),
            i <= n,
            r@ == kept_exports(unused_exports@.take(i as int), ignore_patterns.deep_view()),
        decreases n - i,
    {
        let e = &unused_exports[i];
        proof {
            assert(unused_exports@.take(i as int + 1).drop_last() =~= unused_exports@.take(
                i as int,
            ));
            assert(unused_exports@.take(i as int + 1).last() == unused_exports@[i as int]);
        }
        if !matches_any(ignore_patterns, e.filename.as_str()) {
            let c = clone_unused_export(e);
            r.push(c);
            proof {
                assert(r@ =~= kept_exports(
                    unused_exports@.take(i as int + 1),
                    ignore_patterns.deep_view(),
                ));
            }
        }
        i += 1;
    }
    proof {
        assert(unused_exports@.take(n as int) =~= unused_exports@);
    }
    r
}

/// The findings whose filename is `key`, in order.
pub open spec fn findings_for(us: Seq<UnusedExport>, key: Seq<char>) -> Seq<UnusedExport>
    decreases us.len(),
{
    if us.len() == 0 {
        Seq::empty()
    } else {
        let init = findings_for(us.drop_last(), key);
        if us.last().deep_view().filename == key {
            init.push(us.last())
        } else {
            init
        }
    }
}

/// Whether some key equals `name`.
spec fn has_key(keys: Seq<String>, name: Seq<char>) -> bool {
    exists|b: int| 0 <= b < keys.len() && (#[trigger] keys[b])@ == name
}

/// Whether some finding carries the filename `name`.
pub open spec fn has_filename(us: Seq<UnusedExport>, name: Seq<char>) -> bool {
    exists|k: int| 0 <= k < us.len() && (#[trigger] us[k]).deep_view().filename == name
}

/// Every key is the filename of some finding.
spec fn keys_from(keys: Seq<String>, us: Seq<UnusedExport>) -> bool {
    forall|b: int| 0 <= b < keys.len() ==> has_filename(us, (#[trigger] keys[b])@)
}

/// Every group carries the filename of some finding.
pub open spec fn groups_from(r: Seq<(String, Vec<UnusedExport>)>, us: Seq<UnusedExport>) -> bool {
    forall|i: int| 0 <= i < r.len() ==> has_filename(us, (#[trigger] r[i]).0@)
}

/// Every finding's filename occurs among the keys.
spec fn covered(keys: Seq<String>, us: Seq<UnusedExport>) -> bool {
    forall|k: int|
        0 <= k < us.len() ==> has_key(keys, (#[trigger] us[k]).deep_view().filename)
}

/// Collects the findings of one file, in order.
fn collect_for(unused_exports: &Vec<UnusedExport>, key: &String) -> (r: Vec<UnusedExport>)
    ensures
        r@ == findings_for(unused_exports@, key@),
{
    let n = unused_exports.len();
    let mut r: Vec<UnusedExport> = Vec::new();
    let mut i: usize = 0;
    proof {
        assert(unused_exports@.take(0) =~= Seq::<UnusedExport>::empty());
        assert(r@ =~= findings_for(unused_exports@.take(0), key@));
    }
    while i < n
        invariant
            n == unused_exports@.len(),
            i <= n,
            r@ == findings_for(unused_exports@.take(i as int), key@),
        decreases n - i,
    {
        let e = &unused_exports[i];
        proof {
            assert(unused_exports@.take(i as int + 1).drop_last() =~= unused_exports@.take(
                i as int,
            ));
            assert(unused_exports@.take(i as int + 1).last() == unused_exports@[i as int]);
        }
        if e.filename == *key {
            let c = clone_unused_export(e);
            r.push(c);
            proof {
                assert(r@ =~= findings_for(unused_exports@.take(i as int + 1), key@));
            }
        }
        i += 1;
    }
    proof {
        assert(unused_exports@.take(n as int) =~= unused_exports@);
    }
    r
}

/// Whether some group carries the file name `name`.
pub open spec fn has_group(r: Seq<(String, Vec<UnusedExport>)>, name: Seq<char>) -> bool {
    exists|i: int| 0 <= i < r.len() && (#[trigger] r[i]).0@ == name
}

/// Every finding's filename has a group.
pub open spec fn groups_cover(r: Seq<(String, Vec<UnusedExport>)>, us: Seq<UnusedExport>) -> bool {
    forall|k: int| 0 <= k < us.len() ==> has_group(r, (#[trigger] us[k]).deep_view().filename)
}

/// Groups the findings by file: one group per distinct filename drawn from
/// the findings, holding that file's findings in their original order, and
/// covering every finding.
pub fn group_by_path(unused_exports: &Vec<UnusedExport>) -> (r: Vec<(String, Vec<UnusedExport>)>)
    ensures
        forall|i: int, j: int| 0 <= i < j < r@.len() ==> (#[trigger] r@[i]).0@ != (
        #[trigger] r@[j]).0@,
        forall|i: int|
            0 <= i < r@.len() ==> (#[trigger] r@[i]).1@ == findings_for(unused_exports@, r@[i].0@),
        groups_cover(r@, unused_exports@),
        groups_from(r@, unused_exports@),
{
    let n = unused_exports.len();
    let mut keys: Vec<String> = Vec::new();
    let mut i: usize = 0;
    while i < n
        invariant
            n == unused_exports@.len(),
            i <= n,
            forall|a: int, b: int| 0 <= a < b < keys@.len() ==> (#[trigger] keys@[a])@ != (
            #[trigger] keys@[b])@,
            covered(keys@, unused_exports@.take(i as int)),
            keys_from(keys@, unused_exports@),
        decreases n - i,
    {
        let ghost prev = keys@;
        let f = &unused_exports[i].filename;
        let mut seen = false;
        let kn = keys.len();
        let mut a: usize = 0;
        while a < kn
            invariant
                kn == keys@.len(),
                a <= kn,
                f == unused_exports@[i as int].filename,
                i < n == unused_exports@.len(),
                seen ==> has_key(keys@, f@),
                !seen ==> forall|b: int| 0 <= b < a ==> (#[trigger] keys@[b])@ != f@,
            decreases kn - a,
        {
            if keys[a] == *f {
                seen = true;
                assert(keys@[a as int]@ == f@);
            }
            a += 1;
        }
        if !seen {
            keys.push(f.clone());
            proof {
                assert(keys@ =~= prev.push(unused_exports@[i as int].filename));
                assert forall|b: int| 0 <= b < keys@.len() implies has_filename(
                    unused_exports@,
                    (#[trigger] keys@[b])@,
                ) by {
                    if b < prev.len() {
                        assert(keys@[b] == prev[b]);
                        assert(has_filename(unused_exports@, prev[b]@));
                    } else {
                        assert(unused_exports@[i as int].deep_view().filename == keys@[b]@);
                    }
                }
            }
        }
        proof {
            let upto = unused_exports@.take(i as int + 1);
            assert forall|k: int| 0 <= k < upto.len() implies has_key(
                keys@,
                (#[trigger] upto[k]).deep_view().filename,
            ) by {
                assert(upto[k] == unused_exports@[k]);
                if k < i {
                    assert(unused_exports@.take(i as int)[k] == unused_exports@[k]);
                    assert(has_key(prev, unused_exports@.take(i as int)[k].deep_view().filename));
                    let b = choose|b: int|
                        0 <= b < prev.len() && (#[trigger] prev[b])@
                            == unused_exports@.take(i as int)[k].deep_view().filename;
                    assert(keys@[b]@ == upto[k].deep_view().filename);
                } else {
                    if seen {
                        let b = choose|b: int|
                            0 <= b < keys@.len() && (#[trigger] keys@[b])@ == f@;
                        assert(keys@[b]@ == upto[k].deep_view().filename);
                    } else {
                        assert(keys@[keys@.len() - 1]@ == upto[k].deep_view().filename);
                    }
                }
            }
            assert(covered(keys@, upto));
        }
        i += 1;
    }
    proof {
        assert(unused_exports@.take(n as int) =~= unused_exports@);
    }
    let kn = keys.len();
    let mut r: Vec<(String, Vec<UnusedExport>)> = Vec::new();
    let mut a: usize = 0;
    while a < kn
        invariant
            kn == keys@.len(),
            a <= kn,
            r@.len() == a,
            forall|b: int, c: int| 0 <= b < c < keys@.len() ==> (#[trigger] keys@[b])@ != (
            #[trigger] keys@[c])@,
            forall|b: int| 0 <= b < a ==> (#[trigger] r@[b]).0@ == keys@[b]@,
            forall|b: int|
                0 <= b < a ==> (#[trigger] r@[b]).1@ == findings_for(unused_exports@, keys@[b]@),
            covered(keys@, unused_exports@),
            keys_from(keys@, unused_exports@),
        decreases kn - a,
    {
        let key = keys[a].clone();
        let group = collect_for(unused_exports, &key);
        r.push((key, group));
        a += 1;
    }
    proof {
        assert forall|i: int| 0 <= i < r@.len() implies has_filename(
            unused_exports@,
            (#[trigger] r@[i]).0@,
        ) by {
            assert(r@[i].0@ == keys@[i]@);
            assert(has_filename(unused_exports@, keys@[i]@));
        }
        assert forall|k: int| 0 <= k < unused_exports@.len() implies has_group(
            r@,
            (#[trigger] unused_exports@[k]).deep_view().filename,
        ) by {
            assert(covered(keys@, unused_exports@));
            assert(has_key(keys@, unused_exports@[k].deep_view().filename));
            let b = choose|b: int|
                0 <= b < keys@.len() && (#[trigger] keys@[b])@
                    == unused_exports@[k].deep_view().filename;
            assert(r@[b].0@ == unused_exports@[k].deep_view().filename);
        }
    }
    r
}

} // verus!
