//! Which files a directory walk lints: the exclude patterns and the directories
//! that are always skipped.

use vstd::prelude::*;
use crate::text::{
    contains, contains_spec, ends_with_spec, find_chars, find_from, lemma_find_from, matches_at, split_chars,
    split_spec, sub_chars, trim_char, trim_char_spec, views,
};
use crate::model::strs_m;

verus! {

/// The parts `segs` occur one after another in `path`, without overlapping,
/// the first of them at or after position `from`.
pub open spec fn occur_in_order(path: Seq<char>, segs: Seq<Seq<char>>, from: int) -> bool
    decreases segs.len(),
{
    if segs.len() == 0 {
        true
    } else {
        exists|i: int|
            from <= i && i + segs[0].len() <= path.len()
                && #[trigger] path.subrange(i, i + segs[0].len()) == segs[0]
                && occur_in_order(path, segs.drop_first(), i + segs[0].len())
    }
}

/// The literal parts of a pattern: what lies between its stars, once the
/// stars at either end are taken off.
pub open spec fn glob_parts(pattern: Seq<char>) -> Seq<Seq<char>> {
    split_spec(trim_char_spec(pattern, '*'), '*')
}

/// What `match_glob` decides: each `*` stands for any characters, and the
/// pattern may match any part of the path. The literal parts of the pattern
/// occur in the path in order; where the pattern begins with `*` and does not
/// end with one, the last part ends the path. So `*x*` and `x*` match paths
/// that contain `x`, `*x` those that end with `x`, `*/m/*.py` those that hold
/// `/m/` and end with `.py` after it, and a pattern without stars any path
/// that contains it.
pub open spec fn glob_matches(pattern: Seq<char>, path: Seq<char>) -> bool {
    let parts = glob_parts(pattern);
    let leading = pattern.len() > 0 && pattern[0] == '*';
    let trailing = pattern.len() > 0 && pattern.last() == '*';
    if leading && !trailing {
        let last = parts.last();
        ends_with_spec(path, last) && occur_in_order(path.subrange(0, path.len() - last.len()), parts.drop_last(), 0)
    } else {
        occur_in_order(path, parts, 0)
    }
}

/// A split gives at least one part.
proof fn lemma_split_nonempty(s: Seq<char>, sep: char)
    ensures
        split_spec(s, sep).len() >= 1,
{
}

/// A later start that works leaves an earlier one working.
proof fn lemma_in_order_earlier(path: Seq<char>, segs: Seq<Seq<char>>, a: int, b: int)
    requires
        a <= b,
        occur_in_order(path, segs, b),
    ensures
        occur_in_order(path, segs, a),
{
    if segs.len() > 0 {
        let i = choose|i: int|
            b <= i && i + segs[0].len() <= path.len()
                && #[trigger] path.subrange(i, i + segs[0].len()) == segs[0]
                && occur_in_order(path, segs.drop_first(), i + segs[0].len());
        assert(a <= i && path.subrange(i, i + segs[0].len()) == segs[0]);
    }
}

/// Taking the first place of the first part loses no match.
proof fn lemma_in_order_first(path: Seq<char>, segs: Seq<Seq<char>>, from: int)
    requires
        segs.len() > 0,
        0 <= from,
    ensures
        match find_from(path, segs[0], from) {
            Some(i) => occur_in_order(path, segs, from) == occur_in_order(path, segs.drop_first(), i + segs[0].len()),
            None => !occur_in_order(path, segs, from),
        },
{
    lemma_find_from(path, segs[0], from);
    match find_from(path, segs[0], from) {
        Some(i) => {
            if occur_in_order(path, segs.drop_first(), i + segs[0].len()) {
                assert(path.subrange(i, i + segs[0].len()) == segs[0]);
            }
            if occur_in_order(path, segs, from) {
                let j = choose|j: int|
                    from <= j && j + segs[0].len() <= path.len()
                        && #[trigger] path.subrange(j, j + segs[0].len()) == segs[0]
                        && occur_in_order(path, segs.drop_first(), j + segs[0].len());
                assert(i <= j);
                lemma_in_order_earlier(path, segs.drop_first(), i + segs[0].len(), j + segs[0].len());
            }
        },
        None => {
            if occur_in_order(path, segs, from) {
                let j = choose|j: int|
                    from <= j && j + segs[0].len() <= path.len()
                        && #[trigger] path.subrange(j, j + segs[0].len()) == segs[0]
                        && occur_in_order(path, segs.drop_first(), j + segs[0].len());
                assert(path.subrange(j, j + segs[0].len()) != segs[0]);
            }
        },
    }
}

/// A pattern without `*` matches exactly the paths that contain it.
pub proof fn lemma_plain_pattern_is_contains(pattern: Seq<char>, path: Seq<char>)
    requires
        forall|i: int| 0 <= i < pattern.len() ==> pattern[i] != '*',
    ensures
        glob_matches(pattern, path) == contains_spec(path, pattern),
{
    if pattern.len() > 0 {
        assert(pattern[0] != '*');
        assert(pattern.last() != '*');
    }
    assert(trim_char_spec(pattern, '*') == pattern);
    crate::text::lemma_char_index_is(pattern, '*', None);
    let parts = glob_parts(pattern);
    assert(parts =~= seq![pattern]);
    assert(parts.drop_first() =~= Seq::<Seq<char>>::empty());
    if contains_spec(path, pattern) {
        let i = choose|i: int| 0 <= i <= path.len() - pattern.len() && #[trigger] path.subrange(i, i + pattern.len()) == pattern;
        assert(parts[0] == pattern);
        assert(path.subrange(i, i + parts[0].len()) == parts[0]);
        assert(occur_in_order(path, parts.drop_first(), i + parts[0].len()));
        assert(occur_in_order(path, parts, 0));
    }
}

/// A pattern that is a single `*` matches every path.
pub proof fn lemma_star_matches_all(path: Seq<char>)
    ensures
        glob_matches(seq!['*'], path),
{
    let pattern = seq!['*'];
    assert(pattern.drop_first() =~= Seq::<char>::empty());
    assert(trim_char_spec(Seq::<char>::empty(), '*') == Seq::<char>::empty());
    assert(trim_char_spec(pattern, '*') == Seq::<char>::empty());
    crate::text::lemma_char_index_is(Seq::<char>::empty(), '*', None);
    let parts = glob_parts(pattern);
    assert(parts =~= seq![Seq::<char>::empty()]);
    assert(parts.drop_first() =~= Seq::<Seq<char>>::empty());
    assert(path.subrange(0int, 0int + parts[0].len()) =~= parts[0]);
    assert(occur_in_order(path, parts.drop_first(), 0int + parts[0].len()));
}

/// Whether the first `n` of the parts `segs` occur in order in `cs`.
fn parts_in_order(cs: &Vec<char>, segs: &Vec<Vec<char>>, n: usize) -> (b: bool)
    requires
        n <= segs@.len(),
    ensures
        b == occur_in_order(cs@, views(segs@).take(n as int), 0),
{
    let ghost all = views(segs@);
    let mut pos: usize = 0;
    let mut k: usize = 0;
    assert(all.subrange(0, n as int) =~= all.take(n as int));
    while k < n
        invariant
            all == views(segs@),
            n <= segs@.len(),
            k <= n,
            pos <= cs@.len(),
            occur_in_order(cs@, all.take(n as int), 0) == occur_in_order(cs@, all.subrange(k as int, n as int), pos as int),
        decreases n - k,
    {
        let ghost rest = all.subrange(k as int, n as int);
        assert(rest[0] == segs@[k as int]@);
        assert(rest.drop_first() =~= all.subrange(k + 1, n as int));
        proof { lemma_in_order_first(cs@, rest, pos as int); }
        match find_chars(cs, &segs[k], pos) {
            Some(i) => {
                let seg = &segs[k];
                proof { lemma_find_from(cs@, seg@, pos as int); }
                assert(i + seg@.len() <= cs@.len());
                assert(cs@.len() == cs.len());
                pos = i + seg.len();
            },
            None => {
                return false;
            },
        }
        k = k + 1;
    }
    assert(all.subrange(n as int, n as int).len() == 0);
    true
}

/// Glob matching: each `*` in the pattern stands for any characters, and a
/// pattern may match any part of the path, unless it begins with `*` and does
/// not end with one: then its end matches the end of the path.
pub fn match_glob(pattern: &str, path: &str) -> (r: bool)
    ensures
        r == glob_matches(pattern@, path@),
{
    let cs = crate::text::chars_of(pattern);
    let leading = cs.len() > 0 && cs[0] == '*';
    let trailing = cs.len() > 0 && cs[cs.len() - 1] == '*';
    let trimmed = crate::text::chars_of(trim_char(pattern, '*').as_str());
    let parts = split_chars(&trimmed, 0, trimmed.len(), '*');
    let pcs = crate::text::chars_of(path);
    proof {
        assert(trimmed@.subrange(0, trimmed@.len() as int) =~= trimmed@);
        lemma_split_nonempty(trimmed@, '*');
        assert(views(parts@) == glob_parts(pattern@));
        assert(views(parts@).take(parts@.len() as int) =~= views(parts@));
    }
    if leading && !trailing {
        let n = parts.len() - 1;
        let last = &parts[n];
        assert(last@ == glob_parts(pattern@).last());
        if last.len() > pcs.len() {
            return false;
        }
        let cut = pcs.len() - last.len();
        if !matches_at(&pcs, cut, last) {
            return false;
        }
        let prefix = sub_chars(&pcs, 0, cut);
        proof {
            assert(views(parts@).take(n as int) =~= glob_parts(pattern@).drop_last());
        }
        parts_in_order(&prefix, &parts, n)
    } else {
        parts_in_order(&pcs, &parts, parts.len())
    }
}

/// The directories whose contents a walk never lints.
pub open spec fn skipped_dirs() -> Seq<Seq<char>> {
    seq![
        seq!['/', '.', 'v', 'e', 'n', 'v', '/'],
        seq!['/', 'n', 'o', 'd', 'e', '_', 'm', 'o', 'd', 'u', 'l', 'e', 's', '/'],
        seq!['/', '_', '_', 'p', 'y', 'c', 'a', 'c', 'h', 'e', '_', '_', '/'],
        seq!['/', '.', 'g', 'i', 't', '/'],
    ]
}

/// Whether a walk lints the file at `path`: it lies in no skipped directory
/// and no exclude pattern matches it.
pub open spec fn keeps_path(path: Seq<char>, excludes: Seq<Seq<char>>) -> bool {
    &&& forall|k: int| 0 <= k < skipped_dirs().len() ==> !contains_spec(path, #[trigger] skipped_dirs()[k])
    &&& forall|k: int| 0 <= k < excludes.len() ==> !glob_matches(#[trigger] excludes[k], path)
}

/// Whether a walk lints the file at `path` (given as text): no `.venv`,
/// `node_modules`, `__pycache__` or `.git` directory holds it, and no exclude
/// pattern matches it.
pub fn keep_path(path: &str, excludes: &Vec<String>) -> (r: bool)
    ensures
        r == keeps_path(path@, strs_m(excludes@)),
{
    proof {
        reveal_strlit("/.venv/");
        reveal_strlit("/node_modules/");
        reveal_strlit("/__pycache__/");
        reveal_strlit("/.git/");
        assert("/.venv/"@ =~= skipped_dirs()[0]);
        assert("/node_modules/"@ =~= skipped_dirs()[1]);
        assert("/__pycache__/"@ =~= skipped_dirs()[2]);
        assert("/.git/"@ =~= skipped_dirs()[3]);
    }
    let in_skipped = contains(path, "/.venv/") || contains(path, "/node_modules/")
        || contains(path, "/__pycache__/") || contains(path, "/.git/");
    if in_skipped {
        return false;
    }
    assert forall|k: int| 0 <= k < skipped_dirs().len() implies !contains_spec(path@, #[trigger] skipped_dirs()[k]) by {
        if k == 0 {} else if k == 1 {} else if k == 2 {} else {}
    }
    let ghost ex = strs_m(excludes@);
    let mut i: usize = 0;
    while i < excludes.len()
        invariant
            ex == strs_m(excludes@),
            ex.len() == excludes@.len(),
            i <= excludes@.len(),
            forall|k: int| 0 <= k < i ==> !glob_matches(#[trigger] ex[k], path@),
        decreases excludes@.len() - i,
    {
        assert(ex[i as int] == excludes@[i as int]@);
        if match_glob(excludes[i].as_str(), path) {
            return false;
        }
        i = i + 1;
    }
    true
}

} // verus!
