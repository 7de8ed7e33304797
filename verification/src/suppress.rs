//! Inline suppression comments.
//!
//! On the line a diagnostic points at, a comment can suppress it:
//!   - `# noqa` suppresses every diagnostic on the line;
//!   - `# noqa: DJ001` or `# noqa: DJ001,DJ002` suppresses the codes listed;
//!   - `# thorn: ignore` suppresses every diagnostic on the line;
//!   - `# thorn: ignore[DJ001]` or `# thorn: ignore[DJ001,DJ002]` suppresses the codes listed.

use vstd::prelude::*;
use crate::diagnostic::Diagnostic;
use crate::text::{
    chars_of, char_index, char_index_in, contains_spec, find_chars, find_spec, lines_of,
    lines_spec, split_chars, split_spec, sub_chars, trim_bounds, trim_spec, views,
    lemma_find_contains, matches_at,
};

verus! {

pub open spec fn noqa_word() -> Seq<char> { seq!['n', 'o', 'q', 'a'] }

pub open spec fn noqa_colon() -> Seq<char> { seq!['n', 'o', 'q', 'a', ':'] }

pub open spec fn thorn_ignore() -> Seq<char> {
    seq!['t', 'h', 'o', 'r', 'n', ':', ' ', 'i', 'g', 'n', 'o', 'r', 'e']
}

/// Whether `code` is among the comma-separated entries of `list`, each entry
/// taken without surrounding white space.
pub open spec fn listed(list: Seq<char>, code: Seq<char>) -> bool {
    let parts = split_spec(list, ',');
    exists|k: int| 0 <= k < parts.len() && trim_spec(#[trigger] parts[k]) == code
}

/// `noqa: CODES` in the comment lists `code`.
pub open spec fn noqa_lists(comment: Seq<char>, code: Seq<char>) -> bool {
    match find_spec(comment, noqa_colon()) {
        Some(p) => listed(trim_spec(comment.skip(p + 5)), code),
        None => false,
    }
}

/// The comment holds a bare `noqa`, one not followed by a colon.
pub open spec fn bare_noqa(comment: Seq<char>) -> bool {
    contains_spec(comment, noqa_word()) && !contains_spec(comment, noqa_colon())
}

/// `thorn: ignore` in the comment suppresses `code`: either it has no list,
/// or its bracketed list names `code`.
pub open spec fn thorn_ignores(comment: Seq<char>, code: Seq<char>) -> bool {
    match find_spec(comment, thorn_ignore()) {
        None => false,
        Some(t) => {
            let rest = comment.skip(t + 13);
            if rest.len() > 0 && rest[0] == '[' {
                match char_index(rest, ']') {
                    Some(e) => listed(rest.subrange(1, e), code),
                    None => false,
                }
            } else {
                true
            }
        },
    }
}

/// Whether a comment on `line` suppresses the code `code`.
pub open spec fn line_suppresses(line: Seq<char>, code: Seq<char>) -> bool {
    match char_index(line, '#') {
        None => false,
        Some(h) => {
            let comment = line.skip(h);
            noqa_lists(comment, code) || bare_noqa(comment) || thorn_ignores(comment, code)
        },
    }
}

/// Whether `d` is suppressed by a comment among `lines`.
pub open spec fn is_suppressed(d: Diagnostic, lines: Seq<Seq<char>>) -> bool {
    match d.line {
        None => false,
        Some(n) => 1 <= n && n - 1 < lines.len() && line_suppresses(lines[n - 1], d.code@),
    }
}

/// The diagnostics of `ds` that no comment among `lines` suppresses, in order.
pub open spec fn unsuppressed(ds: Seq<Diagnostic>, lines: Seq<Seq<char>>) -> Seq<Diagnostic>
    decreases ds.len(),
{
    if ds.len() == 0 {
        Seq::empty()
    } else {
        let kept = unsuppressed(ds.drop_last(), lines);
        if is_suppressed(ds.last(), lines) { kept } else { kept.push(ds.last()) }
    }
}

/// Whether `cs[a..b]` holds exactly `code`.
fn range_is(cs: &Vec<char>, a: usize, b: usize, code: &Vec<char>) -> (r: bool)
    requires
        a <= b <= cs@.len(),
    ensures
        r == (cs@.subrange(a as int, b as int) == code@),
{
    if b - a != code.len() {
        return false;
    }
    matches_at(cs, a, code)
}

fn listed_exec(list: &Vec<char>, code: &Vec<char>) -> (r: bool)
    ensures
        r == listed(list@, code@),
{
    let parts = split_chars(list, 0, list.len(), ',');
    assert(list@.subrange(0, list@.len() as int) =~= list@);
    let ghost ps = split_spec(list@, ',');
    assert(ps.len() == parts@.len()) by { assert(views(parts@).len() == parts@.len()); }
    let mut k: usize = 0;
    while k < parts.len()
        invariant
            ps == split_spec(list@, ','),
            ps == views(parts@),
            k <= parts@.len(),
            ps.len() == parts@.len(),
            forall|j: int| 0 <= j < k ==> trim_spec(#[trigger] ps[j]) != code@,
        decreases parts@.len() - k,
    {
        let part = &parts[k];
        assert(ps[k as int] == part@);
        let (a, b) = trim_bounds(part, 0, part.len());
        assert(part@.subrange(0, part@.len() as int) =~= part@);
        if range_is(part, a, b, code) {
            return true;
        }
        k = k + 1;
    }
    false
}

fn word(s: &str) -> (r: Vec<char>)
    ensures
        r@ == s@,
{
    chars_of(s)
}

fn line_suppresses_exec(line: &Vec<char>, code: &Vec<char>) -> (r: bool)
    ensures
        r == line_suppresses(line@, code@),
{
    let h = match char_index_in(line, '#', 0, line.len()) {
        Some(h) => h,
        None => {
            assert(line@.subrange(0, line@.len() as int) =~= line@);
            return false;
        },
    };
    assert(line@.subrange(0, line@.len() as int) =~= line@);
    let comment = sub_chars(line, h, line.len());
    assert(comment@ =~= line@.skip(h as int));
    proof {
        reveal_strlit("noqa");
        reveal_strlit("noqa:");
        reveal_strlit("thorn: ignore");
    }
    let noqa = word("noqa");
    let noqa_c = word("noqa:");
    let thorn = word("thorn: ignore");
    assert(noqa@ =~= noqa_word());
    assert(noqa_c@ =~= noqa_colon());
    assert(thorn@ =~= thorn_ignore());
    match find_chars(&comment, &noqa_c, 0) {
        Some(p) => {
            proof { crate::text::lemma_find_from(comment@, noqa_c@, 0); }
            let (a, b) = trim_bounds(&comment, p + 5, comment.len());
            assert(comment@.subrange(p + 5, comment@.len() as int) =~= comment@.skip(p + 5));
            let list = sub_chars(&comment, a, b);
            if listed_exec(&list, code) {
                return true;
            }
        },
        None => {},
    }
    let has_noqa = find_chars(&comment, &noqa, 0).is_some();
    let has_noqa_c = find_chars(&comment, &noqa_c, 0).is_some();
    proof {
        lemma_find_contains(comment@, noqa_word());
        lemma_find_contains(comment@, noqa_colon());
    }
    if has_noqa && !has_noqa_c {
        return true;
    }
    match find_chars(&comment, &thorn, 0) {
        None => false,
        Some(t) => {
            proof { crate::text::lemma_find_from(comment@, thorn@, 0); }
            let r0 = t + 13;
            let ghost rest = comment@.skip(r0 as int);
            if r0 < comment.len() && comment[r0] == '[' {
                assert(rest[0] == comment@[r0 as int]);
                assert(comment@.subrange(r0 as int, comment@.len() as int) =~= rest);
                match char_index_in(&comment, ']', r0, comment.len()) {
                    Some(e) => {
                        proof { crate::text::lemma_char_index(rest, ']'); }
                        assert(rest.subrange(1, e - r0) =~= comment@.subrange(r0 + 1, e as int));
                        let list = sub_chars(&comment, r0 + 1, e);
                        listed_exec(&list, code)
                    },
                    None => false,
                }
            } else {
                true
            }
        },
    }
}

fn is_suppressed_exec(d: &Diagnostic, lines: &Vec<Vec<char>>) -> (r: bool)
    ensures
        r == is_suppressed(*d, views(lines@)),
{
    match d.line {
        None => false,
        Some(n) => {
            if n == 0 {
                return false;
            }
            let k = (n - 1) as usize;
            if k < lines.len() {
                let code = chars_of(d.code.as_str());
                assert(views(lines@)[k as int] == lines@[k as int]@);
                line_suppresses_exec(&lines[k], &code)
            } else {
                false
            }
        },
    }
}

/// Removes the diagnostics that a comment on their line suppresses, keeping
/// the others in order. Line numbers count from 1; a diagnostic at line 0 is
/// on no line and is kept.
pub fn filter_suppressed(diagnostics: &mut Vec<Diagnostic>, source: &str)
    ensures
        final(diagnostics)@ == unsuppressed(old(diagnostics)@, lines_spec(source@)),
{
    let lines = lines_of(source);
    let ghost ls = lines_spec(source@);
    let ghost all = diagnostics@;
    let mut pending: Vec<Diagnostic> = Vec::new();
    std::mem::swap(&mut pending, diagnostics);
    let mut reversed: Vec<Diagnostic> = Vec::new();
    while pending.len() > 0
        invariant
            all == pending@ + reversed@.reverse(),
        decreases pending@.len(),
    {
        let d = pending.pop().unwrap();
        proof {
            assert(pending@.push(d) + reversed@.reverse() =~= pending@ + reversed@.push(d).reverse());
        }
        reversed.push(d);
    }
    assert(all =~= reversed@.reverse());
    let mut kept: Vec<Diagnostic> = Vec::new();
    let ghost total = reversed@.len();
    assert forall|j: int| 0 <= j < reversed@.len() implies #[trigger] reversed@[j] == all[total - 1 - j] by {
        assert(reversed@.reverse()[total - 1 - j] == reversed@[j]);
    }
    assert(all.subrange(0, 0) =~= Seq::<Diagnostic>::empty());
    while reversed.len() > 0
        invariant
            total == all.len(),
            reversed@.len() <= total,
            forall|j: int| 0 <= j < reversed@.len() ==> #[trigger] reversed@[j] == all[total - 1 - j],
            kept@ == unsuppressed(all.subrange(0, total - reversed@.len()), ls),
            ls == views(lines@),
        decreases reversed@.len(),
    {
        let ghost before = total - reversed@.len();
        let d = reversed.pop().unwrap();
        assert(d == all[before]);
        proof {
            assert(all.subrange(0, before + 1).drop_last() =~= all.subrange(0, before));
        }
        if !is_suppressed_exec(&d, &lines) {
            kept.push(d);
        }
    }
    assert(all.subrange(0, total as int) =~= all);
    *diagnostics = kept;
}

/// A `# thorn: ignore[...]` comment suppresses each code it lists: on a line
/// whose first `#` opens `# thorn: ignore[L]`, every comma-separated entry of
/// `L`, taken without surrounding white space, is suppressed.
pub proof fn lemma_ignore_list_suppresses(pre: Seq<char>, list: Seq<char>, post: Seq<char>, k: int)
    requires
        forall|j: int| 0 <= j < pre.len() ==> pre[j] != '#',
        forall|j: int| 0 <= j < list.len() ==> list[j] != ']',
        0 <= k < split_spec(list, ',').len(),
    ensures
        line_suppresses(
            pre + seq!['#', ' '] + thorn_ignore() + seq!['['] + list + seq![']'] + post,
            trim_spec(split_spec(list, ',')[k]),
        ),
{
    let code = trim_spec(split_spec(list, ',')[k]);
    let t = thorn_ignore();
    let line = pre + seq!['#', ' '] + t + seq!['['] + list + seq![']'] + post;
    let h = pre.len() as int;
    assert(line[h] == '#');
    assert forall|j: int| 0 <= j < h implies line[j] != '#' by {
        assert(line[j] == pre[j]);
    }
    crate::text::lemma_char_index_is(line, '#', Some(h));
    let comment = line.skip(h);
    assert(comment =~= seq!['#', ' '] + t + seq!['['] + list + seq![']'] + post);
    assert(comment.subrange(2, 15) =~= t);
    assert(comment.subrange(1, 14)[0] != t[0]);
    assert(comment.subrange(0, 13)[0] != t[0]);
    assert(crate::text::find_from(comment, t, 2) == Some(2int));
    assert(crate::text::find_from(comment, t, 1) == Some(2int));
    assert(crate::text::find_from(comment, t, 0) == Some(2int));
    let rest = comment.skip(15);
    assert(rest =~= seq!['['] + list + seq![']'] + post);
    let e: int = list.len() as int + 1;
    assert(rest[e] == ']');
    assert forall|j: int| 0 <= j < e implies rest[j] != ']' by {
        if j > 0 {
            assert(rest[j] == list[j - 1]);
        }
    }
    crate::text::lemma_char_index_is(rest, ']', Some(e));
    assert(rest.subrange(1, e) =~= list);
    assert(trim_spec(split_spec(list, ',')[k]) == code);
    assert(listed(list, code));
    assert(thorn_ignores(comment, code));
}

/// A `# noqa: ...` comment suppresses each code it lists: on a line whose first
/// `#` opens `# noqa:` followed by the list `L` (no white space at either end),
/// every comma-separated entry of `L`, taken without surrounding white space,
/// is suppressed.
pub proof fn lemma_noqa_list_suppresses(pre: Seq<char>, list: Seq<char>, k: int)
    requires
        forall|j: int| 0 <= j < pre.len() ==> pre[j] != '#',
        list.len() > 0,
        !crate::text::is_ws(list[0]),
        !crate::text::is_ws(list.last()),
        0 <= k < split_spec(list, ',').len(),
    ensures
        line_suppresses(pre + seq!['#', ' '] + noqa_colon() + list, trim_spec(split_spec(list, ',')[k])),
{
    let code = trim_spec(split_spec(list, ',')[k]);
    let w = noqa_colon();
    let line = pre + seq!['#', ' '] + w + list;
    let h = pre.len() as int;
    assert(line[h] == '#');
    assert forall|j: int| 0 <= j < h implies line[j] != '#' by {
        assert(line[j] == pre[j]);
    }
    crate::text::lemma_char_index_is(line, '#', Some(h));
    let comment = line.skip(h);
    assert(comment =~= seq!['#', ' '] + w + list);
    assert(comment.subrange(2, 7) =~= w);
    assert(comment.subrange(1, 6)[0] != w[0]);
    assert(comment.subrange(0, 5)[0] != w[0]);
    assert(crate::text::find_from(comment, w, 2) == Some(2int));
    assert(crate::text::find_from(comment, w, 1) == Some(2int));
    assert(crate::text::find_from(comment, w, 0) == Some(2int));
    assert(comment.skip(7) =~= list);
    assert(trim_spec(list) == list);
    assert(listed(list, code));
    assert(noqa_lists(comment, code));
}

/// Filtering is idempotent: what one pass keeps, a second pass keeps whole.
pub proof fn lemma_unsuppressed_idempotent(ds: Seq<Diagnostic>, lines: Seq<Seq<char>>)
    ensures
        unsuppressed(unsuppressed(ds, lines), lines) == unsuppressed(ds, lines),
    decreases ds.len(),
{
    if ds.len() > 0 {
        lemma_unsuppressed_idempotent(ds.drop_last(), lines);
        let kept = unsuppressed(ds.drop_last(), lines);
        if !is_suppressed(ds.last(), lines) {
            assert(kept.push(ds.last()).drop_last() =~= kept);
        }
    }
}

/// Filtering keeps a subsequence: every kept diagnostic is one of the input's,
/// and none of the kept ones is suppressed.
pub proof fn lemma_unsuppressed_kept(ds: Seq<Diagnostic>, lines: Seq<Seq<char>>)
    ensures
        unsuppressed(ds, lines).len() <= ds.len(),
        forall|i: int| 0 <= i < unsuppressed(ds, lines).len() ==>
            ds.contains(#[trigger] unsuppressed(ds, lines)[i]) && !is_suppressed(unsuppressed(ds, lines)[i], lines),
    decreases ds.len(),
{
    if ds.len() > 0 {
        lemma_unsuppressed_kept(ds.drop_last(), lines);
        let kept = unsuppressed(ds.drop_last(), lines);
        assert forall|i: int| 0 <= i < unsuppressed(ds, lines).len() implies
            ds.contains(#[trigger] unsuppressed(ds, lines)[i]) && !is_suppressed(unsuppressed(ds, lines)[i], lines) by {
            if i < kept.len() {
                let x = kept[i];
                assert(ds.drop_last().contains(x));
                let j = choose|j: int| 0 <= j < ds.drop_last().len() && ds.drop_last()[j] == x;
                assert(ds[j] == x);
            } else {
                assert(ds[ds.len() - 1] == ds.last());
            }
        }
    }
}

} // verus!
