//! The decisions of the command line that do not touch the outside world:
//! which excludes apply, which diagnostics are shown, and how their file
//! names read.

use vstd::prelude::*;
use crate::config::ThornConfig;
use crate::diagnostic::{Diagnostic, Level, level_rank};
use crate::linter::Linter;
use crate::model::strs_m;
use crate::text::{leading_count, starts_with_spec, str_eq, starts_with, split_leading};

verus! {

/// The level that `--check` names: `fix`, `all`, and `improve` for anything else.
pub open spec fn check_level(check: Seq<char>) -> Level {
    if check == seq!['f', 'i', 'x'] {
        Level::Fix
    } else if check == seq!['a', 'l', 'l'] {
        Level::All
    } else {
        Level::Improve
    }
}

/// The level that `--check` names.
pub fn check_level_of(check: &str) -> (r: Level)
    ensures
        r == check_level(check@),
{
    proof {
        reveal_strlit("fix");
        reveal_strlit("all");
        assert("fix"@ =~= seq!['f', 'i', 'x']);
        assert("all"@ =~= seq!['a', 'l', 'l']);
    }
    if str_eq(check, "fix") {
        Level::Fix
    } else if str_eq(check, "all") {
        Level::All
    } else {
        Level::Improve
    }
}

/// The lists of `lists`, one after another.
pub open spec fn flatten(lists: Seq<Seq<Seq<char>>>) -> Seq<Seq<char>>
    decreases lists.len(),
{
    if lists.len() == 0 {
        Seq::empty()
    } else {
        flatten(lists.drop_last()) + lists.last()
    }
}

/// The views of a list of string lists.
pub open spec fn lists_m(v: Seq<Vec<String>>) -> Seq<Seq<Seq<char>>> {
    v.map_values(|x: Vec<String>| strs_m(x@))
}

/// Appends the strings of `more` to `all`.
fn extend_strings(all: &mut Vec<String>, more: Vec<String>)
    ensures
        strs_m(final(all)@) == strs_m(old(all)@) + strs_m(more@),
{
    let mut more = more;
    let ghost a = all@;
    let ghost m = more@;
    all.append(&mut more);
    assert(all@ == a + m);
    assert(strs_m(a + m) =~= strs_m(a) + strs_m(m));
}

/// The excludes in force: those of the configuration file, then those of the
/// command line, then, where there is a `pyproject.toml` text, each plugin's.
pub fn merge_exclude_lists(
    file_config: &ThornConfig,
    cli_excludes: Vec<String>,
    plugin_excludes: Vec<Vec<String>>,
    pyproject_content: &str,
) -> (r: Vec<String>)
    ensures
        strs_m(r@) == strs_m(file_config.exclude@) + strs_m(cli_excludes@)
            + (if pyproject_content@.len() > 0 { flatten(lists_m(plugin_excludes@)) } else { Seq::<Seq<char>>::empty() }),
{
    let mut all: Vec<String> = Vec::new();
    let mut k: usize = 0;
    assert(strs_m(all@) =~= Seq::<Seq<char>>::empty());
    while k < file_config.exclude.len()
        invariant
            k <= file_config.exclude@.len(),
            strs_m(all@) == strs_m(file_config.exclude@.take(k as int)),
        decreases file_config.exclude@.len() - k,
    {
        let e = file_config.exclude[k].clone();
        assert(strs_m(all@.push(e)) =~= strs_m(all@).push(e@));
        assert(strs_m(file_config.exclude@.take(k + 1)) =~= strs_m(file_config.exclude@.take(k as int)).push(e@));
        all.push(e);
        k = k + 1;
    }
    assert(file_config.exclude@.take(file_config.exclude@.len() as int) =~= file_config.exclude@);
    extend_strings(&mut all, cli_excludes);
    let ghost base = strs_m(all@);
    if pyproject_content.is_empty() {
        assert(base + Seq::<Seq<char>>::empty() =~= base);
        return all;
    }
    let ghost lists = lists_m(plugin_excludes@);
    let mut plugin_excludes = plugin_excludes;
    let mut pending: Vec<Vec<String>> = Vec::new();
    while plugin_excludes.len() > 0
        invariant
            lists == lists_m(plugin_excludes@ + pending@.reverse()),
        decreases plugin_excludes@.len(),
    {
        let x = plugin_excludes.pop().unwrap();
        proof {
            assert(plugin_excludes@.push(x) + pending@.reverse() =~= plugin_excludes@ + pending@.push(x).reverse());
        }
        pending.push(x);
    }
    assert(plugin_excludes@ + pending@.reverse() =~= pending@.reverse());
    let ghost total = lists.len();
    assert(lists.len() == pending@.len());
    assert forall|j: int| 0 <= j < pending@.len() implies #[trigger] strs_m(pending@[j]@) == lists[total - 1 - j] by {
        assert(pending@.reverse()[total - 1 - j] == pending@[j]);
    }
    assert(lists.take(0) =~= Seq::<Seq<Seq<char>>>::empty());
    assert(base + flatten(lists.take(0)) =~= base);
    while pending.len() > 0
        invariant
            total == lists.len(),
            pending@.len() <= total,
            forall|j: int| 0 <= j < pending@.len() ==> #[trigger] strs_m(pending@[j]@) == lists[total - 1 - j],
            strs_m(all@) == base + flatten(lists.take(total - pending@.len())),
        decreases pending@.len(),
    {
        let ghost done = total - pending@.len();
        let x = pending.pop().unwrap();
        assert(strs_m(x@) == lists[done]);
        extend_strings(&mut all, x);
        proof {
            assert(lists.take(done + 1).drop_last() =~= lists.take(done));
            assert(lists.take(done + 1).last() == lists[done]);
            assert(base + flatten(lists.take(done)) + lists[done] =~= base + (flatten(lists.take(done)) + lists[done]));
        }
    }
    assert(lists.take(total as int) =~= lists);
    all
}

/// The excludes in force: those of the configuration file, then those of the
/// command line, then, where there is a `pyproject.toml` text, those that each
/// registered plugin reads from it.
pub fn merge_excludes(file_config: &ThornConfig, cli_excludes: Vec<String>, linter: &Linter, pyproject_content: &str) -> (r: Vec<String>)
    ensures
        pyproject_content@.len() == 0 ==> strs_m(r@) == strs_m(file_config.exclude@) + strs_m(cli_excludes@),
        pyproject_content@.len() > 0 ==> exists|plugin_lists: Seq<Seq<Seq<char>>>|
            plugin_lists.len() == linter.plugin_count()
                && strs_m(r@) == strs_m(file_config.exclude@) + strs_m(cli_excludes@) + flatten(plugin_lists),
{
    let lists = if pyproject_content.is_empty() { Vec::new() } else { linter.plugin_config_excludes(pyproject_content) };
    let r = merge_exclude_lists(file_config, cli_excludes, lists, pyproject_content);
    proof {
        if pyproject_content@.len() == 0 {
            assert(strs_m(file_config.exclude@) + strs_m(cli_excludes@) + Seq::<Seq<char>>::empty()
                =~= strs_m(file_config.exclude@) + strs_m(cli_excludes@));
        } else {
            assert(lists_m(lists@).len() == linter.plugin_count());
        }
    }
    r
}

/// A file name relative to `base`: where it starts with `base`, the rest
/// without its leading slashes.
pub open spec fn relative_name(name: Seq<char>, base: Seq<char>) -> Seq<char> {
    if starts_with_spec(name, base) {
        let rest = name.skip(base.len() as int);
        rest.skip(leading_count(rest, '/') as int)
    } else {
        name
    }
}

/// Whether the command line shows `d`: its level is within `max` and its code
/// is not ignored.
pub open spec fn shown(d: Diagnostic, max: Level, ignored: Seq<Seq<char>>) -> bool {
    level_rank(d.level) <= level_rank(max) && !ignored.contains(d.code@)
}

/// The diagnostics that the command line shows, in order, each with its file
/// name made relative to `base`.
pub open spec fn refined(ds: Seq<Diagnostic>, max: Level, ignored: Seq<Seq<char>>, base: Seq<char>) -> Seq<Diagnostic>
    decreases ds.len(),
{
    if ds.len() == 0 {
        Seq::empty()
    } else {
        let prev = refined(ds.drop_last(), max, ignored, base);
        let d = ds.last();
        if shown(d, max, ignored) {
            prev.push(d)
        } else {
            prev
        }
    }
}

/// Whether `code` is among `ignored`.
fn is_ignored(code: &str, ignored: &Vec<String>) -> (r: bool)
    ensures
        r == strs_m(ignored@).contains(code@),
{
    let mut i: usize = 0;
    while i < ignored.len()
        invariant
            i <= ignored@.len(),
            forall|k: int| 0 <= k < i ==> #[trigger] ignored@[k]@ != code@,
        decreases ignored@.len() - i,
    {
        if str_eq(ignored[i].as_str(), code) {
            assert(strs_m(ignored@)[i as int] == code@);
            return true;
        }
        i = i + 1;
    }
    proof {
        if strs_m(ignored@).contains(code@) {
            let k = choose|k: int| 0 <= k < strs_m(ignored@).len() && strs_m(ignored@)[k] == code@;
            assert(ignored@[k]@ == code@);
        }
    }
    false
}

/// The file name relative to `base`.
pub fn relative_to(name: &str, base: &str) -> (r: String)
    ensures
        r@ == relative_name(name@, base@),
{
    if starts_with(name, base) {
        let cs = crate::text::chars_of(name);
        let bl = crate::text::chars_of(base).len();
        let rest_chars = crate::text::sub_chars(&cs, bl, cs.len());
        let rest = crate::text::string_of(rest_chars.as_slice());
        assert(rest@ =~= name@.skip(base@.len() as int));
        let (_, tail) = split_leading(rest.as_str(), '/');
        tail
    } else {
        name.to_owned()
    }
}

/// The diagnostics that the command line shows: those within the level that
/// `--check` names and whose code neither the configuration nor the command
/// line ignores, in order, each with its file name relative to `base`.
pub fn refine_diagnostics(
    diagnostics: Vec<Diagnostic>,
    check: &str,
    file_config: &ThornConfig,
    cli_ignores: Vec<String>,
    base: &str,
) -> (r: Vec<Diagnostic>)
    ensures
        r@.len() == refined(diagnostics@, check_level(check@), strs_m(file_config.ignore@) + strs_m(cli_ignores@), base@).len(),
        forall|i: int| 0 <= i < r@.len() ==> {
            let d = #[trigger] refined(diagnostics@, check_level(check@), strs_m(file_config.ignore@) + strs_m(cli_ignores@), base@)[i];
            &&& r@[i].filename@ == relative_name(d.filename@, base@)
            &&& r@[i] == (Diagnostic { filename: r@[i].filename, ..d })
        },
{
    let max = check_level_of(check);
    let mut ignored: Vec<String> = Vec::new();
    let mut k: usize = 0;
    assert(strs_m(ignored@) =~= Seq::<Seq<char>>::empty());
    while k < file_config.ignore.len()
        invariant
            k <= file_config.ignore@.len(),
            strs_m(ignored@) == strs_m(file_config.ignore@.take(k as int)),
        decreases file_config.ignore@.len() - k,
    {
        let e = file_config.ignore[k].clone();
        assert(strs_m(ignored@.push(e)) =~= strs_m(ignored@).push(e@));
        assert(strs_m(file_config.ignore@.take(k + 1)) =~= strs_m(file_config.ignore@.take(k as int)).push(e@));
        ignored.push(e);
        k = k + 1;
    }
    assert(file_config.ignore@.take(file_config.ignore@.len() as int) =~= file_config.ignore@);
    extend_strings(&mut ignored, cli_ignores);
    let ghost ig = strs_m(ignored@);
    let ghost all = diagnostics@;
    let mut pending = diagnostics;
    let mut reversed: Vec<Diagnostic> = Vec::new();
    while pending.len() > 0
        invariant
            all == pending@ + reversed@.reverse(),
        decreases pending@.len(),
    {
        let d = pending.pop().unwrap();
        proof {
            assert(pending@.push(d) + reversed@.reverse() =~= pending@ + reversed@.push(d).reverse());
        }
        reversed.push(d);
    }
    assert(all =~= reversed@.reverse());
    let ghost total = all.len();
    assert forall|j: int| 0 <= j < reversed@.len() implies #[trigger] reversed@[j] == all[total - 1 - j] by {
        assert(reversed@.reverse()[total - 1 - j] == reversed@[j]);
    }
    let mut out: Vec<Diagnostic> = Vec::new();
    assert(all.take(0) =~= Seq::<Diagnostic>::empty());
    while reversed.len() > 0
        invariant
            total == all.len(),
            reversed@.len() <= total,
            ig == strs_m(ignored@),
            forall|j: int| 0 <= j < reversed@.len() ==> #[trigger] reversed@[j] == all[total - 1 - j],
            out@.len() == refined(all.take(total - reversed@.len()), max, ig, base@).len(),
            forall|i: int| 0 <= i < out@.len() ==> {
                let d = #[trigger] refined(all.take(total - reversed@.len()), max, ig, base@)[i];
                &&& out@[i].filename@ == relative_name(d.filename@, base@)
                &&& out@[i] == (Diagnostic { filename: out@[i].filename, ..d })
            },
        decreases reversed@.len(),
    {
        let ghost done = total - reversed@.len();
        let ghost prev_out = out@;
        let ghost prev = refined(all.take(done), max, ig, base@);
        let mut d = reversed.pop().unwrap();
        assert(d == all[done]);
        assert(all.take(done + 1).drop_last() =~= all.take(done));
        assert(all.take(done + 1).last() == all[done]);
        let ghost dv = d;
        if d.level.within(max) && !is_ignored(d.code.as_str(), &ignored) {
            d.filename = relative_to(d.filename.as_str(), base);
            out.push(d);
            proof {
                let now = refined(all.take(done + 1), max, ig, base@);
                assert(now == prev.push(dv));
                assert forall|i: int| 0 <= i < out@.len() implies {
                    let e = #[trigger] now[i];
                    &&& out@[i].filename@ == relative_name(e.filename@, base@)
                    &&& out@[i] == (Diagnostic { filename: out@[i].filename, ..e })
                } by {
                    if i < prev_out.len() {
                        assert(now[i] == prev[i]);
                        assert(out@[i] == prev_out[i]);
                    }
                }
            }
        } else {
            proof {
                let now = refined(all.take(done + 1), max, ig, base@);
                assert(now == prev);
            }
        }
    }
    assert(all.take(total as int) =~= all);
    out
}

/// `--check fix` shows bugs, `improve` adds to those, `all` adds to those again:
/// whatever a stricter check shows, a looser one shows too.
pub proof fn lemma_looser_check_shows_more(d: Diagnostic, strict: Level, loose: Level, ignored: Seq<Seq<char>>)
    requires
        level_rank(strict) <= level_rank(loose),
        shown(d, strict, ignored),
    ensures
        shown(d, loose, ignored),
{
}

/// A looser check shows at least as many diagnostics as a stricter one.
pub proof fn lemma_looser_check_shows_no_fewer(
    ds: Seq<Diagnostic>,
    strict: Level,
    loose: Level,
    ignored: Seq<Seq<char>>,
    base: Seq<char>,
)
    requires
        level_rank(strict) <= level_rank(loose),
    ensures
        refined(ds, strict, ignored, base).len() <= refined(ds, loose, ignored, base).len(),
    decreases ds.len(),
{
    if ds.len() > 0 {
        lemma_looser_check_shows_no_fewer(ds.drop_last(), strict, loose, ignored, base);
    }
}

} // verus!
