//! `-Syu`: reading the list of foreign packages that `pacman -Qem`
//! prints, and deciding which of them the AUR has a different version of.

use vstd::prelude::*;
use crate::text::{lines, lines_spec, split_whitespace, views, words};

verus! {

/// The name and version on one line of `pacman -Qem`: its first two
/// words, an empty string standing for a missing one.
pub open spec fn entry_of(line: Seq<char>) -> (Seq<char>, Seq<char>) {
    let w = words(line);
    (
        if w.len() > 0 { w[0] } else { Seq::empty() },
        if w.len() > 1 { w[1] } else { Seq::empty() },
    )
}

/// The entries of the non-empty lines, in order.
pub open spec fn entries(ls: Seq<Seq<char>>) -> Seq<(Seq<char>, Seq<char>)>
    decreases ls.len(),
{
    if ls.len() == 0 {
        Seq::empty()
    } else if ls.last().len() == 0 {
        entries(ls.drop_last())
    } else {
        entries(ls.drop_last()).push(entry_of(ls.last()))
    }
}

/// The map from name to version that a list of entries gives, a later
/// entry for a name replacing an earlier one.
pub open spec fn version_map(es: Seq<(Seq<char>, Seq<char>)>) -> Map<Seq<char>, Seq<char>>
    decreases es.len(),
{
    if es.len() == 0 {
        Map::empty()
    } else {
        version_map(es.drop_last()).insert(es.last().0, es.last().1)
    }
}

/// The installed foreign packages that a `pacman -Qem` listing names,
/// each with its version.
pub open spec fn installed_packages(listing: Seq<char>) -> Map<Seq<char>, Seq<char>> {
    version_map(entries(lines_spec(listing)))
}

/// The views of a list of name and version pairs.
pub open spec fn pair_views(v: Seq<(String, String)>) -> Seq<(Seq<char>, Seq<char>)> {
    v.map_values(|p: (String, String)| (p.0@, p.1@))
}

/// No name occurs twice.
pub open spec fn distinct_names(es: Seq<(Seq<char>, Seq<char>)>) -> bool {
    forall|i: int, j: int| 0 <= i < j < es.len() ==> (#[trigger] es[i]).0 != (#[trigger] es[j]).0
}

proof fn lemma_version_map_update(es: Seq<(Seq<char>, Seq<char>)>, k: int, v: Seq<char>)
    requires
        distinct_names(es),
        0 <= k < es.len(),
    ensures
        version_map(es.update(k, (es[k].0, v))) == version_map(es).insert(es[k].0, v),
    decreases es.len(),
{
    let key = es[k].0;
    let es2 = es.update(k, (key, v));
    if k == es.len() - 1 {
        assert(es2.drop_last() == es.drop_last());
        assert(version_map(es2) == version_map(es.drop_last()).insert(key, v));
        assert(version_map(es).insert(key, v) =~= version_map(es.drop_last()).insert(key, v));
    } else {
        let d = es.drop_last();
        assert(distinct_names(d)) by {
            assert forall|i: int, j: int| 0 <= i < j < d.len() implies (#[trigger] d[i]).0 != (#[trigger] d[j]).0 by {
                assert(d[i] == es[i] && d[j] == es[j]);
            }
        }
        lemma_version_map_update(d, k, v);
        assert(es2.drop_last() == d.update(k, (key, v)));
        assert(es2.last() == es.last());
        assert(es.last().0 != key) by {
            assert(es[k] == es[k] && es[es.len() - 1] == es.last());
        }
        assert(version_map(es2) =~= version_map(es).insert(key, v));
    }
}

/// The installed foreign packages in a `pacman -Qem` listing: for each
/// name, once, the version on the last non-empty line that names it.
pub fn parse_foreign_packages(listing: &str) -> (r: Vec<(String, String)>)
    ensures
        distinct_names(pair_views(r@)),
        version_map(pair_views(r@)) == installed_packages(listing@),
{
    let ls = lines(listing);
    let ghost lv = views(ls@);
    let n = ls.len();
    let mut r: Vec<(String, String)> = Vec::new();
    for i in 0..n
        invariant
            n == ls@.len(),
            lv == views(ls@),
            distinct_names(pair_views(r@)),
            version_map(pair_views(r@)) == version_map(entries(lv.take(i as int))),
    {
        assert(lv.take(i + 1).drop_last() == lv.take(i as int));
        assert(lv.take(i + 1).last() == ls@[i as int]@);
        let ghost e_before = entries(lv.take(i as int));
        if ls[i].as_str().unicode_len() > 0 {
            let ws = split_whitespace(ls[i].as_str());
            let name = if ws.len() > 0 { ws[0].clone() } else { String::new() };
            let version = if ws.len() > 1 { ws[1].clone() } else { String::new() };
            assert((name@, version@) == entry_of(ls@[i as int]@));
            let ghost prev = pair_views(r@);
            let mut k: usize = 0;
            let mut found = false;
            while k < r.len()
                invariant_except_break
                    !found,
                invariant
                    k <= r@.len(),
                    prev == pair_views(r@),
                    forall|m: int| 0 <= m < k ==> (#[trigger] prev[m]).0 != name@,
                ensures
                    k <= r@.len(),
                    prev == pair_views(r@),
                    found ==> k < r@.len() && prev[k as int].0 == name@,
                    !found ==> k == r@.len() && forall|m: int| 0 <= m < k ==> (#[trigger] prev[m]).0 != name@,
                decreases r@.len() - k,
            {
                if r[k].0 == name {
                    found = true;
                    break;
                }
                k = k + 1;
            }
            if found {
                assert(prev[k as int].0 == name@);
                r.set(k, (name, version));
                proof {
                    lemma_version_map_update(prev, k as int, version@);
                    assert(pair_views(r@) == prev.update(k as int, (prev[k as int].0, version@)));
                    let pv = pair_views(r@);
                    assert forall|a: int, b: int| 0 <= a < b < pv.len() implies (#[trigger] pv[a]).0 != (#[trigger] pv[b]).0 by {
                        assert(pv[a].0 == prev[a].0 && pv[b].0 == prev[b].0);
                    }
                }
            } else {
                r.push((name, version));
                assert(pair_views(r@) == prev.push((name@, version@)));
                assert(pair_views(r@).drop_last() == prev);
                proof {
                    let pv = pair_views(r@);
                    assert forall|a: int, b: int| 0 <= a < b < pv.len() implies (#[trigger] pv[a]).0 != (#[trigger] pv[b]).0 by {
                        if b == pv.len() - 1 {
                            assert(prev[a].0 != name@);
                        } else {
                            assert(pv[a] == prev[a] && pv[b] == prev[b]);
                        }
                    }
                }
            }
            assert(entries(lv.take(i + 1)) == e_before.push((name@, version@)));
            assert(entries(lv.take(i + 1)).drop_last() == e_before);
        } else {
            assert(entries(lv.take(i + 1)) == e_before);
        }
    }
    assert(lv.take(n as int) == lv);
    r
}


/// What to do about one installed foreign package once the AUR was asked
/// for its version.
#[derive(Debug, PartialEq, Eq)]
pub enum UpdateDecision {
    /// The AUR has another version: install the package anew.
    Install,
    /// The AUR has the installed version.
    UpToDate,
    /// The AUR could not be asked: report this line.
    LookupFailed(String),
}

/// The line that reports a failed lookup of the package `name`.
pub open spec fn lookup_failed_line(name: Seq<char>, err: Seq<char>) -> Seq<char> {
    "Faildz to get vershunz for packag "@ + name + ": "@ + err
}

/// Whether a looked-up version asks for an update of `installed`.
pub open spec fn differs(installed: Seq<char>, lookup: Result<Seq<char>, Seq<char>>) -> bool {
    lookup matches Ok(v) && v != installed
}

/// The view of a lookup outcome.
pub open spec fn lookup_view(lookup: Result<String, String>) -> Result<Seq<char>, Seq<char>> {
    match lookup {
        Ok(v) => Ok(v@),
        Err(e) => Err(e@),
    }
}

/// How far the AUR part of an update has come: whether any package was
/// found to need an update.
pub struct UpdateProgress {
    pub updates_available: bool,
}

impl UpdateProgress {
    /// No package looked at yet.
    pub fn new() -> (r: UpdateProgress)
        ensures
            !r.updates_available,
    {
        UpdateProgress { updates_available: false }
    }

    /// Takes in the AUR's answer for the package `name`, installed at
    /// version `installed`: the version, or the text of the error.
    pub fn record(&mut self, name: &str, installed: &str, lookup: Result<String, String>) -> (d: UpdateDecision)
        ensures
            final(self).updates_available == (old(self).updates_available || differs(installed@, lookup_view(lookup))),
            match lookup {
                Ok(v) => if v@ != installed@ { d is Install } else { d is UpToDate },
                Err(e) => d matches UpdateDecision::LookupFailed(line) && line@ == lookup_failed_line(name@, e@),
            },
    {
        match lookup {
            Ok(v) => {
                if v == String::from_str(installed) {
                    UpdateDecision::UpToDate
                } else {
                    self.updates_available = true;
                    UpdateDecision::Install
                }
            },
            Err(e) => {
                let mut line = String::from_str("Faildz to get vershunz for packag ");
                line.append(name);
                line.append(": ");
                line.append(e.as_str());
                UpdateDecision::LookupFailed(line)
            },
        }
    }

    /// Whether no package needed an update, so that this is reported.
    pub fn nothing_to_update(&self) -> (b: bool)
        ensures
            b == !self.updates_available,
    {
        !self.updates_available
    }
}

/// The flag after recording, from `flag` on, the lookups `steps` (each the
/// installed version and the AUR's answer).
pub open spec fn flag_after(flag: bool, steps: Seq<(Seq<char>, Result<Seq<char>, Seq<char>>)>) -> bool
    decreases steps.len(),
{
    if steps.len() == 0 {
        flag
    } else {
        flag_after(flag || differs(steps[0].0, steps[0].1), steps.drop_first())
    }
}

/// After all packages are recorded, updates are available exactly when
/// some package's AUR version differs from the installed one; a failed
/// lookup never makes one available.
pub proof fn lemma_updates_available(steps: Seq<(Seq<char>, Result<Seq<char>, Seq<char>>)>)
    ensures
        flag_after(false, steps) <==> exists|i: int| 0 <= i < steps.len() && differs(
            (#[trigger] steps[i]).0,
            steps[i].1,
        ),
    decreases steps.len(),
{
    if steps.len() > 0 {
        let rest = steps.drop_first();
        lemma_updates_available(rest);
        lemma_flag_true(rest);
        if differs(steps[0].0, steps[0].1) {
            assert(flag_after(false, steps) == flag_after(true, rest));
        } else {
            assert(flag_after(false, steps) == flag_after(false, rest));
            if exists|i: int| 0 <= i < steps.len() && differs((#[trigger] steps[i]).0, steps[i].1) {
                let i = choose|i: int| 0 <= i < steps.len() && differs((#[trigger] steps[i]).0, steps[i].1);
                assert(rest[i - 1] == steps[i]);
            }
            if exists|i: int| 0 <= i < rest.len() && differs((#[trigger] rest[i]).0, rest[i].1) {
                let i = choose|i: int| 0 <= i < rest.len() && differs((#[trigger] rest[i]).0, rest[i].1);
                assert(rest[i] == steps[i + 1]);
            }
        }
    }
}

proof fn lemma_flag_true(steps: Seq<(Seq<char>, Result<Seq<char>, Seq<char>>)>)
    ensures
        flag_after(true, steps),
    decreases steps.len(),
{
    if steps.len() > 0 {
        lemma_flag_true(steps.drop_first());
    }
}

/// A lookup asks for an update exactly when it found a version other than
/// the installed one; a failed lookup never does.
pub proof fn lemma_differs(installed: Seq<char>, found: Seq<char>, err: Seq<char>)
    ensures
        differs(installed, Ok(found)) <==> found != installed,
        !differs(installed, Err(err)),
{
}

/// For a listing line with at least two words, the name and version are
/// its first two words; a line with one word has an empty version.
pub proof fn lemma_entry_words(line: Seq<char>)
    ensures
        words(line).len() >= 2 ==> entry_of(line) == (words(line)[0], words(line)[1]),
        words(line).len() == 1 ==> entry_of(line) == (words(line)[0], Seq::<char>::empty()),
        words(line).len() == 0 ==> entry_of(line) == (Seq::<char>::empty(), Seq::<char>::empty()),
{
}

/// A name is in the map exactly when some entry names it, and its version
/// is that of the last entry that names it.
pub proof fn lemma_version_map_last(es: Seq<(Seq<char>, Seq<char>)>, name: Seq<char>, i: int)
    ensures
        version_map(es).contains_key(name) <==> exists|k: int| 0 <= k < es.len() && (#[trigger] es[k]).0 == name,
        0 <= i < es.len() && es[i].0 == name && (forall|j: int| i < j < es.len() ==> (#[trigger] es[j]).0 != name)
            ==> version_map(es)[name] == es[i].1,
    decreases es.len(),
{
    if es.len() > 0 {
        let d = es.drop_last();
        lemma_version_map_last(d, name, i);
        if exists|k: int| 0 <= k < es.len() && (#[trigger] es[k]).0 == name {
            let k = choose|k: int| 0 <= k < es.len() && (#[trigger] es[k]).0 == name;
            if k < d.len() {
                assert(d[k] == es[k]);
            }
        }
        if exists|k: int| 0 <= k < d.len() && (#[trigger] d[k]).0 == name {
            let k = choose|k: int| 0 <= k < d.len() && (#[trigger] d[k]).0 == name;
            assert(es[k] == d[k]);
        }
        if 0 <= i < es.len() && es[i].0 == name && (forall|j: int| i < j < es.len() ==> (#[trigger] es[j]).0 != name) {
            if i < d.len() {
                assert(es.last().0 != name) by {
                    assert(es[es.len() - 1] == es.last());
                }
                assert(d[i] == es[i]);
                assert forall|j: int| i < j < d.len() implies (#[trigger] d[j]).0 != name by {
                    assert(d[j] == es[j]);
                }
            }
        }
    }
}

} // verus!
