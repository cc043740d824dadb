//! Decisions of the worker-pool installer: validating the worker count,
//! classifying each package's install attempt, collecting the purge set,
//! pruning failed records, and sorting the manifest for persistence.
//!
//! The pool itself runs outside the library; it hands each package's
//! already-installed probe and clone outcome back to these functions, which
//! decide everything that follows.

use crate::error::Error;
use crate::package::{Package, PackageV};
use vstd::prelude::*;

verus! {

/// How one package's install attempt ended.
#[derive(Debug, Clone, Copy, PartialEq, Eq, Structural)]
pub enum InstallStatus {
    /// The clone ran and the package is now on disk.
    Installed,
    /// The target directory already existed; no clone was attempted.
    AlreadyInstalled,
    /// The clone failed; the package never got its bits on disk.
    CloneFailed,
}

/// What the per-package operation should do next.
#[derive(Debug, Clone, Copy, PartialEq, Eq, Structural)]
pub enum InstallAction {
    /// The target directory already exists: do not clone.
    Skip,
    /// The target directory is absent: clone the remote into it.
    CloneRepo,
}

/// A worker count is accepted exactly when at least one worker is
/// available; a zero count is a configuration error, rejected before any
/// work starts.
pub fn check_threads(threads: usize) -> (r: Result<(), Error>)
    ensures
        r is Ok <==> threads >= 1,
        r matches Err(e) ==> (e matches Error::Config(m) && m@ == "Threads should be greater than 0"@),
{
    if threads >= 1 {
        Ok(())
    } else {
        Err(Error::Config("Threads should be greater than 0".to_owned()))
    }
}

/// The install decision for one package: a package whose directory already
/// exists is never cloned again.
pub fn do_install(already_installed: bool) -> (a: InstallAction)
    ensures
        a is Skip <==> already_installed,
{
    if already_installed {
        InstallAction::Skip
    } else {
        InstallAction::CloneRepo
    }
}

/// Classifies one package's attempt. The boolean is the continue flag: true
/// keeps the record tracked, false marks it for the purge set. An
/// already-installed package is success-with-note and is never purged; only
/// a genuinely failed clone is.
pub fn install_plugin(already_installed: bool, clone_ok: bool) -> (r: (InstallStatus, bool))
    ensures
        already_installed ==> r == (InstallStatus::AlreadyInstalled, true),
        !already_installed && clone_ok ==> r == (InstallStatus::Installed, true),
        !already_installed && !clone_ok ==> r == (InstallStatus::CloneFailed, false),
{
    if already_installed {
        (InstallStatus::AlreadyInstalled, true)
    } else if clone_ok {
        (InstallStatus::Installed, true)
    } else {
        (InstallStatus::CloneFailed, false)
    }
}

/// The decision of the post-install build step: a package without a build
/// command is a no-op success, a zero exit is success, and a non-zero exit
/// is a Build error carrying the captured standard error, or a fixed note
/// when that output was not text. The build runs after placement, so its
/// failure never purges the package.
pub fn build_outcome(had_command: bool, exit_ok: bool, stderr: Option<String>) -> (r: Result<
    (),
    Error,
>)
    ensures
        r is Ok <==> (!had_command || exit_ok),
        had_command && !exit_ok ==> (r matches Err(e) && e matches Error::Build(t) && t@ == (
        match stderr {
            Some(s) => s@,
            None => "No error output!"@,
        })),
{
    if !had_command || exit_ok {
        Ok(())
    } else {
        match stderr {
            Some(s) => Err(Error::Build(s)),
            None => Err(Error::Build("No error output!".to_owned())),
        }
    }
}

/// The names whose continue flag came back false, in work order.
pub open spec fn fail_names(s: Seq<(String, bool)>) -> Seq<Seq<char>>
    decreases s.len(),
{
    if s.len() == 0 {
        Seq::empty()
    } else if s[0].1 {
        fail_names(s.drop_first())
    } else {
        seq![s[0].0@] + fail_names(s.drop_first())
    }
}

/// Collects the purge set from the per-package outcomes: exactly the names
/// whose continue flag is false. Order is irrelevant downstream; the purge
/// set is treated as a set of names.
pub fn collect_failures(outcomes: &Vec<(String, bool)>) -> (r: Vec<String>)
    ensures
        r.deep_view() == fail_names(outcomes@),
{
    let ghost g = outcomes@;
    let mut r: Vec<String> = Vec::new();
    let mut i: usize = 0;
    proof {
        assert(g.skip(0) =~= g);
        assert(r.deep_view() =~= Seq::<Seq<char>>::empty());
        assert(Seq::<Seq<char>>::empty() + fail_names(g) =~= fail_names(g));
    }
    while i < outcomes.len()
        invariant
            i <= g.len(),
            outcomes@ == g,
            r.deep_view() + fail_names(g.skip(i as int)) == fail_names(g),
        decreases g.len() - i,
    {
        let ghost gr = r.deep_view();
        if !outcomes[i].1 {
            r.push(outcomes[i].0.clone());
            proof {
                assert(r.deep_view() =~= gr.push(g[i as int].0@));
            }
        }
        proof {
            assert(g.skip(i as int)[0] == g[i as int]);
            assert(g.skip(i as int).drop_first() =~= g.skip(i + 1));
            if !g[i as int].1 {
                assert(gr.push(g[i as int].0@) + fail_names(g.skip(i + 1)) =~= gr + (seq![
                    g[i as int].0@,
                ] + fail_names(g.skip(i + 1))));
            }
        }
        i = i + 1;
    }
    proof {
        assert(g.skip(i as int) =~= Seq::<(String, bool)>::empty());
        assert(r.deep_view() + Seq::<Seq<char>>::empty() =~= r.deep_view());
    }
    r
}

/// Whether some name in `fails` is `n`.
pub open spec fn has_name(fails: Seq<Seq<char>>, n: Seq<char>) -> bool {
    exists|k: int| 0 <= k < fails.len() && fails[k] == n
}

/// The stored list with every record whose name is in the purge set
/// removed, order otherwise kept.
pub open spec fn prune_spec(s: Seq<PackageV>, fails: Seq<Seq<char>>) -> Seq<PackageV>
    decreases s.len(),
{
    if s.len() == 0 {
        Seq::empty()
    } else if has_name(fails, s[0].name) {
        prune_spec(s.drop_first(), fails)
    } else {
        seq![s[0]] + prune_spec(s.drop_first(), fails)
    }
}

fn name_in(failed: &Vec<String>, name: &String) -> (r: bool)
    ensures
        r == has_name(failed.deep_view(), name@),
{
    let mut i: usize = 0;
    while i < failed.len()
        invariant
            i <= failed@.len(),
            forall|k: int| 0 <= k < i ==> failed.deep_view()[k] != name@,
        decreases failed@.len() - i,
    {
        if failed[i] == *name {
            proof {
                assert(failed.deep_view()[i as int] == name@);
            }
            return true;
        }
        i = i + 1;
    }
    false
}

/// Removes from the stored list every record whose install genuinely
/// failed, so the persisted manifest never records a package that has no
/// bits on disk.
#[verifier::loop_isolation(false)]
pub fn purge_failures(packs: &mut Vec<Package>, failed: &Vec<String>)
    ensures
        final(packs).deep_view() == prune_spec(old(packs).deep_view(), failed.deep_view()),
{
    let ghost g = packs.deep_view();
    let ghost gf = failed.deep_view();
    let mut out: Vec<Package> = Vec::new();
    let mut i: usize = 0;
    proof {
        assert(g.skip(0) =~= g);
        assert(out.deep_view() =~= Seq::<PackageV>::empty());
        assert(Seq::<PackageV>::empty() + prune_spec(g, gf) =~= prune_spec(g, gf));
    }
    while i < packs.len()
        invariant
            i <= g.len(),
            packs.deep_view() == g,
            out.deep_view() + prune_spec(g.skip(i as int), gf) == prune_spec(g, gf),
        decreases g.len() - i,
    {
        let ghost gout = out.deep_view();
        if !name_in(failed, &packs[i].name) {
            out.push(packs[i].clone());
            proof {
                assert(out.deep_view() =~= gout.push(g[i as int]));
            }
        }
        proof {
            assert(g.skip(i as int)[0] == g[i as int]);
            assert(g.skip(i as int).drop_first() =~= g.skip(i + 1));
            if !has_name(gf, g[i as int].name) {
                assert(gout.push(g[i as int]) + prune_spec(g.skip(i + 1), gf) =~= gout + (seq![
                    g[i as int],
                ] + prune_spec(g.skip(i + 1), gf)));
            }
        }
        i = i + 1;
    }
    proof {
        assert(g.skip(i as int) =~= Seq::<PackageV>::empty());
        assert(out.deep_view() + Seq::<PackageV>::empty() =~= out.deep_view());
    }
    *packs = out;
}

/// Lexicographic order on names, by character code.
pub open spec fn lex_le(a: Seq<char>, b: Seq<char>) -> bool
    decreases a.len(),
{
    if a.len() == 0 {
        true
    } else if b.len() == 0 {
        false
    } else if a[0] == b[0] {
        lex_le(a.drop_first(), b.drop_first())
    } else {
        (a[0] as int) < (b[0] as int)
    }
}

pub proof fn lemma_lex_le_total(a: Seq<char>, b: Seq<char>)
    ensures
        lex_le(a, b) || lex_le(b, a),
    decreases a.len(),
{
    if a.len() > 0 && b.len() > 0 && a[0] == b[0] {
        lemma_lex_le_total(a.drop_first(), b.drop_first());
    }
}

pub proof fn lemma_lex_le_trans(a: Seq<char>, b: Seq<char>, c: Seq<char>)
    requires
        lex_le(a, b),
        lex_le(b, c),
    ensures
        lex_le(a, c),
    decreases a.len(),
{
    if a.len() > 0 && b.len() > 0 && c.len() > 0 && a[0] == b[0] && b[0] == c[0] {
        lemma_lex_le_trans(a.drop_first(), b.drop_first(), c.drop_first());
    }
}

/// Whether `a` sorts at or before `b`.
#[verifier::loop_isolation(false)]
pub fn str_le(a: &str, b: &str) -> (r: bool)
    ensures
        r == lex_le(a@, b@),
{
    let an = a.unicode_len();
    let bn = b.unicode_len();
    let mut i: usize = 0;
    proof {
        assert(a@.skip(0) =~= a@);
        assert(b@.skip(0) =~= b@);
    }
    while i < an && i < bn
        invariant
            i <= an,
            i <= bn,
            lex_le(a@, b@) == lex_le(a@.skip(i as int), b@.skip(i as int)),
        decreases an - i,
    {
        let ca = a.get_char(i);
        let cb = b.get_char(i);
        proof {
            assert(a@.skip(i as int)[0] == a@[i as int]);
            assert(b@.skip(i as int)[0] == b@[i as int]);
            assert(a@.skip(i as int).drop_first() =~= a@.skip(i + 1));
            assert(b@.skip(i as int).drop_first() =~= b@.skip(i + 1));
        }
        if ca != cb {
            return (ca as u32) < (cb as u32);
        }
        i = i + 1;
    }
    proof {
        if i >= an {
            assert(a@.skip(i as int) =~= Seq::<char>::empty());
        } else {
            assert(b@.skip(i as int) =~= Seq::<char>::empty());
        }
    }
    an <= bn
}

/// The manifest order: records sorted by name.
pub open spec fn sorted_by_name(s: Seq<PackageV>) -> bool {
    forall|x: int, y: int| 0 <= x < y < s.len() ==> lex_le(s[x].name, s[y].name)
}

/// How many records of `s` satisfy `f`.
pub open spec fn count_where(s: Seq<PackageV>, f: spec_fn(PackageV) -> bool) -> nat
    decreases s.len(),
{
    if s.len() == 0 {
        0
    } else {
        (if f(s[0]) {
            1nat
        } else {
            0nat
        }) + count_where(s.drop_first(), f)
    }
}

pub proof fn lemma_count_where_concat(a: Seq<PackageV>, b: Seq<PackageV>, f: spec_fn(PackageV) -> bool)
    ensures
        count_where(a + b, f) == count_where(a, f) + count_where(b, f),
    decreases a.len(),
{
    if a.len() == 0 {
        assert(a + b =~= b);
    } else {
        assert((a + b)[0] == a[0]);
        assert((a + b).drop_first() =~= a.drop_first() + b);
        lemma_count_where_concat(a.drop_first(), b, f);
    }
}

/// Sorts the stored list by name. The records themselves are unchanged:
/// every predicate counts the same number of records before and after, so
/// the result is a permutation.
#[verifier::loop_isolation(false)]
pub fn sort_packs(packs: &mut Vec<Package>)
    ensures
        sorted_by_name(final(packs).deep_view()),
        forall|f: spec_fn(PackageV) -> bool|
            count_where(final(packs).deep_view(), f) == count_where(old(packs).deep_view(), f),
{
    let ghost g = packs.deep_view();
    let mut out: Vec<Package> = Vec::new();
    let mut i: usize = 0;
    proof {
        assert(g.skip(0) =~= g);
        assert(out.deep_view() =~= Seq::<PackageV>::empty());
        assert forall|f: spec_fn(PackageV) -> bool|
            count_where(out.deep_view(), f) + count_where(g.skip(0), f) == count_where(g, f) by {
            assert(count_where(out.deep_view(), f) == 0);
        }
    }
    while i < packs.len()
        invariant
            i <= g.len(),
            packs.deep_view() == g,
            sorted_by_name(out.deep_view()),
            forall|f: spec_fn(PackageV) -> bool|
                count_where(out.deep_view(), f) + count_where(g.skip(i as int), f) == count_where(
                    g,
                    f,
                ),
        decreases g.len() - i,
    {
        let ghost o = out.deep_view();
        let p = packs[i].clone();
        proof {
            assert(p@ == g[i as int]);
        }
        let mut pos: usize = 0;
        while pos < out.len() && str_le(out[pos].name.as_str(), p.name.as_str())
            invariant
                pos <= out@.len(),
                out.deep_view() == o,
                forall|k: int| 0 <= k < pos ==> lex_le(o[k].name, p@.name),
            decreases out@.len() - pos,
        {
            pos = pos + 1;
        }
        proof {
            if pos < o.len() {
                lemma_lex_le_total(o[pos as int].name, p@.name);
            }
        }
        out.insert(pos, p);
        proof {
            let nd = out.deep_view();
            assert(nd =~= o.take(pos as int) + (seq![g[i as int]] + o.skip(pos as int)));
            assert(o.take(pos as int) + o.skip(pos as int) =~= o);
            assert forall|x: int, y: int| 0 <= x < y < nd.len() implies lex_le(
                nd[x].name,
                nd[y].name,
            ) by {
                if x < pos && y > pos {
                    assert(lex_le(o[x].name, o[y - 1].name));
                } else if x == pos && y == pos + 1 {
                    assert(lex_le(g[i as int].name, o[pos as int].name));
                } else if x == pos && y > pos + 1 {
                    assert(lex_le(o[pos as int].name, o[y - 1].name));
                    lemma_lex_le_trans(g[i as int].name, o[pos as int].name, o[y - 1].name);
                }
            }
            assert forall|f: spec_fn(PackageV) -> bool|
                count_where(nd, f) + count_where(g.skip(i + 1), f) == count_where(g, f) by {
                let one = seq![g[i as int]];
                lemma_count_where_concat(o.take(pos as int), one + o.skip(pos as int), f);
                lemma_count_where_concat(one, o.skip(pos as int), f);
                lemma_count_where_concat(o.take(pos as int), o.skip(pos as int), f);
                assert(one.drop_first() =~= Seq::<PackageV>::empty());
                assert(one[0] == g[i as int]);
                assert(count_where(Seq::<PackageV>::empty(), f) == 0);
                assert(count_where(one, f) == (if f(g[i as int]) {
                    1nat
                } else {
                    0nat
                }));
                assert(g.skip(i as int)[0] == g[i as int]);
                assert(g.skip(i as int).drop_first() =~= g.skip(i + 1));
                assert(count_where(g.skip(i as int), f) == (if f(g[i as int]) {
                    1nat
                } else {
                    0nat
                }) + count_where(g.skip(i + 1), f));
                assert(count_where(o, f) + count_where(g.skip(i as int), f) == count_where(g, f));
            }
        }
        i = i + 1;
    }
    proof {
        assert(g.skip(i as int) =~= Seq::<PackageV>::empty());
        assert forall|f: spec_fn(PackageV) -> bool|
            count_where(out.deep_view(), f) == count_where(g, f) by {
            assert(count_where(g.skip(i as int), f) == 0);
        }
    }
    *packs = out;
}

} // verus!

verus! {

/// The steps between the workers' barrier and persistence: every purged
/// name is removed from the reconciled list, and the result is sorted by
/// name for deterministic output. What is persisted is exactly the pruned
/// list, reordered.
pub fn finish_install(packs: &mut Vec<Package>, failed: &Vec<String>)
    ensures
        sorted_by_name(final(packs).deep_view()),
        forall|f: spec_fn(PackageV) -> bool|
            count_where(final(packs).deep_view(), f) == count_where(
                prune_spec(old(packs).deep_view(), failed.deep_view()),
                f,
            ),
{
    purge_failures(packs, failed);
    sort_packs(packs);
}

} // verus!
