//! The reconciler: merges a requested package set against the recorded set.
//!
//! Placement (category, opt) is sticky once a package is physically
//! installed; trigger metadata (load command, auto-load types, build
//! command) is always refreshed from the latest request.

use crate::package::{clone_opt_string, clone_vec_string, Package, PackageV};
use vstd::prelude::*;

verus! {

/// Index of the first record named `name`, or -1 when there is none.
pub open spec fn find_named(s: Seq<PackageV>, name: Seq<char>) -> int
    decreases s.len(),
{
    if s.len() == 0 {
        -1
    } else if s[0].name == name {
        0
    } else {
        let r = find_named(s.drop_first(), name);
        if r < 0 {
            -1
        } else {
            1 + r
        }
    }
}

pub proof fn lemma_find_named_at(s: Seq<PackageV>, name: Seq<char>, j: int)
    requires
        0 <= j < s.len(),
        s[j].name == name,
        forall|k: int| 0 <= k < j ==> s[k].name != name,
    ensures
        find_named(s, name) == j,
    decreases s.len(),
{
    if j > 0 {
        lemma_find_named_at(s.drop_first(), name, j - 1);
    }
}

pub proof fn lemma_find_named_none(s: Seq<PackageV>, name: Seq<char>)
    requires
        forall|k: int| 0 <= k < s.len() ==> s[k].name != name,
    ensures
        find_named(s, name) == -1,
    decreases s.len(),
{
    if s.len() > 0 {
        lemma_find_named_none(s.drop_first(), name);
    }
}

pub proof fn lemma_find_named_not_found(s: Seq<PackageV>, name: Seq<char>)
    requires
        find_named(s, name) == -1,
    ensures
        forall|k: int| 0 <= k < s.len() ==> s[k].name != name,
    decreases s.len(),
{
    if s.len() > 0 {
        lemma_find_named_not_found(s.drop_first(), name);
        assert forall|k: int| 0 <= k < s.len() implies s[k].name != name by {
            if k > 0 {
                assert(s[k] == s.drop_first()[k - 1]);
            }
        }
    }
}

pub proof fn lemma_find_named_found(s: Seq<PackageV>, name: Seq<char>)
    requires
        find_named(s, name) >= 0,
    ensures
        find_named(s, name) < s.len(),
        s[find_named(s, name)].name == name,
        forall|k: int| 0 <= k < find_named(s, name) ==> s[k].name != name,
    decreases s.len(),
{
    if s.len() > 0 && s[0].name != name {
        lemma_find_named_found(s.drop_first(), name);
        assert forall|k: int| 0 <= k < find_named(s, name) implies s[k].name != name by {
            if k > 0 {
                assert(s[k] == s.drop_first()[k - 1]);
            }
        }
    }
}

/// What the stored record becomes when the same name is requested again.
/// An installed record keeps its placement and refreshes its trigger
/// metadata; a not-yet-installed one is superseded in placement too. The
/// identity fields (name, remote and its derived identifier, reference)
/// stay with the stored record either way.
pub open spec fn merged_record(x: PackageV, r: PackageV, installed: bool) -> PackageV {
    if installed {
        PackageV {
            load_command: r.load_command,
            for_types: r.for_types,
            build_command: r.build_command,
            ..x
        }
    } else {
        PackageV {
            category: r.category,
            opt: r.opt,
            load_command: r.load_command,
            for_types: r.for_types,
            build_command: r.build_command,
            ..x
        }
    }
}

/// What is handed to the installer for the request: an already-installed
/// record pins the request to its on-disk placement; otherwise the request
/// stands as made.
pub open spec fn target_record(x: PackageV, r: PackageV, installed: bool) -> PackageV {
    if installed {
        PackageV { category: x.category, opt: x.opt, ..r }
    } else {
        r
    }
}

/// One reconciliation step: the new stored list and the install target for
/// one requested record.
pub open spec fn merge_one_spec(packs: Seq<PackageV>, r: PackageV, installed: bool) -> (
    Seq<PackageV>,
    PackageV,
) {
    let i = find_named(packs, r.name);
    if i < 0 {
        (packs.push(r), r)
    } else {
        (packs.update(i, merged_record(packs[i], r, installed)), target_record(packs[i], r, installed))
    }
}

/// The stored list after all requests are reconciled, in request order.
pub open spec fn merge_spec(packs: Seq<PackageV>, reqs: Seq<PackageV>, inst: Seq<bool>) -> Seq<
    PackageV,
>
    decreases reqs.len(),
{
    if reqs.len() == 0 {
        packs
    } else {
        merge_spec(merge_one_spec(packs, reqs[0], inst[0]).0, reqs.drop_first(), inst.drop_first())
    }
}

/// The install targets produced for the requests, in request order.
pub open spec fn targets_spec(packs: Seq<PackageV>, reqs: Seq<PackageV>, inst: Seq<bool>) -> Seq<
    PackageV,
>
    decreases reqs.len(),
{
    if reqs.len() == 0 {
        Seq::empty()
    } else {
        seq![merge_one_spec(packs, reqs[0], inst[0]).1] + targets_spec(
            merge_one_spec(packs, reqs[0], inst[0]).0,
            reqs.drop_first(),
            inst.drop_first(),
        )
    }
}

/// Reconciles one requested record against the stored list. `installed`
/// reports whether the matching stored record's directory exists on disk;
/// it is ignored when no record matches. Returns the install target.
#[verifier::loop_isolation(false)]
pub fn merge_one(packs: &mut Vec<Package>, req: Package, installed: bool) -> (target: Package)
    ensures
        final(packs).deep_view() == merge_one_spec(old(packs).deep_view(), req@, installed).0,
        target@ == merge_one_spec(old(packs).deep_view(), req@, installed).1,
{
    let ghost gpacks = packs.deep_view();
    let ghost greq = req@;
    let mut j: usize = 0;
    while j < packs.len()
        invariant
            j <= packs.len(),
            packs.deep_view() == gpacks,
            req@ == greq,
            forall|k: int| 0 <= k < j ==> gpacks[k].name != greq.name,
        decreases packs.len() - j,
    {
        if packs[j].name == req.name {
            proof {
                lemma_find_named_at(gpacks, greq.name, j as int);
            }
            let mut x = packs[j].clone();
            x.load_command = clone_opt_string(&req.load_command);
            x.for_types = clone_vec_string(&req.for_types);
            x.build_command = clone_opt_string(&req.build_command);
            if installed {
                let cat = packs[j].category.clone();
                let opt = packs[j].opt;
                packs.set(j, x);
                let target = Package { category: cat, opt, ..req };
                proof {
                    assert(find_named(gpacks, greq.name) == j as int);
                    assert(packs.deep_view() =~= gpacks.update(
                        j as int,
                        merged_record(gpacks[j as int], greq, installed),
                    ));
                    assert(target@ =~= target_record(gpacks[j as int], greq, installed));
                    assert(merge_one_spec(gpacks, greq, installed).1 == target_record(
                        gpacks[j as int],
                        greq,
                        installed,
                    ));
                }
                return target;
            } else {
                x.category = req.category.clone();
                x.opt = req.opt;
                packs.set(j, x);
                proof {
                    assert(find_named(gpacks, greq.name) == j as int);
                    assert(packs.deep_view() =~= gpacks.update(
                        j as int,
                        merged_record(gpacks[j as int], greq, installed),
                    ));
                    assert(merge_one_spec(gpacks, greq, installed).0 == gpacks.update(
                        j as int,
                        merged_record(gpacks[j as int], greq, installed),
                    ));
                }
                return req;
            }
        }
        j = j + 1;
    }
    proof {
        lemma_find_named_none(gpacks, greq.name);
    }
    packs.push(req.clone());
    proof {
        assert(packs.deep_view() =~= gpacks.push(greq));
    }
    req
}

/// Clones a stored list; the mathematical contents are unchanged.
pub fn clone_packs(v: &Vec<Package>) -> (r: Vec<Package>)
    ensures
        r.deep_view() == v.deep_view(),
{
    let mut r: Vec<Package> = Vec::new();
    let mut i: usize = 0;
    while i < v.len()
        invariant
            i <= v.len(),
            r@.len() == i,
            forall|j: int| 0 <= j < i ==> r@[j]@ == v@[j]@,
        decreases v.len() - i,
    {
        r.push(v[i].clone());
        i = i + 1;
    }
    proof {
        assert(r.deep_view() =~= v.deep_view());
    }
    r
}

/// Merges the requested records into the stored list and returns the
/// install targets. An empty request means "install or update everything
/// already tracked": the stored list itself becomes the target and is left
/// unchanged. `installed` gives, for each request, whether the matching
/// stored record is installed on disk.
pub fn reconcile(packs: &mut Vec<Package>, requested: Vec<Package>, installed: &Vec<bool>) -> (targets: Vec<Package>)
    requires
        installed@.len() == requested@.len(),
    ensures
        requested@.len() == 0 ==> final(packs).deep_view() == old(packs).deep_view() && targets.deep_view()
            == old(packs).deep_view(),
        requested@.len() > 0 ==> final(packs).deep_view() == merge_spec(
            old(packs).deep_view(),
            requested.deep_view(),
            installed@,
        ) && targets.deep_view() == targets_spec(
            old(packs).deep_view(),
            requested.deep_view(),
            installed@,
        ),
{
    if requested.len() == 0 {
        return clone_packs(packs);
    }
    let ghost gpacks0 = old(packs).deep_view();
    let ghost greqs = requested.deep_view();
    let ghost ginst = installed@;
    let mut targets: Vec<Package> = Vec::new();
    let mut i: usize = 0;
    proof {
        assert(greqs.skip(0) =~= greqs);
        assert(ginst.skip(0) =~= ginst);
        assert(targets.deep_view() =~= Seq::<PackageV>::empty());
        assert(Seq::<PackageV>::empty() + targets_spec(gpacks0, greqs, ginst) =~= targets_spec(
            gpacks0,
            greqs,
            ginst,
        ));
    }
    while i < requested.len()
        invariant
            i <= requested.len(),
            requested.deep_view() == greqs,
            installed@ == ginst,
            ginst.len() == greqs.len(),
            merge_spec(packs.deep_view(), greqs.skip(i as int), ginst.skip(i as int)) == merge_spec(
                gpacks0,
                greqs,
                ginst,
            ),
            targets.deep_view() + targets_spec(
                packs.deep_view(),
                greqs.skip(i as int),
                ginst.skip(i as int),
            ) == targets_spec(gpacks0, greqs, ginst),
        decreases requested.len() - i,
    {
        let ghost gpacks_i = packs.deep_view();
        let ghost gtargets_i = targets.deep_view();
        let req = requested[i].clone();
        let target = merge_one(packs, req, installed[i]);
        proof {
            assert(req@ == greqs[i as int]);
        }
        targets.push(target);
        proof {
            let gt = merge_one_spec(gpacks_i, greqs[i as int], ginst[i as int]).1;
            let rest = targets_spec(packs.deep_view(), greqs.skip(i + 1), ginst.skip(i + 1));
            assert(greqs.skip(i as int)[0] == greqs[i as int]);
            assert(ginst.skip(i as int)[0] == ginst[i as int]);
            assert(greqs.skip(i as int).drop_first() =~= greqs.skip(i + 1));
            assert(ginst.skip(i as int).drop_first() =~= ginst.skip(i + 1));
            assert(targets_spec(gpacks_i, greqs.skip(i as int), ginst.skip(i as int)) == seq![gt]
                + rest);
            assert(targets.deep_view() =~= gtargets_i.push(gt));
            assert(gtargets_i.push(gt) + rest =~= gtargets_i + (seq![gt] + rest));
        }
        i = i + 1;
    }
    proof {
        assert(greqs.skip(i as int) =~= Seq::<PackageV>::empty());
        assert(ginst.skip(i as int) =~= Seq::<bool>::empty());
        assert(targets.deep_view() + Seq::<PackageV>::empty() =~= targets.deep_view());
    }
    targets
}

} // verus!
