//! Laws of the install engine, proved over the same specifications the
//! functions' contracts use: sticky placement, fresh installs recorded
//! exactly once, failed fresh installs leaving no trace, and the manifest
//! codec's round trip.

use crate::codec::{lookup, parse_record, record_yaml, types_yaml, DocV};
use crate::executor::{count_where, fail_names, has_name, prune_spec};
use crate::package::{idname_of, kind_str, parse_kind, PackageV, RefKind};
use crate::reconcile::{
    find_named, lemma_find_named_found, lemma_find_named_none, lemma_find_named_not_found,
    merge_one_spec, merge_spec, merged_record,
};
use vstd::prelude::*;

verus! {

use crate::executor::lemma_count_where_concat;

pub proof fn lemma_count_where_push(s: Seq<PackageV>, x: PackageV, f: spec_fn(PackageV) -> bool)
    ensures
        count_where(s.push(x), f) == count_where(s, f) + (if f(x) {
            1nat
        } else {
            0nat
        }),
{
    assert(s.push(x) =~= s + seq![x]);
    lemma_count_where_concat(s, seq![x], f);
    assert(seq![x].drop_first() =~= Seq::<PackageV>::empty());
    assert(count_where(Seq::<PackageV>::empty(), f) == 0);
}

pub proof fn lemma_count_where_update(s: Seq<PackageV>, i: int, y: PackageV, f: spec_fn(PackageV) -> bool)
    requires
        0 <= i < s.len(),
        f(s[i]) == f(y),
    ensures
        count_where(s.update(i, y), f) == count_where(s, f),
{
    let a = s.take(i);
    let b = s.skip(i + 1);
    assert(s.update(i, y) =~= a + (seq![y] + b));
    assert(s =~= a + (seq![s[i]] + b));
    lemma_count_where_concat(a, seq![y] + b, f);
    lemma_count_where_concat(seq![y], b, f);
    lemma_count_where_concat(a, seq![s[i]] + b, f);
    lemma_count_where_concat(seq![s[i]], b, f);
    assert(seq![y].drop_first() =~= Seq::<PackageV>::empty());
    assert(seq![s[i]].drop_first() =~= Seq::<PackageV>::empty());
    assert(count_where(Seq::<PackageV>::empty(), f) == 0);
}

pub proof fn lemma_count_where_none(s: Seq<PackageV>, f: spec_fn(PackageV) -> bool)
    requires
        forall|j: int| 0 <= j < s.len() ==> !f(s[j]),
    ensures
        count_where(s, f) == 0,
    decreases s.len(),
{
    if s.len() > 0 {
        assert forall|j: int| 0 <= j < s.drop_first().len() implies !f(s.drop_first()[j]) by {
            assert(s.drop_first()[j] == s[j + 1]);
        }
        lemma_count_where_none(s.drop_first(), f);
    }
}

/// Reconciling requests none of which bears the name `n` neither adds nor
/// removes records that `f` counts, for any `f` satisfied only by records
/// named `n`.
pub proof fn lemma_merge_preserves(
    packs: Seq<PackageV>,
    reqs: Seq<PackageV>,
    inst: Seq<bool>,
    n: Seq<char>,
    f: spec_fn(PackageV) -> bool,
)
    requires
        inst.len() == reqs.len(),
        forall|j: int| 0 <= j < reqs.len() ==> reqs[j].name != n,
        forall|p: PackageV| f(p) ==> p.name == n,
    ensures
        count_where(merge_spec(packs, reqs, inst), f) == count_where(packs, f),
    decreases reqs.len(),
{
    if reqs.len() > 0 {
        let m1 = merge_one_spec(packs, reqs[0], inst[0]).0;
        let i = find_named(packs, reqs[0].name);
        if i < 0 {
            assert(!f(reqs[0]));
            lemma_count_where_push(packs, reqs[0], f);
        } else {
            lemma_find_named_found(packs, reqs[0].name);
            let y = merged_record(packs[i], reqs[0], inst[0]);
            assert(y.name == packs[i].name);
            assert(!f(packs[i]) && !f(y));
            lemma_count_where_update(packs, i, y, f);
        }
        assert forall|j: int| 0 <= j < reqs.drop_first().len() implies reqs.drop_first()[j].name
            != n by {
            assert(reqs.drop_first()[j] == reqs[j + 1]);
        }
        lemma_merge_preserves(m1, reqs.drop_first(), inst.drop_first(), n, f);
    }
}

pub proof fn lemma_prune_keeps(s: Seq<PackageV>, fails: Seq<Seq<char>>, n: Seq<char>, f: spec_fn(PackageV) -> bool)
    requires
        !has_name(fails, n),
        forall|p: PackageV| f(p) ==> p.name == n,
    ensures
        count_where(prune_spec(s, fails), f) == count_where(s, f),
    decreases s.len(),
{
    if s.len() > 0 {
        lemma_prune_keeps(s.drop_first(), fails, n, f);
        if has_name(fails, s[0].name) {
            assert(!f(s[0]));
        } else {
            lemma_count_where_concat(seq![s[0]], prune_spec(s.drop_first(), fails), f);
            assert(seq![s[0]].drop_first() =~= Seq::<PackageV>::empty());
            assert(count_where(Seq::<PackageV>::empty(), f) == 0);
        }
    }
}

pub proof fn lemma_prune_drops(s: Seq<PackageV>, fails: Seq<Seq<char>>, f: spec_fn(PackageV) -> bool)
    requires
        forall|p: PackageV| f(p) ==> has_name(fails, p.name),
    ensures
        count_where(prune_spec(s, fails), f) == 0,
    decreases s.len(),
{
    if s.len() > 0 {
        lemma_prune_drops(s.drop_first(), fails, f);
        if !has_name(fails, s[0].name) {
            assert(!f(s[0]));
            lemma_count_where_concat(seq![s[0]], prune_spec(s.drop_first(), fails), f);
            assert(seq![s[0]].drop_first() =~= Seq::<PackageV>::empty());
            assert(count_where(Seq::<PackageV>::empty(), f) == 0);
        }
    }
}

/// Placement is sticky: a record that is already installed and is
/// requested again keeps its stored category and load policy, adopts the
/// request's trigger metadata, and pins the install target to the stored
/// placement. No other stored record moves.
pub proof fn lemma_placement_sticky(packs: Seq<PackageV>, r: PackageV)
    requires
        0 <= find_named(packs, r.name),
    ensures
        ({
            let i = find_named(packs, r.name);
            let m = merge_one_spec(packs, r, true).0;
            let t = merge_one_spec(packs, r, true).1;
            &&& m.len() == packs.len()
            &&& m[i].category == packs[i].category
            &&& m[i].opt == packs[i].opt
            &&& m[i].load_command == r.load_command
            &&& m[i].for_types == r.for_types
            &&& m[i].build_command == r.build_command
            &&& m[i].name == packs[i].name
            &&& m[i].remote == packs[i].remote
            &&& m[i].reference == packs[i].reference
            &&& (forall|k: int| 0 <= k < m.len() && k != i ==> m[k] == packs[k])
            &&& t.category == packs[i].category
            &&& t.opt == packs[i].opt
            &&& t.name == r.name
        }),
{
    lemma_find_named_found(packs, r.name);
}

/// Placement is free until installed: a stored record that is not yet on
/// disk adopts the newly requested category and load policy along with the
/// request's trigger metadata, keeping only its identity fields.
pub proof fn lemma_placement_superseded(packs: Seq<PackageV>, r: PackageV)
    requires
        0 <= find_named(packs, r.name),
    ensures
        ({
            let i = find_named(packs, r.name);
            let m = merge_one_spec(packs, r, false).0;
            let t = merge_one_spec(packs, r, false).1;
            &&& m.len() == packs.len()
            &&& m[i].category == r.category
            &&& m[i].opt == r.opt
            &&& m[i].load_command == r.load_command
            &&& m[i].for_types == r.for_types
            &&& m[i].build_command == r.build_command
            &&& m[i].name == packs[i].name
            &&& m[i].remote == packs[i].remote
            &&& m[i].reference == packs[i].reference
            &&& (forall|k: int| 0 <= k < m.len() && k != i ==> m[k] == packs[k])
            &&& t == r
        }),
{
    lemma_find_named_found(packs, r.name);
}

/// A name requested once, with no stored record of it and no install
/// failure, stands in the reconciled and pruned manifest exactly once, as
/// exactly the requested record.
pub proof fn lemma_fresh_request_recorded(
    packs: Seq<PackageV>,
    reqs: Seq<PackageV>,
    inst: Seq<bool>,
    fails: Seq<Seq<char>>,
    idx: int,
)
    requires
        inst.len() == reqs.len(),
        0 <= idx < reqs.len(),
        find_named(packs, reqs[idx].name) == -1,
        forall|j: int| 0 <= j < reqs.len() && j != idx ==> reqs[j].name != reqs[idx].name,
        !has_name(fails, reqs[idx].name),
    ensures
        count_where(
            prune_spec(merge_spec(packs, reqs, inst), fails),
            |p: PackageV| p.name == reqs[idx].name,
        ) == 1,
        count_where(prune_spec(merge_spec(packs, reqs, inst), fails), |p: PackageV| p == reqs[idx])
            == 1,
    decreases idx,
{
    let n = reqs[idx].name;
    let fname = |p: PackageV| p.name == n;
    let fval = |p: PackageV| p == reqs[idx];
    lemma_find_named_not_found(packs, n);
    let m1 = merge_one_spec(packs, reqs[0], inst[0]).0;
    if idx == 0 {
        assert(m1 == packs.push(reqs[0]));
        lemma_count_where_none(packs, fname);
        lemma_count_where_none(packs, fval);
        lemma_count_where_push(packs, reqs[0], fname);
        lemma_count_where_push(packs, reqs[0], fval);
        assert(count_where(m1, fname) == 1);
        assert(count_where(m1, fval) == 1);
        assert forall|j: int| 0 <= j < reqs.drop_first().len() implies reqs.drop_first()[j].name
            != n by {
            assert(reqs.drop_first()[j] == reqs[j + 1]);
        }
        lemma_merge_preserves(m1, reqs.drop_first(), inst.drop_first(), n, fname);
        lemma_merge_preserves(m1, reqs.drop_first(), inst.drop_first(), n, fval);
        lemma_prune_keeps(merge_spec(packs, reqs, inst), fails, n, fname);
        lemma_prune_keeps(merge_spec(packs, reqs, inst), fails, n, fval);
    } else {
        let i = find_named(packs, reqs[0].name);
        if i < 0 {
            assert forall|k: int| 0 <= k < m1.len() implies m1[k].name != n by {
                if k < packs.len() {
                    assert(m1[k] == packs[k]);
                }
            }
        } else {
            lemma_find_named_found(packs, reqs[0].name);
            assert forall|k: int| 0 <= k < m1.len() implies m1[k].name != n by {
                if k != i {
                    assert(m1[k] == packs[k]);
                } else {
                    assert(m1[i].name == packs[i].name);
                }
            }
        }
        lemma_find_named_none(m1, n);
        assert(reqs.drop_first()[idx - 1] == reqs[idx]);
        assert forall|j: int|
            0 <= j < reqs.drop_first().len() && j != idx - 1 implies (#[trigger] reqs.drop_first()[j]).name
            != reqs.drop_first()[idx - 1].name by {
            assert(reqs.drop_first()[j] == reqs[j + 1]);
        }
        lemma_fresh_request_recorded(m1, reqs.drop_first(), inst.drop_first(), fails, idx - 1);
    }
}

proof fn lemma_fail_names_misses(outcomes: Seq<(String, bool)>, n: Seq<char>)
    requires
        forall|j: int| 0 <= j < outcomes.len() ==> (outcomes[j].0@ == n ==> outcomes[j].1),
    ensures
        !has_name(fail_names(outcomes), n),
    decreases outcomes.len(),
{
    if outcomes.len() > 0 {
        assert forall|j: int| 0 <= j < outcomes.drop_first().len() implies (
        outcomes.drop_first()[j].0@ == n ==> outcomes.drop_first()[j].1) by {
            assert(outcomes.drop_first()[j] == outcomes[j + 1]);
        }
        lemma_fail_names_misses(outcomes.drop_first(), n);
        if !outcomes[0].1 {
            let all = fail_names(outcomes);
            let rest = fail_names(outcomes.drop_first());
            assert(all == seq![outcomes[0].0@] + rest);
            assert forall|k: int| 0 <= k < all.len() implies all[k] != n by {
                if k == 0 {
                    assert(all[0] == outcomes[0].0@);
                } else {
                    assert(all[k] == rest[k - 1]);
                }
            }
        }
    }
}

/// An already-installed package is never purged: every outcome its name
/// can report carries a true continue flag, so the name never enters the
/// purge set and pruning leaves the stored records of that name exactly as
/// the reconciler produced them.
pub proof fn lemma_already_installed_kept(
    m: Seq<PackageV>,
    outcomes: Seq<(String, bool)>,
    n: Seq<char>,
)
    requires
        forall|j: int| 0 <= j < outcomes.len() ==> (outcomes[j].0@ == n ==> outcomes[j].1),
    ensures
        !has_name(fail_names(outcomes), n),
        count_where(prune_spec(m, fail_names(outcomes)), |p: PackageV| p.name == n) == count_where(
            m,
            |p: PackageV| p.name == n,
        ),
{
    lemma_fail_names_misses(outcomes, n);
    lemma_prune_keeps(m, fail_names(outcomes), n, |p: PackageV| p.name == n);
}

/// A failed clone of a package with no prior manifest entry leaves no
/// trace: after the purge step, no record of that name remains, whatever
/// the reconciled list held.
pub proof fn lemma_failed_clone_purged(m: Seq<PackageV>, fails: Seq<Seq<char>>, n: Seq<char>)
    requires
        has_name(fails, n),
    ensures
        count_where(prune_spec(m, fails), |p: PackageV| p.name == n) == 0,
{
    lemma_prune_drops(m, fails, |p: PackageV| p.name == n);
}

proof fn lemma_lookup_empty(key: Seq<char>)
    ensures
        lookup(Seq::<(Seq<char>, DocV)>::empty(), key) is None,
{
}

/// Looking a key up in the four required entries.
proof fn lemma_lookup_base(a: DocV, b: DocV, c: DocV, d: DocV, key: Seq<char>)
    ensures
        lookup(seq![("name"@, a), ("remote"@, b), ("category"@, c), ("opt"@, d)], key) == (
        if key == "name"@ {
            Some(a)
        } else if key == "remote"@ {
            Some(b)
        } else if key == "category"@ {
            Some(c)
        } else if key == "opt"@ {
            Some(d)
        } else {
            None
        }),
{
    let s = seq![("name"@, a), ("remote"@, b), ("category"@, c), ("opt"@, d)];
    let s1 = seq![("remote"@, b), ("category"@, c), ("opt"@, d)];
    let s2 = seq![("category"@, c), ("opt"@, d)];
    let s3 = seq![("opt"@, d)];
    assert(s.drop_first() =~= s1);
    assert(s1.drop_first() =~= s2);
    assert(s2.drop_first() =~= s3);
    assert(s3.drop_first() =~= Seq::<(Seq<char>, DocV)>::empty());
    lemma_lookup_empty(key);
    assert(lookup(s3, key) == (if key == "opt"@ {
        Some(d)
    } else {
        None
    }));
    assert(lookup(s2, key) == (if key == "category"@ {
        Some(c)
    } else if key == "opt"@ {
        Some(d)
    } else {
        None
    }));
    assert(lookup(s1, key) == (if key == "remote"@ {
        Some(b)
    } else if key == "category"@ {
        Some(c)
    } else if key == "opt"@ {
        Some(d)
    } else {
        None
    }));
}

/// Looking a key up in a segment that holds at most one entry.
proof fn lemma_lookup_opt_seg(seg: Seq<(Seq<char>, DocV)>, key: Seq<char>)
    requires
        seg.len() <= 1,
    ensures
        lookup(seg, key) == (if seg.len() == 1 && seg[0].0 == key {
            Some(seg[0].1)
        } else {
            None
        }),
{
    lemma_lookup_empty(key);
    if seg.len() == 1 {
        assert(seg.drop_first() =~= Seq::<(Seq<char>, DocV)>::empty());
    } else {
        assert(seg =~= Seq::<(Seq<char>, DocV)>::empty());
    }
}

pub proof fn lemma_lookup_concat(a: Seq<(Seq<char>, DocV)>, b: Seq<(Seq<char>, DocV)>, key: Seq<char>)
    ensures
        lookup(a, key) is Some ==> lookup(a + b, key) == lookup(a, key),
        lookup(a, key) is None ==> lookup(a + b, key) == lookup(b, key),
    decreases a.len(),
{
    if a.len() == 0 {
        assert(a + b =~= b);
    } else {
        assert((a + b)[0] == a[0]);
        assert((a + b).drop_first() =~= a.drop_first() + b);
        lemma_lookup_concat(a.drop_first(), b, key);
    }
}

/// Writing a record and reading the entry back yields the record again:
/// the codec loses nothing. The derived identifier must be consistent with
/// the remote, as every record built by this library has it.
/// Looking each manifest key up in a written record, in entry order.
#[verifier::spinoff_prover]
proof fn lemma_record_lookup(p: PackageV, key: Seq<char>)
    ensures
        lookup(record_yaml(p)->Hash_0, key) == (if key == "name"@ {
            Some(DocV::Str(p.name))
        } else if key == "remote"@ {
            Some(DocV::Str(p.remote))
        } else if key == "category"@ {
            Some(DocV::Str(p.category))
        } else if key == "opt"@ {
            Some(DocV::Bool(p.opt))
        } else if key == "ref"@ && p.reference is Some {
            Some(
                DocV::Hash(
                    seq![
                        (kind_str(p.reference->Some_0.0), DocV::Str(p.reference->Some_0.1)),
                    ],
                ),
            )
        } else if key == "on"@ && p.load_command is Some {
            Some(DocV::Str(p.load_command->Some_0))
        } else if key == "build"@ && p.build_command is Some {
            Some(DocV::Str(p.build_command->Some_0))
        } else if key == "for"@ && p.for_types.len() > 0 {
            Some(types_yaml(p.for_types))
        } else {
            None
        }),
{
    let base = seq![
        ("name"@, DocV::Str(p.name)),
        ("remote"@, DocV::Str(p.remote)),
        ("category"@, DocV::Str(p.category)),
        ("opt"@, DocV::Bool(p.opt)),
    ];
    let refs: Seq<(Seq<char>, DocV)> = match p.reference {
        Some((k, v)) => seq![("ref"@, DocV::Hash(seq![(kind_str(k), DocV::Str(v))]))],
        None => Seq::empty(),
    };
    let ons: Seq<(Seq<char>, DocV)> = match p.load_command {
        Some(c) => seq![("on"@, DocV::Str(c))],
        None => Seq::empty(),
    };
    let builds: Seq<(Seq<char>, DocV)> = match p.build_command {
        Some(c) => seq![("build"@, DocV::Str(c))],
        None => Seq::empty(),
    };
    let fors: Seq<(Seq<char>, DocV)> = if p.for_types.len() > 0 {
        seq![("for"@, types_yaml(p.for_types))]
    } else {
        Seq::empty()
    };
    let rp = record_yaml(p)->Hash_0;
    assert(rp == base + refs + ons + builds + fors);
    let mid = builds + fors;
    let tail2 = ons + mid;
    let tail = refs + tail2;
    assert(rp =~= base + tail);
    lemma_lookup_base(
        DocV::Str(p.name),
        DocV::Str(p.remote),
        DocV::Str(p.category),
        DocV::Bool(p.opt),
        key,
    );
    lemma_lookup_concat(base, tail, key);
    lemma_lookup_concat(refs, tail2, key);
    lemma_lookup_concat(ons, mid, key);
    lemma_lookup_concat(builds, fors, key);
    lemma_lookup_opt_seg(refs, key);
    lemma_lookup_opt_seg(ons, key);
    lemma_lookup_opt_seg(builds, key);
    lemma_lookup_opt_seg(fors, key);
}

/// Writing a record and reading the entry back yields the record again:
/// the codec loses nothing. The derived identifier must be consistent with
/// the remote, as it is in every record this library builds.
#[verifier::spinoff_prover]
pub proof fn lemma_round_trip(p: PackageV)
    requires
        p.idname == idname_of(p.remote),
    ensures
        parse_record(record_yaml(p)) == Some(p),
{
    reveal_strlit("name");
    reveal_strlit("remote");
    reveal_strlit("category");
    reveal_strlit("opt");
    reveal_strlit("ref");
    reveal_strlit("on");
    reveal_strlit("build");
    reveal_strlit("for");
    assert("name"@.len() == 4 && "remote"@.len() == 6 && "category"@.len() == 8 && "opt"@.len()
        == 3 && "ref"@.len() == 3 && "on"@.len() == 2 && "build"@.len() == 5 && "for"@.len() == 3);
    assert("opt"@[0] == 'o' && "ref"@[0] == 'r' && "for"@[0] == 'f');
    lemma_record_lookup(p, "name"@);
    lemma_record_lookup(p, "remote"@);
    lemma_record_lookup(p, "category"@);
    lemma_record_lookup(p, "opt"@);
    lemma_record_lookup(p, "ref"@);
    lemma_record_lookup(p, "on"@);
    lemma_record_lookup(p, "build"@);
    lemma_record_lookup(p, "for"@);
    reveal_strlit("branch");
    reveal_strlit("tag");
    reveal_strlit("commit");
    assert("branch"@.len() == 6 && "tag"@.len() == 3 && "commit"@.len() == 6);
    assert("branch"@[0] == 'b' && "commit"@[0] == 'c' && "tag"@[0] == 't');
    if p.reference is Some {
        let k = p.reference->Some_0.0;
        match k {
            RefKind::Branch => {
                assert(parse_kind(kind_str(k)) == Some(k));
            },
            RefKind::Tag => {
                assert(parse_kind(kind_str(k)) == Some(k));
            },
            RefKind::Commit => {
                assert(parse_kind(kind_str(k)) == Some(k));
            },
        }
        assert(parse_kind(kind_str(k)) == Some(k));
    }
    assert(parse_record(record_yaml(p)) is Some);
    let q = parse_record(record_yaml(p))->Some_0;
    assert(q.for_types =~= p.for_types);
    assert(q =~= p);
}

} // verus!

