use pac::codec::Doc;
use pac::executor::{
    build_outcome, check_threads, collect_failures, do_install, finish_install, install_plugin,
    purge_failures, sort_packs, InstallAction, InstallStatus,
};
use pac::manifest::{fetch, render_pac_plugin, render_paconfig};
use pac::package::walk_packs;
use pac::reconcile::{merge_one, reconcile};
use pac::{Error, GitReference, Package, RefKind};

fn pkg(name: &str, remote: &str, category: &str, opt: bool) -> Package {
    Package::new(name, remote, None, category, opt)
}

#[test]
fn package_idname_from_remote() {
    let remote = "https://github.com/username/repo";
    assert_eq!(Package::idname_from_remote(remote), "username/repo");
}

#[test]
fn idname_short_remotes() {
    assert_eq!(Package::idname_from_remote("user/repo"), "user/repo");
    assert_eq!(Package::idname_from_remote("lonely"), "lonely");
}

#[test]
fn path_is_category_opt_name() {
    let mut p = pkg("repo", "https://github.com/u/repo", "colors", false);
    assert_eq!(p.path("/home/x/.vim/pack"), "/home/x/.vim/pack/colors/start/repo");
    p.set_opt(true);
    p.set_category("tools");
    assert_eq!(p.path("/home/x/.vim/pack"), "/home/x/.vim/pack/tools/opt/repo");
}

#[test]
fn fresh_request_is_recorded_once() {
    // A name with no stored record, whose clone succeeds, ends up in the
    // manifest exactly once, with the requested fields.
    let mut packs = vec![pkg("old", "https://github.com/u/old", "default", false)];
    let req = pkg("new", "https://github.com/u/new", "tools", true);
    let targets = reconcile(&mut packs, vec![req], &vec![false]);
    assert_eq!(targets.len(), 1);
    let fails: Vec<String> = Vec::new();
    purge_failures(&mut packs, &fails);
    sort_packs(&mut packs);
    let named: Vec<&Package> = packs.iter().filter(|p| p.name == "new").collect();
    assert_eq!(named.len(), 1);
    assert_eq!(named[0].category, "tools");
    assert!(named[0].opt);
}

#[test]
fn already_installed_is_skipped_and_kept() {
    assert_eq!(do_install(true), InstallAction::Skip);
    assert_eq!(do_install(false), InstallAction::CloneRepo);
    assert_eq!(install_plugin(true, false), (InstallStatus::AlreadyInstalled, true));
    assert_eq!(install_plugin(false, true), (InstallStatus::Installed, true));
    assert_eq!(install_plugin(false, false), (InstallStatus::CloneFailed, false));
}

#[test]
fn installed_record_keeps_placement_adopts_triggers() {
    let mut packs = vec![pkg("repo", "https://github.com/u/repo", "colors", false)];
    let mut req = pkg("repo", "https://github.com/u/repo", "tools", true);
    req.load_command = Some(String::from("Rp"));
    req.set_types(vec![String::from("rust")]);
    let target = merge_one(&mut packs, req, true);
    // The stored record keeps its placement but refreshes trigger metadata.
    assert_eq!(packs.len(), 1);
    assert_eq!(packs[0].category, "colors");
    assert!(!packs[0].opt);
    assert_eq!(packs[0].load_command, Some(String::from("Rp")));
    assert_eq!(packs[0].for_types, vec![String::from("rust")]);
    // The install target is pinned to the stored placement.
    assert_eq!(target.category, "colors");
    assert!(!target.opt);
}

#[test]
fn uninstalled_record_adopts_new_placement() {
    let mut packs = vec![pkg("repo", "https://github.com/u/repo", "colors", false)];
    let req = pkg("repo", "https://github.com/u/repo", "tools", true);
    let target = merge_one(&mut packs, req, false);
    assert_eq!(packs.len(), 1);
    assert_eq!(packs[0].category, "tools");
    assert!(packs[0].opt);
    assert_eq!(target.category, "tools");
}

#[test]
fn failed_fresh_clone_leaves_no_record() {
    let mut packs: Vec<Package> = Vec::new();
    let req = pkg("gone", "https://github.com/u/gone", "default", false);
    let _targets = reconcile(&mut packs, vec![req], &vec![false]);
    let outcomes = vec![(String::from("gone"), false)];
    let fails = collect_failures(&outcomes);
    assert_eq!(fails, vec![String::from("gone")]);
    purge_failures(&mut packs, &fails);
    sort_packs(&mut packs);
    assert!(packs.iter().all(|p| p.name != "gone"));
    assert_eq!(packs.len(), 0);
}

#[test]
fn manifest_is_sorted_by_name() {
    let mut packs = vec![
        pkg("zeta", "https://github.com/u/zeta", "default", false),
        pkg("alpha", "https://github.com/u/alpha", "default", false),
        pkg("midway", "https://github.com/u/midway", "default", false),
    ];
    sort_packs(&mut packs);
    let names: Vec<&str> = packs.iter().map(|p| p.name.as_str()).collect();
    assert_eq!(names, vec!["alpha", "midway", "zeta"]);
}

#[test]
fn zero_threads_is_rejected() {
    match check_threads(0) {
        Err(Error::Config(m)) => assert_eq!(m, "Threads should be greater than 0"),
        other => panic!("unexpected: {:?}", other),
    }
    assert!(check_threads(1).is_ok());
    assert!(check_threads(8).is_ok());
}

#[test]
fn empty_request_targets_everything_tracked() {
    let mut packs = vec![
        pkg("a", "https://github.com/u/a", "default", false),
        pkg("b", "https://github.com/u/b", "default", true),
    ];
    let targets = reconcile(&mut packs, Vec::new(), &Vec::new());
    assert_eq!(targets.len(), 2);
    assert_eq!(targets[0].name, "a");
    assert_eq!(targets[1].name, "b");
    assert_eq!(packs.len(), 2);
}

#[test]
fn yaml_round_trip_single_record() {
    let mut p = pkg("repo", "https://github.com/user/repo", "tools", true);
    p.reference = Some(GitReference { kind: RefKind::Tag, value: String::from("v1.2") });
    p.load_command = Some(String::from("Rp"));
    p.build_command = Some(String::from("make"));
    p.set_types(vec![String::from("rust"), String::from("toml")]);
    let expected = p.clone();
    let doc = p.into_yaml();
    let back = Package::from_yaml(&doc).expect("round trip parses");
    assert_eq!(back, expected);
}

#[test]
fn text_round_trip_through_store() {
    let mut a = pkg("alpha", "https://github.com/u/alpha", "default", false);
    a.build_command = Some(String::from("make install"));
    let mut b = pkg("beta", "https://github.com/u/beta", "tools", true);
    b.reference = Some(GitReference { kind: RefKind::Branch, value: String::from("main") });
    b.load_command = Some(String::from("Beta"));
    b.set_types(vec![String::from("md")]);
    let packs = vec![a.clone(), b.clone()];
    let text = render_paconfig(&packs);
    assert!(text.starts_with("# vim: ft=yaml\n#\n# Written by pac.\n\n"));
    let loaded = fetch(Some(text.as_str())).expect("reloads");
    assert_eq!(loaded, vec![a, b]);
}

#[test]
fn fetch_without_config_is_empty() {
    assert_eq!(fetch(None).unwrap(), Vec::<Package>::new());
}

#[test]
fn fetch_rejects_invalid_yaml() {
    match fetch(Some("- [unterminated")) {
        Err(Error::PaconfigFile(_)) => {},
        other => panic!("unexpected: {:?}", other),
    }
}

#[test]
fn fetch_rejects_entry_missing_required_key() {
    // An entry without a remote is a format error that fails the whole load.
    let text = "---\n- name: repo\n  category: default\n  opt: false\n";
    match fetch(Some(text)) {
        Err(Error::PaconfigFile(_)) => {},
        other => panic!("unexpected: {:?}", other),
    }
}

#[test]
fn from_yaml_requires_all_keys() {
    let entry = Doc::Hash(vec![
        (String::from("name"), Doc::Str(String::from("repo"))),
        (String::from("remote"), Doc::Str(String::from("https://github.com/u/repo"))),
        (String::from("category"), Doc::Str(String::from("default"))),
    ]);
    match Package::from_yaml(&entry) {
        Err(Error::Format) => {},
        other => panic!("unexpected: {:?}", other),
    }
}

#[test]
fn from_yaml_rejects_unknown_reference_kind() {
    let entry = Doc::Hash(vec![
        (String::from("name"), Doc::Str(String::from("repo"))),
        (String::from("remote"), Doc::Str(String::from("https://github.com/u/repo"))),
        (String::from("category"), Doc::Str(String::from("default"))),
        (String::from("opt"), Doc::Bool(false)),
        (
            String::from("ref"),
            Doc::Hash(vec![(String::from("rev"), Doc::Str(String::from("abc")))]),
        ),
    ]);
    match Package::from_yaml(&entry) {
        Err(Error::Format) => {},
        other => panic!("unexpected: {:?}", other),
    }
}

#[test]
fn git_reference_new_rejects_unknown_kind() {
    let kind = String::from("rev");
    let value = String::from("abc");
    match GitReference::new(&kind, &value) {
        Err(Error::Format) => {},
        other => panic!("unexpected: {:?}", other),
    }
    let good = GitReference::new(&String::from("commit"), &value).unwrap();
    assert_eq!(good.kind, RefKind::Commit);
    assert_eq!(good.kind_name(), "commit");
}

#[test]
fn walk_packs_filters_tree() {
    let tree = vec![
        (
            String::from("default"),
            vec![
                (
                    String::from("start"),
                    vec![String::from("alpha"), String::from(".hidden")],
                ),
                (String::from("opt"), vec![String::from("beta")]),
                (String::from("junk"), vec![String::from("gamma")]),
            ],
        ),
        (String::from(".cache"), vec![(String::from("start"), vec![String::from("x")])]),
        (String::from("tools"), vec![(String::from("start"), vec![String::from("tau")])]),
    ];
    let all = walk_packs(&tree, &None, false, false);
    assert_eq!(
        all,
        vec![
            (String::from("default"), String::from("start"), String::from("alpha")),
            (String::from("default"), String::from("opt"), String::from("beta")),
            (String::from("tools"), String::from("start"), String::from("tau")),
        ]
    );
    let only_default_start = walk_packs(&tree, &Some(String::from("default")), true, false);
    assert_eq!(
        only_default_start,
        vec![(String::from("default"), String::from("start"), String::from("alpha"))]
    );
}

#[test]
fn loader_script_lines_for_triggers() {
    let mut p = pkg("repo", "https://github.com/u/repo", "default", true);
    p.load_command = Some(String::from("Rp"));
    p.set_types(vec![String::from("rust"), String::from("toml")]);
    let quiet = pkg("plain", "https://github.com/u/plain", "default", false);
    let script = render_pac_plugin(&vec![quiet, p]);
    let expected_tail = "\" repo\ncommand! -nargs=* -range -bang Rp packadd repo | call s:do_cmd('Rp', \"<bang>\", <line1>, <line2>, <q-args>)\n\nautocmd FileType rust,toml packadd repo\n\n";
    assert!(script.ends_with(expected_tail));
    assert!(!script.contains("plain"));
    assert!(script.starts_with("\" Maintained by pac"));
}

#[test]
fn describe_names_placement_and_triggers() {
    let mut p = pkg("repo", "https://github.com/user/repo", "tools", true);
    p.load_command = Some(String::from("Rp"));
    p.set_types(vec![String::from("rust"), String::from("toml")]);
    assert_eq!(p.describe(), "user/repo => pack/tools/opt [Load on `Rp`] [For rust,toml]");
    let plain = pkg("other", "https://github.com/user/other", "default", false);
    assert_eq!(plain.describe(), "user/other => pack/default/start");
}

#[test]
fn finish_install_prunes_then_sorts() {
    let mut packs = vec![
        pkg("zeta", "https://github.com/u/zeta", "default", false),
        pkg("bad", "https://github.com/u/bad", "default", false),
        pkg("alpha", "https://github.com/u/alpha", "default", false),
    ];
    let fails = vec![String::from("bad")];
    finish_install(&mut packs, &fails);
    let names: Vec<&str> = packs.iter().map(|p| p.name.as_str()).collect();
    assert_eq!(names, vec!["alpha", "zeta"]);
}

#[test]
fn build_outcome_classifies_the_build_step() {
    assert!(build_outcome(false, false, None).is_ok());
    assert!(build_outcome(true, true, None).is_ok());
    match build_outcome(true, false, Some(String::from("boom"))) {
        Err(Error::Build(t)) => assert_eq!(t, "boom"),
        other => panic!("unexpected: {:?}", other),
    }
    match build_outcome(true, false, None) {
        Err(Error::Build(t)) => assert_eq!(t, "No error output!"),
        other => panic!("unexpected: {:?}", other),
    }
}

#[test]
fn collect_failures_keeps_only_false_flags() {
    let outcomes = vec![
        (String::from("a"), true),
        (String::from("b"), false),
        (String::from("c"), true),
        (String::from("d"), false),
    ];
    assert_eq!(collect_failures(&outcomes), vec![String::from("b"), String::from("d")]);
}
