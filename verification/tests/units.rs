use lash::cli::Cli;
use lash::command::{
    classify_link, classify_unlink, do_link, do_unlink, operations, package_error, prepare, record, settle,
    uninstalls, Action, PackageError, UnlinkError,
};
use lash::config::Config;
use lash::fs::{FsOp, Probe};
use lash::link::Link;
use lash::options::{clone_strings, Command, MergeError, Options};
use lash::paths::{is_absolute, join, map_path_dots, needs_absolute};
use lash::plan::{get_paths, plan_entry, PlanError, Walked};
use lash::process::{PackageRun, Request};
use lash::store::Store;
use lash::zombies::{all_in, check_zombies, contains_path, judge_entry, Verdict, ZombieError};

fn s(text: &str) -> String {
    text.to_owned()
}

fn link(source: &str, target: &str) -> Link {
    Link::new(s(source), s(target))
}

fn file_at(path: &str) -> Probe {
    Probe { exists: Some(true), canonical: Some(s(path)), ..Probe::absent() }
}

fn dir_at(path: &str, entries: &[&str]) -> Probe {
    Probe {
        exists: Some(true),
        is_dir: true,
        canonical: Some(s(path)),
        entries: Some(entries.iter().map(|e| s(e)).collect()),
        ..Probe::absent()
    }
}

fn link_to(value: &str, end: Option<&str>) -> Probe {
    Probe {
        exists: Some(end.is_some()),
        is_symlink: true,
        canonical: end.map(s),
        link_value: Some(s(value)),
        link_value_exists: end.is_some(),
        ..Probe::absent()
    }
}

fn opts(command: Command, dry_run: bool, adopt: bool) -> Options {
    Options {
        dotfiles: false,
        dry_run,
        verbose: false,
        target: s("/out"),
        command,
        adopt,
        packages: vec![s("/pkg")],
    }
}

fn shown(ops: &[FsOp]) -> Vec<String> {
    ops.iter()
        .map(|op| match op {
            FsOp::CreateDirAll { path } => format!("mkdir {}", path),
            FsOp::Symlink { source, target } => format!("ln {} {}", source, target),
            FsOp::RemoveFile { path } => format!("rm {}", path),
            FsOp::RemoveDir { path } => format!("rmdir {}", path),
            FsOp::Copy { from, to } => format!("cp {} {}", from, to),
        })
        .collect()
}

fn found(path: &str) -> Walked {
    Walked::Found { path: s(path), canonical: Some(s(path)) }
}

#[test]
fn store_records_and_retires() {
    let mut store = Store::new();
    assert_eq!(store.len(), 0);
    assert!(!store.contains_key(&s("/out/a")));
    assert_eq!(store.get(&s("/out/a")), None);

    store.insert(s("/out/a"), s("/pkg/a"));
    store.insert(s("/out/b"), s("/pkg/b"));
    assert_eq!(store.len(), 2);
    assert!(store.contains_key(&s("/out/a")));
    assert_eq!(store.get(&s("/out/b")), Some(&s("/pkg/b")));

    store.insert(s("/out/a"), s("/other/a"));
    assert_eq!(store.len(), 2);
    assert_eq!(store.get(&s("/out/a")), Some(&s("/other/a")));
    assert_eq!(store.keys(), vec![s("/out/a"), s("/out/b")]);

    assert!(store.remove(&s("/out/a")));
    assert!(!store.remove(&s("/out/a")));
    assert_eq!(store.len(), 1);
    assert_eq!(store.get(&s("/out/a")), None);
    assert_eq!(store.to_pairs(), vec![(s("/out/b"), s("/pkg/b"))]);
}

#[test]
fn store_from_pairs_lets_the_later_pair_count() {
    let store = Store::from_pairs(vec![
        (s("/out/a"), s("/pkg/first")),
        (s("/out/b"), s("/pkg/b")),
        (s("/out/a"), s("/pkg/second")),
    ]);
    assert_eq!(store.len(), 2);
    assert_eq!(store.get(&s("/out/a")), Some(&s("/pkg/second")));
    let again = Store::from_pairs(store.to_pairs());
    assert_eq!(again.to_pairs(), store.to_pairs());
}

#[test]
fn dots_are_mapped_at_the_start_of_segments_only() {
    assert_eq!(map_path_dots("dot-bashrc"), ".bashrc");
    assert_eq!(map_path_dots("/home/me/dot-bashrc"), "/home/me/.bashrc");
    assert_eq!(map_path_dots("/home/dot-config/app/dot-rc"), "/home/.config/app/.rc");
    assert_eq!(map_path_dots("/home/polkadot-x/adot-"), "/home/polkadot-x/adot-");
    assert_eq!(map_path_dots("dot-dot-x"), ".dot-x");
    assert_eq!(map_path_dots("dot-"), ".");
    assert_eq!(map_path_dots("/dot"), "/dot");
    assert_eq!(map_path_dots(""), "");
    assert_eq!(map_path_dots("/été/dot-ü"), "/été/.ü");
}

#[test]
fn join_adds_one_separator() {
    assert_eq!(join("/a", "b"), "/a/b");
    assert_eq!(join("/a/", "b"), "/a/b");
    assert_eq!(join("/a", "/b"), "/b");
    assert_eq!(join("", "b"), "b");
    assert_eq!(join("/a", ""), "/a/");
    assert_eq!(join("/a", "b"), std::path::Path::new("/a").join("b").to_str().unwrap());
    assert_eq!(join("/a", ""), std::path::Path::new("/a").join("").to_str().unwrap());
}

#[test]
fn absolute_paths_begin_at_the_root() {
    assert!(is_absolute("/"));
    assert!(is_absolute("/a/b"));
    assert!(!is_absolute("a/b"));
    assert!(!is_absolute(""));
}

#[test]
fn link_values_not_in_absolute_form_are_found() {
    assert!(!needs_absolute(&s("/pkg/file.txt"), "/work"));
    assert!(needs_absolute(&s("/./pkg/file.txt"), "/work"));
    assert!(needs_absolute(&s("../pkg/file.txt"), "/work"));
    assert!(needs_absolute(&s("file.txt"), "/work"));
    assert!(needs_absolute(&s("file.txt"), "work"));
    assert!(!needs_absolute(&s("/pkg/file.txt"), "work"));
}

#[test]
fn flags_hold_if_either_side_sets_them() {
    let cli = Cli {
        dotfiles: false,
        dry_run: true,
        verbose: true,
        target: None,
        command: lash::cli::Command::Link { packages: vec![s("a"), s("b")], adopt: false },
    };
    let config = Config { verbose: Some(false), dotfiles: Some(true), target: None, adopt: None };
    let options = Options::with_target(&cli, &config, s("/out"));
    assert!(options.dotfiles);
    assert!(options.dry_run);
    assert!(options.verbose);
    assert!(!options.adopt);
    assert_eq!(options.command, Command::Link);
    assert_eq!(options.target, "/out");
    assert_eq!(options.packages, vec![s("a"), s("b")]);

    let config = Config { adopt: Some(true), ..Config::empty() };
    assert!(Options::with_target(&cli, &config, s("/out")).adopt);
    let cli = Cli { command: lash::cli::Command::Link { packages: vec![], adopt: true }, ..cli };
    assert!(Options::with_target(&cli, &Config::empty(), s("/out")).adopt);
    let cli = Cli { command: lash::cli::Command::Unlink { packages: vec![s("c")] }, ..cli };
    let options = Options::with_target(&cli, &Config::empty(), s("/out"));
    assert!(!options.adopt);
    assert_eq!(options.command, Command::Unlink);
    assert_eq!(options.packages, vec![s("c")]);
}

#[test]
fn target_comes_from_the_command_line_first() {
    let mut cli = Cli {
        dotfiles: false,
        dry_run: false,
        verbose: false,
        target: Some(s("/cli")),
        command: lash::cli::Command::Unlink { packages: vec![] },
    };
    let mut config = Config { target: Some(s("/config")), ..Config::empty() };
    assert_eq!(Options::pick_target(&cli, &config, Some(s("/home"))), Some(s("/cli")));
    assert_eq!(Options::merge(&cli, &config).unwrap().target, "/cli");
    cli.target = None;
    assert_eq!(Options::pick_target(&cli, &config, Some(s("/home"))), Some(s("/config")));
    assert_eq!(Options::merge(&cli, &config).unwrap().target, "/config");
    config.target = None;
    assert_eq!(Options::pick_target(&cli, &config, Some(s("/home"))), Some(s("/home")));
    assert_eq!(Options::pick_target(&cli, &config, None), None);

    cli.target = Some(s("/tmp/$LASH_TEST_VARIABLE_THAT_IS_NOT_SET"));
    match Options::merge(&cli, &config) {
        Err(MergeError::Lookup { variable }) => assert_eq!(variable, "LASH_TEST_VARIABLE_THAT_IS_NOT_SET"),
        other => panic!("unexpected {:?}", other),
    }
}

#[test]
fn a_link_starts_empty() {
    let l = Link::default();
    assert_eq!(l.source, "");
    assert_eq!(l.target, "");
}

#[test]
fn without_a_target_the_home_directory_is_taken() {
    let cli = Cli {
        dotfiles: false,
        dry_run: false,
        verbose: false,
        target: None,
        command: lash::cli::Command::Link { packages: vec![s("pkg")], adopt: false },
    };
    match Options::merge(&cli, &Config::empty()) {
        Ok(options) => {
            assert!(!options.target.is_empty());
            assert_eq!(options.packages, vec![s("pkg")]);
        }
        Err(MergeError::NoHome) => {}
        Err(MergeError::Lookup { variable }) => assert!(!variable.is_empty()),
    }
}

#[test]
fn strings_are_copied() {
    let list = vec![s("a"), s(""), s("c")];
    assert_eq!(clone_strings(&list), list);
}

#[test]
fn plan_keeps_the_walk_order_when_installing() {
    let walk = vec![found("/pkg/sub"), found("/pkg/sub/file.txt"), found("/pkg/top.txt")];
    let links = get_paths("/pkg", "/out", "/work", &walk, false, false).unwrap();
    let pairs: Vec<(String, String)> = links.into_iter().map(|l| (l.source, l.target)).collect();
    assert_eq!(
        pairs,
        vec![
            (s("/pkg/sub"), s("/out/sub")),
            (s("/pkg/sub/file.txt"), s("/out/sub/file.txt")),
            (s("/pkg/top.txt"), s("/out/top.txt")),
        ]
    );
}

#[test]
fn plan_runs_from_the_leaves_up_when_removing() {
    let walk = vec![found("/pkg/sub"), found("/pkg/sub/file.txt"), found("/pkg/top.txt")];
    let links = get_paths("/pkg", "/out", "/work", &walk, false, true).unwrap();
    let targets: Vec<String> = links.into_iter().map(|l| l.target).collect();
    assert_eq!(targets, vec![s("/out/top.txt"), s("/out/sub/file.txt"), s("/out/sub")]);
}

#[test]
fn plan_makes_targets_absolute_and_keeps_sources_canonical() {
    let walk = vec![Walked::Found { path: s("pkg/dot-rc"), canonical: Some(s("/real/pkg/dot-rc")) }];
    let links = get_paths("pkg", "../out/./x", "/work/here", &walk, true, false).unwrap();
    assert_eq!(links.len(), 1);
    assert_eq!(links[0].source, "/real/pkg/dot-rc");
    assert_eq!(links[0].target, "/work/out/x/.rc");
    let links = get_paths("pkg", "out", "/work", &walk, false, false).unwrap();
    assert_eq!(links[0].target, "/work/out/dot-rc");
}

#[test]
fn plan_fails_as_a_whole() {
    let good = found("/pkg/a");
    let walk = vec![good.clone(), Walked::Failed, found("/elsewhere/b")];
    assert_eq!(get_paths("/pkg", "/out", "/work", &walk, false, false).err(), Some(PlanError::Unreadable));
    let walk = vec![good.clone(), found("/elsewhere/b"), Walked::Failed];
    assert_eq!(get_paths("/pkg", "/out", "/work", &walk, false, true).err(), Some(PlanError::Outside));
    let walk = vec![good.clone(), Walked::Found { path: s("/pkg/b"), canonical: None }];
    assert_eq!(get_paths("/pkg", "/out", "/work", &walk, false, false).err(), Some(PlanError::NoCanonicalPath));
    let walk = vec![good.clone()];
    assert_eq!(get_paths("/pkg", "/out", "work", &walk, false, false).err(), Some(PlanError::NoAbsolutePath));
    assert_eq!(plan_entry("/pkg", "/out", "/work", false, &Walked::Failed).err(), Some(PlanError::Unreadable));
    assert!(get_paths("/pkg", "/out", "/work", &vec![], false, false).unwrap().is_empty());
}

#[test]
fn a_directory_is_kept_or_made() {
    let l = link("/pkg/sub", "/out/sub");
    assert!(matches!(classify_link(false, &l, true, &dir_at("/out/sub", &[]), "/work"), Action::KeepDirectory));
    assert!(matches!(classify_link(false, &l, true, &file_at("/out/sub"), "/work"), Action::KeepDirectory));
    assert!(matches!(classify_link(true, &l, true, &Probe::absent(), "/work"), Action::CreateDirectory));
    let unknown = Probe { exists: None, ..Probe::absent() };
    assert!(matches!(classify_link(true, &l, true, &unknown, "/work"), Action::CreateDirectory));
}

#[test]
fn a_file_is_linked_kept_adopted_or_left() {
    let l = link("/pkg/file", "/out/file");
    let cwd = "/work";
    assert!(matches!(classify_link(false, &l, false, &Probe::absent(), cwd), Action::CreateLink));
    assert!(matches!(
        classify_link(false, &l, false, &link_to("/pkg/file", Some("/pkg/file")), cwd),
        Action::KeepLink
    ));
    assert!(matches!(
        classify_link(true, &l, false, &link_to("/out/mid", Some("/pkg/file")), cwd),
        Action::KeepLink
    ));
    assert!(matches!(
        classify_link(true, &l, false, &link_to("../pkg/file", Some("/pkg/file")), cwd),
        Action::NormalizeLink
    ));
    let unread = Probe { link_value: None, ..link_to("x", Some("/pkg/file")) };
    assert!(matches!(classify_link(false, &l, false, &unread, cwd), Action::KeepLink));
    assert!(matches!(classify_link(false, &l, false, &file_at("/out/file"), cwd), Action::Conflict));
    assert!(matches!(
        classify_link(false, &l, false, &link_to("/other", Some("/other")), cwd),
        Action::Conflict
    ));
    assert!(matches!(classify_link(false, &l, false, &link_to("/gone", None), cwd), Action::Conflict));
    assert!(matches!(classify_link(true, &l, false, &link_to("/gone", None), cwd), Action::Conflict));
    match classify_link(true, &l, false, &file_at("/out/file"), cwd) {
        Action::Adopt { from } => assert_eq!(from, "/out/file"),
        other => panic!("unexpected {:?}", other),
    }
    match classify_link(true, &l, false, &link_to("/other", Some("/real/other")), cwd) {
        Action::Adopt { from } => assert_eq!(from, "/real/other"),
        other => panic!("unexpected {:?}", other),
    }
    assert!(matches!(classify_link(true, &l, false, &file_at("/pkg/file"), cwd), Action::SameFile));
    let unresolved = Probe { canonical: None, ..file_at("/out/file") };
    assert!(matches!(classify_link(true, &l, false, &unresolved, cwd), Action::Conflict));
}

#[test]
fn removal_takes_empty_directories_and_own_links_only() {
    let l = link("/pkg/file", "/out/file");
    assert!(matches!(classify_unlink(&l, &dir_at("/out/file", &[])), Ok(Action::RemoveDirectory)));
    assert!(matches!(classify_unlink(&l, &dir_at("/out/file", &["/out/file/x"])), Ok(Action::Leave)));
    assert!(matches!(classify_unlink(&l, &link_to("/pkg/file", Some("/pkg/file"))), Ok(Action::RemoveLink)));
    assert!(matches!(classify_unlink(&l, &link_to("/pkg/file", None)), Ok(Action::RemoveLink)));
    assert!(matches!(classify_unlink(&l, &link_to("/pkg/other", Some("/pkg/file"))), Ok(Action::Leave)));
    assert!(matches!(classify_unlink(&l, &file_at("/out/file")), Ok(Action::Leave)));
    assert!(matches!(classify_unlink(&l, &Probe::absent()), Ok(Action::Leave)));
    let unlisted = Probe { entries: None, ..dir_at("/out/file", &[]) };
    assert_eq!(classify_unlink(&l, &unlisted).err(), Some(UnlinkError::UnreadableDirectory));
    let unread = Probe { link_value: None, ..link_to("x", None) };
    assert_eq!(classify_unlink(&l, &unread).err(), Some(UnlinkError::UnreadableLink));
    assert_eq!(
        do_unlink(&opts(Command::Unlink, false, false), &l, &unlisted).err(),
        Some(UnlinkError::UnreadableDirectory)
    );
}

#[test]
fn each_action_has_its_operations() {
    let l = link("/pkg/file", "/out/file");
    let none: Vec<String> = vec![];
    assert_eq!(shown(&operations(&Action::CreateDirectory, &l, false)), vec!["mkdir /out/file"]);
    assert_eq!(shown(&operations(&Action::CreateLink, &l, false)), vec!["ln /pkg/file /out/file"]);
    assert_eq!(
        shown(&operations(&Action::NormalizeLink, &l, false)),
        vec!["rm /out/file", "ln /pkg/file /out/file"]
    );
    assert_eq!(
        shown(&operations(&Action::Adopt { from: s("/real") }, &l, false)),
        vec!["cp /real /pkg/file", "rm /out/file", "ln /pkg/file /out/file"]
    );
    assert_eq!(shown(&operations(&Action::RemoveDirectory, &l, false)), vec!["rmdir /out/file"]);
    assert_eq!(shown(&operations(&Action::RemoveLink, &l, false)), vec!["rm /out/file"]);
    for quiet in [Action::KeepDirectory, Action::KeepLink, Action::SameFile, Action::Conflict, Action::Leave] {
        assert_eq!(shown(&operations(&quiet, &l, false)), none);
    }
    for any in [Action::CreateLink, Action::Adopt { from: s("/real") }, Action::RemoveDirectory] {
        assert_eq!(shown(&operations(&any, &l, true)), none);
    }
}

#[test]
fn plans_hold_action_and_operations() {
    let l = link("/pkg/file", "/out/file");
    let plan = do_link(&opts(Command::Link, false, true), &l, false, &file_at("/out/file"), "/work");
    assert!(matches!(plan.action, Action::Adopt { .. }));
    assert_eq!(shown(&plan.ops), vec!["cp /out/file /pkg/file", "rm /out/file", "ln /pkg/file /out/file"]);
    let plan = do_link(&opts(Command::Link, false, false), &l, false, &file_at("/out/file"), "/work");
    assert!(matches!(plan.action, Action::Conflict));
    assert!(plan.ops.is_empty());
    let plan = do_link(&opts(Command::Link, true, true), &l, false, &file_at("/out/file"), "/work");
    assert!(matches!(plan.action, Action::Adopt { .. }));
    assert!(plan.ops.is_empty());
    let plan = do_link(&opts(Command::Link, false, true), &l, false, &file_at("/pkg/file"), "/work");
    assert!(matches!(plan.action, Action::SameFile));
    assert!(plan.ops.is_empty());
    let plan = do_unlink(&opts(Command::Unlink, false, false), &l, &link_to("/pkg/file", Some("/pkg/file")));
    assert_eq!(shown(&plan.unwrap().ops), vec!["rm /out/file"]);
    let plan = do_unlink(&opts(Command::Unlink, true, false), &l, &link_to("/pkg/file", Some("/pkg/file")));
    assert!(plan.unwrap().ops.is_empty());
}

#[test]
fn the_store_follows_what_was_done() {
    let l = link("/pkg/file", "/out/file");
    let real = opts(Command::Link, false, false);
    let entry = vec![(s("/out/file"), s("/pkg/file"))];
    let none: Vec<(String, String)> = vec![];

    for (action, succeeded, recorded) in [
        (Action::KeepDirectory, false, true),
        (Action::KeepLink, false, true),
        (Action::NormalizeLink, false, true),
        (Action::CreateDirectory, true, true),
        (Action::CreateDirectory, false, false),
        (Action::CreateLink, true, true),
        (Action::CreateLink, false, false),
        (Action::Adopt { from: s("/x") }, true, true),
        (Action::Adopt { from: s("/x") }, false, false),
        (Action::SameFile, true, false),
        (Action::Conflict, true, false),
        (Action::Leave, true, false),
    ] {
        let mut store = Store::new();
        settle(&real, &l, &action, succeeded, &mut store);
        assert_eq!(store.to_pairs(), if recorded { entry.clone() } else { none.clone() }, "{:?}", action);
        let mut store = Store::new();
        settle(&opts(Command::Link, true, false), &l, &action, succeeded, &mut store);
        assert_eq!(store.to_pairs(), none);
    }
    for (action, succeeded, retired) in [
        (Action::RemoveDirectory, true, true),
        (Action::RemoveDirectory, false, false),
        (Action::RemoveLink, true, true),
        (Action::RemoveLink, false, false),
        (Action::Leave, true, false),
    ] {
        let mut store = Store::from_pairs(entry.clone());
        record(false, &l, &action, succeeded, &mut store);
        assert_eq!(store.to_pairs(), if retired { none.clone() } else { entry.clone() }, "{:?}", action);
        let mut store = Store::from_pairs(entry.clone());
        record(true, &l, &action, succeeded, &mut store);
        assert_eq!(store.to_pairs(), entry);
    }
}

#[test]
fn errors_are_tied_to_their_package() {
    let (package, error) = package_error("/pkg", PackageError::Plan(PlanError::Outside));
    assert_eq!(package, "/pkg");
    assert!(matches!(error, PackageError::Plan(PlanError::Outside)));
    assert!(uninstalls(Command::Unlink));
    assert!(!uninstalls(Command::Link));

    let mut options = opts(Command::Unlink, false, false);
    options.dotfiles = true;
    let job = prepare(&options, &s("/pkg"), Ok(s("/home/me"))).unwrap();
    assert_eq!(job.package, "/pkg");
    assert_eq!(job.target, "/home/me");
    assert!(job.map_dots);
    assert!(job.uninstall);
    match prepare(&options, &s("/pkg"), Err(s("HOME"))) {
        Err((package, PackageError::Expand { variable })) => {
            assert_eq!(package, "/pkg");
            assert_eq!(variable, "HOME");
        }
        other => panic!("unexpected {:?}", other),
    }
}

#[test]
fn entries_are_judged() {
    let package = s("/pkg");
    assert_eq!(judge_entry(&package, &file_at("/out/a")), Ok(Verdict::Live));
    assert_eq!(judge_entry(&package, &link_to("/pkg/a", Some("/pkg/a"))), Ok(Verdict::Live));
    assert_eq!(judge_entry(&package, &Probe::absent()), Ok(Verdict::Forgotten));
    assert_eq!(judge_entry(&package, &link_to("/pkg/a", None)), Ok(Verdict::Zombie));
    assert_eq!(judge_entry(&package, &link_to("/pkg/sub/a", None)), Ok(Verdict::Zombie));
    assert_eq!(judge_entry(&package, &link_to("/pkgs/a", None)), Ok(Verdict::Foreign));
    assert_eq!(judge_entry(&package, &link_to("/other/a", None)), Ok(Verdict::Foreign));
    let dest_there = Probe { link_value_exists: true, ..link_to("/pkg/a", None) };
    assert_eq!(judge_entry(&package, &dest_there), Ok(Verdict::Foreign));
    let unknown = Probe { exists: None, ..Probe::absent() };
    assert_eq!(judge_entry(&package, &unknown), Err(ZombieError::CannotCheck));
    let unread = Probe { link_value: None, ..link_to("/pkg/a", None) };
    assert_eq!(judge_entry(&package, &unread), Err(ZombieError::CannotReadLink));
}

#[test]
fn lists_are_searched() {
    let list = vec![s("/a"), s("/b")];
    assert!(contains_path(&list, &s("/b")));
    assert!(!contains_path(&list, &s("/c")));
    assert!(all_in(&vec![], &list));
    assert!(all_in(&vec![s("/b"), s("/a"), s("/b")], &list));
    assert!(!all_in(&vec![s("/a"), s("/c")], &list));
}

#[test]
fn the_sweep_looks_at_what_the_package_made_under_the_target() {
    let mut store = Store::from_pairs(vec![
        (s("/work/out/sub"), s("/pkg/sub")),
        (s("/work/out/sub/a"), s("/pkg/sub/a")),
        (s("/work/outside/b"), s("/pkg/b")),
        (s("/work/out/c"), s("/other/c")),
        (s("/work/out/d"), s("/pkg/d")),
    ]);
    let options = opts(Command::Link, false, false);
    let package = Some(s("/pkg"));
    let mut sweep = check_zombies(&package, "out", "/work", &options, &store).unwrap();
    assert!(sweep.would_remove().is_empty());

    assert_eq!(sweep.current(), Some(s("/work/out/sub")));
    assert!(sweep.step(&dir_at("/work/out/sub", &["/work/out/sub/a"]), &mut store).unwrap().is_empty());

    assert_eq!(sweep.current(), Some(s("/work/out/sub/a")));
    assert_eq!(sweep.step(&Probe { exists: None, ..Probe::absent() }, &mut store).err(), Some(ZombieError::CannotCheck));
    assert_eq!(sweep.current(), Some(s("/work/out/sub/a")));
    assert_eq!(store.len(), 5);
    let ops = sweep.step(&link_to("/pkg/sub/a", None), &mut store).unwrap();
    assert_eq!(shown(&ops), vec!["rm /work/out/sub/a"]);
    assert!(!store.contains_key(&s("/work/out/sub/a")));

    assert_eq!(sweep.current(), Some(s("/work/out/d")));
    assert!(sweep.step(&Probe::absent(), &mut store).unwrap().is_empty());
    assert!(!store.contains_key(&s("/work/out/d")));

    assert_eq!(sweep.current(), Some(s("/work/out/sub")));
    let ops = sweep.step(&dir_at("/work/out/sub", &[]), &mut store).unwrap();
    assert_eq!(shown(&ops), vec!["rmdir /work/out/sub"]);
    assert!(!store.contains_key(&s("/work/out/sub")));

    assert_eq!(sweep.current(), Some(s("/work/out")));
    assert!(sweep.step(&dir_at("/work/out", &[]), &mut store).unwrap().is_empty());
    assert_eq!(sweep.current(), None);
    assert!(sweep.step(&Probe::absent(), &mut store).unwrap().is_empty());
    assert_eq!(store.keys(), vec![s("/work/outside/b"), s("/work/out/c")]);
}

#[test]
fn a_directory_with_a_live_link_stays() {
    let package = Some(s("/pkg"));
    for dry_run in [false, true] {
        let mut store = Store::from_pairs(vec![
            (s("/out/sub"), s("/pkg/sub")),
            (s("/out/sub/gone"), s("/pkg/sub/gone")),
            (s("/out/sub/live"), s("/pkg/sub/live")),
        ]);
        let options = opts(Command::Link, dry_run, false);
        let mut sweep = check_zombies(&package, "/out", "/work", &options, &store).unwrap();
        sweep.step(&dir_at("/out/sub", &["/out/sub/gone", "/out/sub/live"]), &mut store).unwrap();
        let ops = sweep.step(&link_to("/pkg/sub/gone", None), &mut store).unwrap();
        assert_eq!(ops.len(), if dry_run { 0 } else { 1 });
        sweep.step(&link_to("/pkg/sub/live", Some("/pkg/sub/live")), &mut store).unwrap();
        assert_eq!(sweep.current(), Some(s("/out/sub")));
        let listing: &[&str] = if dry_run { &["/out/sub/gone", "/out/sub/live"] } else { &["/out/sub/live"] };
        assert!(sweep.step(&dir_at("/out/sub", listing), &mut store).unwrap().is_empty());
        assert_eq!(sweep.current(), None);
        assert!(store.contains_key(&s("/out/sub")));
        assert!(store.contains_key(&s("/out/sub/live")));
        assert_eq!(store.contains_key(&s("/out/sub/gone")), dry_run);
        assert_eq!(sweep.would_remove(), if dry_run { vec![s("/out/sub/gone")] } else { vec![] });
    }
}

#[test]
fn the_sweep_needs_package_and_working_directory() {
    let store = Store::new();
    let options = opts(Command::Link, false, false);
    assert_eq!(
        check_zombies(&Some(s("/pkg")), "/out", "work", &options, &store).err(),
        Some(ZombieError::NoAbsoluteTarget)
    );
    assert_eq!(check_zombies(&None, "/out", "/work", &options, &store).err(), Some(ZombieError::NoCanonicalPackage));
    assert_eq!(check_zombies(&None, "/out", "", &options, &store).err(), Some(ZombieError::NoAbsoluteTarget));
}

#[test]
fn a_package_is_swept_then_planned_then_linked() {
    let mut store = Store::from_pairs(vec![(s("/out/old"), s("/pkg/old"))]);
    let options = opts(Command::Link, false, false);
    let job = prepare(&options, &s("/pkg"), Ok(s("/out"))).unwrap();
    let walk = vec![found("/pkg/a"), found("/pkg/b")];
    let mut run = PackageRun::start(&options, &job, "/work", &Some(s("/pkg")), &store).unwrap();

    assert!(matches!(run.request(), Request::Look { path } if path == "/out/old"));
    run.ran(true, &mut store);
    run.walked(&walk).unwrap();
    assert!(matches!(run.request(), Request::Look { .. }));
    let ops = run.seen(&link_to("/pkg/old", None), false, &mut store).unwrap();
    assert_eq!(shown(&ops), vec!["rm /out/old"]);
    assert!(matches!(run.request(), Request::Look { path } if path == "/out"));
    assert!(run.seen(&dir_at("/out", &[]), false, &mut store).unwrap().is_empty());

    assert!(matches!(run.request(), Request::Walk { package } if package == "/pkg"));
    assert!(run.seen(&Probe::absent(), false, &mut store).unwrap().is_empty());
    assert!(matches!(run.walked(&vec![Walked::Failed]), Err(PackageError::Plan(PlanError::Unreadable))));
    assert!(matches!(run.request(), Request::Walk { .. }));
    run.walked(&walk).unwrap();

    assert!(matches!(run.request(), Request::LookAtLink { source, target } if source == "/pkg/a" && target == "/out/a"));
    run.walked(&vec![]).unwrap();
    assert!(matches!(run.request(), Request::LookAtLink { .. }));
    let ops = run.seen(&Probe::absent(), false, &mut store).unwrap();
    assert_eq!(shown(&ops), vec!["ln /pkg/a /out/a"]);
    assert!(store.to_pairs().is_empty());
    assert!(matches!(run.request(), Request::Report));
    assert!(run.seen(&Probe::absent(), false, &mut store).unwrap().is_empty());
    assert!(matches!(run.request(), Request::Report));
    run.ran(false, &mut store);
    assert!(store.to_pairs().is_empty());

    assert!(matches!(run.request(), Request::LookAtLink { target, .. } if target == "/out/b"));
    let ops = run.seen(&Probe::absent(), false, &mut store).unwrap();
    assert_eq!(shown(&ops), vec!["ln /pkg/b /out/b"]);
    run.ran(true, &mut store);
    assert_eq!(store.to_pairs(), vec![(s("/out/b"), s("/pkg/b"))]);
    assert!(matches!(run.request(), Request::Finished));
    assert!(run.seen(&Probe::absent(), false, &mut store).unwrap().is_empty());
    run.ran(true, &mut store);
    assert!(matches!(run.request(), Request::Finished));
}

#[test]
fn a_package_that_cannot_be_swept_is_not_started() {
    let store = Store::new();
    let options = opts(Command::Unlink, false, false);
    let job = prepare(&options, &s("/pkg"), Ok(s("/out"))).unwrap();
    assert!(matches!(
        PackageRun::start(&options, &job, "/work", &None, &store).err(),
        Some(PackageError::Zombies(ZombieError::NoCanonicalPackage))
    ));
    assert!(matches!(
        PackageRun::start(&options, &job, "work", &Some(s("/pkg")), &store).err(),
        Some(PackageError::Zombies(ZombieError::NoAbsoluteTarget))
    ));
    let mut run = PackageRun::start(&options, &job, "/work", &Some(s("/pkg")), &store).unwrap();
    run.walked(&vec![found("/pkg/a")]).unwrap();
    let mut store = Store::new();
    let unlisted = Probe { entries: None, ..dir_at("/out/a", &[]) };
    assert!(matches!(
        run.seen(&unlisted, false, &mut store).err(),
        Some(PackageError::Unlink(UnlinkError::UnreadableDirectory))
    ));
    assert!(matches!(run.request(), Request::LookAtLink { .. }));
}

#[test]
fn stale_entries_go_even_where_the_plan_fails() {
    let mut store = Store::from_pairs(vec![(s("/out/old"), s("/pkg/old"))]);
    let options = opts(Command::Link, false, false);
    let job = prepare(&options, &s("/pkg"), Ok(s("/out"))).unwrap();
    let mut run = PackageRun::start(&options, &job, "/work", &Some(s("/pkg")), &store).unwrap();
    let ops = run.seen(&link_to("/pkg/old", None), false, &mut store).unwrap();
    assert_eq!(shown(&ops), vec!["rm /out/old"]);
    run.seen(&dir_at("/out", &[]), false, &mut store).unwrap();
    let walk = vec![found("/pkg/a"), Walked::Found { path: s("/pkg/b"), canonical: None }];
    assert!(matches!(run.walked(&walk), Err(PackageError::Plan(PlanError::NoCanonicalPath))));
    assert!(matches!(run.request(), Request::Walk { .. }));
    assert!(store.to_pairs().is_empty());
}

#[test]
fn one_file_is_linked_and_unlinked_again() {
    let l = link("/pkg/file.txt", "/out/file.txt");
    let mut store = Store::new();
    let plan = do_link(&opts(Command::Link, false, false), &l, false, &Probe::absent(), "/work");
    assert_eq!(shown(&plan.ops), vec!["ln /pkg/file.txt /out/file.txt"]);
    settle(&opts(Command::Link, false, false), &l, &plan.action, true, &mut store);
    assert_eq!(store.to_pairs(), vec![(s("/out/file.txt"), s("/pkg/file.txt"))]);

    let there = link_to("/pkg/file.txt", Some("/pkg/file.txt"));
    let plan = do_unlink(&opts(Command::Unlink, false, false), &l, &there).unwrap();
    assert_eq!(shown(&plan.ops), vec!["rm /out/file.txt"]);
    settle(&opts(Command::Unlink, false, false), &l, &plan.action, true, &mut store);
    assert!(store.to_pairs().is_empty());
}
