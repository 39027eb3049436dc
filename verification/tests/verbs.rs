//! The pieces that the verbs are made of.

use xen::cli::{parse_alias, EnvArgs, EnvOp, HooksOp, ResonateArgs, RulesOp, SyncArgs};
use xen::hooks::{self, Hook, Phase};
use xen::key::{Key, Layer, RepoName};
use xen::pattern::fires_on;
use xen::proc::{self, Output, Reply, Spawn};
use xen::rules::{self, Rule};
use xen::store::{
    HooksConfig, PrivateConfig, RulesConfig, SharedConfig, SharedHook, SharedRepo, SharedRule,
};
use xen::textmap::TextMap;
use xen::verbs::cascade::{report, Candidate};
use xen::verbs::env::{
    env_hooks, env_rules, get_hook, get_rule, list_rules, raw_shared, EnvPlan,
};
use xen::verbs::glob::glob_match;
use xen::verbs::merged::merge;
use xen::verbs::portal::{
    check_no_overlap, derive_repo_name, normalize_rel, paths_overlap, was_fresh,
};
use xen::verbs::resonate::{self, resonate, Entry, Kind, Listing, Source};
use xen::verbs::summon::{visit, Visit};
use xen::verbs::sync::{classify_ref, sync, RefKind};
use xen::verbs::work::{Ask, Event};

fn some(s: &str) -> Option<String> {
    Some(s.to_string())
}

fn words(v: &[&str]) -> Vec<String> {
    v.iter().map(|s| s.to_string()).collect()
}

fn ran(code: Option<i32>, out: &str, err: &str) -> Reply {
    Reply::Ran(Output::new(code, out.to_string(), err.to_string()))
}

fn rule(pattern: Option<&str>, predicate: Option<&str>, message: Option<&str>) -> SharedRule {
    SharedRule {
        pattern: pattern.map(|s| s.to_string()),
        predicate: predicate.map(|s| s.to_string()),
        message: message.map(|s| s.to_string()),
    }
}

fn hook(pattern: Option<&str>, command: Option<&str>, when: Option<&str>) -> SharedHook {
    SharedHook {
        match_pattern: pattern.map(|s| s.to_string()),
        exec_command: command.map(|s| s.to_string()),
        when: when.map(|s| s.to_string()),
    }
}

// --- processes ----------------------------------------------------------------

#[test]
fn every_spawn_is_quiet() {
    let none = Vec::new();
    let quiet = ("GIT_TERMINAL_PROMPT".to_string(), "0".to_string());
    let s = proc::run("/d", words(&["git", "status"])).unwrap();
    assert_eq!(s.argv, words(&["git", "status"]));
    assert_eq!(s.env, vec![quiet.clone()]);
    assert!(s.stdin_null);
    assert!(proc::sh_env("/d", "cat", &none).stdin_null);
    assert!(proc::git("/d", &["status"], &none).stdin_null);
    let extra = vec![("A".to_string(), "1".to_string())];
    let s = proc::run_env("/d", words(&["x"]), &extra).unwrap();
    assert_eq!(s.env, vec![quiet.clone(), extra[0].clone()]);
    let s = proc::sh_env("/d", "a && b", &none);
    assert_eq!((s.dir.as_str(), s.argv), ("/d", words(&["sh", "-c", "a && b"])));
    assert_eq!(s.env, vec![quiet]);
    assert_eq!(proc::run("/d", Vec::new()).unwrap_err(), "empty argv");
    assert_eq!(proc::run_env("/d", Vec::new(), &extra).unwrap_err(), "empty argv");
}

#[test]
fn a_check_takes_success_and_names_failure() {
    let s: Spawn = proc::run("/d", words(&["git", "a\"b"])).unwrap();
    assert_eq!(proc::check_env(&s, &ran(Some(0), "out\n", "noise")), Ok("out\n".to_string()));
    assert_eq!(
        proc::check_env(&s, &ran(Some(2), "", "  bad\n")),
        Err("[\"git\", \"a\\\"b\"] failed: bad".to_string())
    );
    assert_eq!(
        proc::check_env(&s, &Reply::Lost("gone".to_string())),
        Err("spawn git in /d: gone".to_string())
    );
    assert!(!ran(None, "", "").ok());
    assert_eq!(Output::new(None, String::new(), String::new()).status, -1);
    assert_eq!(ran(Some(0), " main\n", "").answer(), some("main"));
    assert_eq!(ran(Some(1), "main", "").answer(), None);
}

// --- patterns -----------------------------------------------------------------

#[test]
fn patterns_match_as_regexes() {
    assert!(fires_on("^sync\\b", "sync main"));
    assert!(!fires_on("^sync\\b", "resync main"));
    assert!(fires_on(r"^\s*git\s+push", "  git   push origin"));
    assert!(!fires_on("(", "("));
    assert!(fires_on("", "anything"));
}

#[test]
fn globs_know_star_and_question_mark() {
    for (p, s, hit) in [
        ("", "", true),
        ("", "a", false),
        ("*", "", true),
        ("*", "feature/x", true),
        ("feature/*", "feature/x/y", true),
        ("feature/*", "feature", false),
        ("feature/?", "feature/x", true),
        ("feature/?", "feature/xy", false),
        ("?", "", false),
        ("*a*b*", "xxaxxbxx", true),
        ("*a*b*", "xxbxxaxx", false),
        ("a**b", "ab", true),
        ("[ab]", "a", false),
        ("ä?", "äö", true),
        ("*aaaaaaaaaaaaaaaaaaaaab", "aaaaaaaaaaaaaaaaaaaaaaaaaaaaaaaaaaaaaaaaaa", false),
        ("*a*a*a*a*a*a*a*a*a*a*b", "aaaaaaaaaaaaaaaaaaaaaaaaaaaaaaaaaaaaaaaaaa", false),
    ] {
        assert_eq!(glob_match(p, s), hit, "{p:?} {s:?}");
    }
}

// --- rules --------------------------------------------------------------------

#[test]
fn a_rule_is_complete_or_refused() {
    let r = Rule::from_shared("g", &rule(Some("^x"), Some("exit 1"), None)).unwrap();
    assert_eq!(r.name, "g");
    assert_eq!(r.pattern, "^x");
    assert_eq!(r.predicate, "exit 1");
    assert_eq!(r.message, "rule \"g\" denied this command");
    let r = Rule::from_shared("g", &rule(Some("^x"), Some("exit 1"), Some("m"))).unwrap();
    assert_eq!(r.message, "m");
    for raw in [rule(Some("x"), None, None), rule(None, Some("x"), None)] {
        assert_eq!(
            Rule::from_shared("g", &raw).unwrap_err(),
            "rule \"g\" is incomplete (need both `pattern` and `predicate`)"
        );
    }
    let e = Rule::from_shared("g", &rule(Some("("), Some("x"), None)).unwrap_err();
    assert!(e.starts_with("rule \"g\": invalid regex \"(\": regex parse error:"), "{e}");
    assert_eq!(
        Rule::with_verdict("g", &rule(Some("("), Some("x"), None), Err("why".to_string()))
            .unwrap_err(),
        "rule \"g\": invalid regex \"(\": why"
    );
    assert!(Rule::with_verdict("g", &rule(Some("y"), Some("x"), None), Ok(())).is_ok());
}

#[test]
fn compiling_skips_unfinished_rules_and_stops_at_the_first_bad_one() {
    let mut cfg = RulesConfig::default();
    cfg.rules.insert("a".to_string(), rule(None, None, Some("only a message")));
    cfg.rules.insert("b".to_string(), rule(Some("x"), Some("y"), None));
    let compiled = rules::compile(&cfg).unwrap();
    assert_eq!(compiled.len(), 1);
    assert_eq!(compiled[0].name, "b");
    cfg.rules.insert("c".to_string(), rule(Some("x"), None, None));
    cfg.rules.insert("d".to_string(), rule(Some("("), Some("y"), None));
    assert_eq!(
        rules::compile(&cfg).unwrap_err(),
        "rule \"c\" is incomplete (need both `pattern` and `predicate`)"
    );
}

#[test]
fn gates_run_where_the_pattern_matches() {
    let rs = vec![
        Rule::from_shared("p", &rule(Some("push"), Some("exit 1"), Some("no"))).unwrap(),
        Rule::from_shared("c", &rule(Some("commit"), Some("exit 1"), None)).unwrap(),
    ];
    assert!(rules::check(&rs, "git status", "foo", "/ws/foo").is_empty());
    let gates = rules::check(&rs, "git push", "foo", "/ws/foo");
    assert_eq!(gates.len(), 1);
    let g = &gates[0];
    assert_eq!(g.spawn.argv, words(&["sh", "-c", "exit 1"]));
    assert_eq!(g.spawn.dir, "/ws/foo");
    assert!(g.spawn.env.contains(&("XEN_REPO".to_string(), "foo".to_string())));
    assert!(g.spawn.env.contains(&("XEN_COMMAND".to_string(), "git push".to_string())));
    assert_eq!(g.pass(&ran(Some(0), "", "")), Ok(()));
    assert_eq!(
        g.pass(&ran(Some(1), "", "")),
        Err("rule \"p\" denied: no (in foo)".to_string())
    );
    assert_eq!(
        g.pass(&Reply::Lost("gone".to_string())),
        Err("spawn sh -c \"exit 1\" in /ws/foo: gone".to_string())
    );
}

#[test]
fn the_default_rules_compile() {
    let d = rules::defaults();
    assert_eq!(d.keys(), vec!["protect-main-commit", "protect-main-push"]);
    let compiled = rules::compile(&RulesConfig { rules: d }).unwrap();
    assert_eq!(rules::check(&compiled, " git  push origin", "foo", "/ws/foo").len(), 1);
    assert_eq!(rules::check(&compiled, "git commit -m x", "foo", "/ws/foo").len(), 1);
    assert!(rules::check(&compiled, "git status", "foo", "/ws/foo").is_empty());
}

// --- hooks --------------------------------------------------------------------

#[test]
fn phases_have_names() {
    assert_eq!(Phase::parse("pre"), Ok(Phase::Pre));
    assert_eq!(Phase::parse("post"), Ok(Phase::Post));
    assert_eq!(Phase::Pre.as_str(), "pre");
    assert_eq!(Phase::Post.as_str(), "post");
    assert_eq!(
        Phase::parse("Pre").unwrap_err(),
        "hook `when` must be \"pre\" or \"post\", got \"Pre\""
    );
}

#[test]
fn a_hook_is_complete_or_refused() {
    let h = Hook::from_shared("h", &hook(Some("^x"), Some("y"), None)).unwrap();
    assert_eq!((h.name.as_str(), h.pattern.as_str(), h.command.as_str()), ("h", "^x", "y"));
    assert_eq!(h.phase, Phase::Post);
    assert_eq!(
        Hook::from_shared("h", &hook(Some("x"), Some("y"), Some("pre"))).unwrap().phase,
        Phase::Pre
    );
    assert_eq!(
        Hook::from_shared("h", &hook(None, Some("y"), None)).unwrap_err(),
        "hook \"h\" is incomplete (need both `match` and `exec`)"
    );
    let e = Hook::from_shared("h", &hook(Some("["), Some("y"), Some("bad"))).unwrap_err();
    assert!(e.starts_with("hook \"h\": invalid regex \"[\": regex parse error:"), "{e}");
    assert_eq!(
        Hook::with_verdict("h", &hook(Some("["), Some("y"), None), Err("why".to_string()))
            .unwrap_err(),
        "hook \"h\": invalid regex \"[\": why"
    );
    assert!(Hook::from_shared("h", &hook(Some("x"), Some("y"), Some("bad")))
        .unwrap_err()
        .starts_with("hook \"h\": invalid `when`: hook `when` must be"));
}

#[test]
fn hooks_fire_by_phase_and_pattern() {
    let mut cfg = HooksConfig::default();
    cfg.hooks.insert("a".to_string(), hook(Some("^sync"), Some("one"), Some("pre")));
    cfg.hooks.insert("b".to_string(), hook(Some("^sync"), Some("two"), None));
    cfg.hooks.insert("c".to_string(), hook(Some("^env"), Some("three"), Some("pre")));
    cfg.hooks.insert("d".to_string(), hook(Some("("), None, None));
    let hs = hooks::compile(&cfg).unwrap();
    assert_eq!(hs.len(), 3);
    let pre = hooks::run_matching(&hs, "sync main", Phase::Pre, "/ws");
    assert_eq!(pre.len(), 1);
    assert_eq!(pre[0].spawn.argv, words(&["sh", "-c", "one"]));
    assert_eq!(pre[0].spawn.dir, "/ws");
    assert!(pre[0].spawn.env.contains(&("XEN_COMMAND".to_string(), "sync main".to_string())));
    assert_eq!(hooks::run_matching(&hs, "sync main", Phase::Post, "/ws").len(), 1);
    let f = &pre[0];
    assert_eq!(f.hear(&ran(Some(0), "", "")), Ok(()));
    assert_eq!(
        f.hear(&ran(None, "", "")),
        Err("hook \"a\" (pre) failed: exit -1".to_string())
    );
    assert_eq!(
        f.hear(&Reply::Lost("gone".to_string())),
        Err("spawn sh -c \"one\" in /ws: gone".to_string())
    );
    assert_eq!(
        f.show(&ran(Some(3), "out\n", "")),
        ("[pre a]\nout\n".to_string(), String::new())
    );
    assert_eq!(
        f.show(&ran(Some(0), "", "err\n")),
        (String::new(), "[pre a]\nerr\n".to_string())
    );
}

// --- env ----------------------------------------------------------------------

fn plan(op: EnvOp) -> Result<EnvPlan, String> {
    xen::verbs::env::env(EnvArgs { op: Some(op), shared: false, private: false })
}

#[test]
fn env_plans_before_it_reads() {
    let set = |a: &str, private| plan(EnvOp::Assign { assignment: a.to_string(), private });
    match set("foo.at=a=b", false).unwrap() {
        EnvPlan::Write { key, value, said } => {
            assert_eq!(key.dotted(), "foo.at");
            assert_eq!(key.layer(), Layer::Shared);
            assert_eq!(value, "a=b");
            assert_eq!(said, "set: foo.at (shared)\n");
        }
        other => panic!("{other:?}"),
    }
    match set("foo.at=x", true).unwrap() {
        EnvPlan::Write { key, said, .. } => {
            assert_eq!(key.layer(), Layer::Private);
            assert_eq!(said, "set: foo.at (private)\n");
        }
        other => panic!("{other:?}"),
    }
    assert_eq!(set("foo.at", false).unwrap_err(), "expected key=value, got \"foo.at\"");
    match plan(EnvOp::Unset { key: "foo.url".to_string(), private: false }).unwrap() {
        EnvPlan::Unset { key, said } => {
            assert_eq!(key.dotted(), "foo.url");
            assert_eq!(said, "unset: foo.url (shared)\n");
        }
        other => panic!("{other:?}"),
    }
    let show = |shared, private| {
        xen::verbs::env::env(EnvArgs { op: None, shared, private }).unwrap()
    };
    assert!(matches!(show(false, false), EnvPlan::Status));
    assert!(matches!(show(true, false), EnvPlan::RawShared));
    assert!(matches!(show(false, true), EnvPlan::RawPrivate));
}

#[test]
fn env_rules_takes_fields_and_bare_names() {
    let unset = |k: &str| env_rules(RulesOp::Unset { key: k.to_string() });
    assert!(matches!(unset("g.pattern").unwrap(), EnvPlan::Unset { .. }));
    assert!(matches!(unset("g").unwrap(), EnvPlan::RemoveRule { name } if name.as_str() == "g"));
    assert_eq!(unset("g.bogus").unwrap_err(), "rules: invalid key \"g.bogus\"");
    assert_eq!(
        env_rules(RulesOp::Assign { assignment: "g.bogus=x".to_string() }).unwrap_err(),
        "unknown key: \"g.bogus\""
    );
    let mut cfg = RulesConfig::default();
    assert_eq!(list_rules(&cfg), "(no rules configured)\n");
    cfg.rules.insert("g".to_string(), rule(None, Some("p"), Some("m")));
    assert_eq!(list_rules(&cfg), "g\n  pattern: (unset)\n  message: m\n");
    assert_eq!(get_rule(&cfg, "g.predicate"), Ok("p\n".to_string()));
    assert_eq!(get_rule(&cfg, "g"), Ok("predicate = p\nmessage   = m\n".to_string()));
    assert_eq!(get_rule(&cfg, "g.pattern").unwrap_err(), "rules get: no value for g.pattern");
    assert_eq!(get_rule(&cfg, "x.pattern").unwrap_err(), "rules get: no rule named x");
    assert_eq!(get_rule(&cfg, "x").unwrap_err(), "rules get: no rule named x");
    assert_eq!(get_rule(&cfg, "x.y.z").unwrap_err(), "rules: invalid key \"x.y.z\"");
}

#[test]
fn env_hooks_mirrors_env_rules() {
    let unset = |k: &str| env_hooks(HooksOp::Unset { key: k.to_string() });
    assert!(matches!(unset("h.exec").unwrap(), EnvPlan::Unset { said, .. } if said == "hooks: unset h.exec\n"));
    assert!(matches!(unset("h").unwrap(), EnvPlan::RemoveHook { name } if name.as_str() == "h"));
    assert_eq!(unset("h.bogus").unwrap_err(), "hooks: invalid key \"h.bogus\"");
    assert_eq!(
        env_hooks(HooksOp::Assign { assignment: "h".to_string() }).unwrap_err(),
        "expected key=value, got \"h\""
    );
    let mut cfg = HooksConfig::default();
    cfg.hooks.insert("h".to_string(), hook(Some("m"), None, None));
    assert_eq!(get_hook(&cfg, "h.match"), Ok("m\n".to_string()));
    assert_eq!(get_hook(&cfg, "h.exec").unwrap_err(), "hooks get: no value for h.exec");
    assert_eq!(get_hook(&cfg, "x").unwrap_err(), "hooks get: no hook named x");
    assert_eq!(get_hook(&cfg, "x.when").unwrap_err(), "hooks get: no hook named x");
    assert_eq!(get_hook(&cfg, "a.b.c").unwrap_err(), "hooks: invalid key \"a.b.c\"");
}

#[test]
fn aliases_are_trimmed() {
    assert_eq!(parse_alias(" dev = develop "), Ok(("dev".to_string(), "develop".to_string())));
    assert_eq!(parse_alias("a=b=c"), Ok(("a".to_string(), "b=c".to_string())));
    assert_eq!(parse_alias("dev").unwrap_err(), "expected key=value, got \"dev\"");
}

// --- portal -------------------------------------------------------------------

#[test]
fn names_come_from_urls() {
    let name = |url: &str| derive_repo_name(url).map(|n| n.as_str().to_string());
    assert_eq!(name("git@github.com:org/api.git"), Ok("api".to_string()));
    assert_eq!(name("https://h/o/api"), Ok("api".to_string()));
    assert_eq!(name("C:\\path\\to\\repo.git"), Ok("repo".to_string()));
    assert_eq!(name("file://C:\\path/to\\repo.git"), Ok("repo".to_string()));
    assert_eq!(name("plain"), Ok("plain".to_string()));
    assert_eq!(name("x.git.git"), Ok("x".to_string()));
    assert_eq!(
        name("https://h/o/").unwrap_err(),
        "portal: cannot derive repo name from url \"https://h/o/\""
    );
    assert_eq!(
        name(".git").unwrap_err(),
        "portal: cannot derive repo name from url \".git\""
    );
    assert_eq!(name("h/a b.git").unwrap_err(), "invalid repo name: \"a b\"");
}

#[test]
fn placements_overlap_by_segments() {
    assert!(paths_overlap("a", "a"));
    assert!(paths_overlap("a/b", "a"));
    assert!(paths_overlap("a", "a/b"));
    assert!(!paths_overlap("a", "ab"));
    assert!(!paths_overlap("a/b", "a/c"));
    // By components, whatever the text looks like.
    for p in ["a//b", "a/./b", "./a/b/", "a/x/../b", "a/b/c/.."] {
        assert!(paths_overlap(p, "a/b"), "{p}");
        assert!(paths_overlap("a/b/c", p), "{p}");
        assert!(!paths_overlap(p, "a/bc"), "{p}");
    }
    for p in [".", "", "./", "a/.."] {
        assert!(paths_overlap(p, "services"), "{p}");
        assert!(paths_overlap("services", p), "{p}");
    }
    assert!(paths_overlap("..", "a"));
    assert!(!paths_overlap("../x", "a"));
    assert!(!paths_overlap(".", "../x"));
    assert!(!paths_overlap("/a", "a"));
    assert!(paths_overlap("/a/../b", "/b/c"));
    assert_eq!(normalize_rel("././a/b//"), "a/b");
    assert_eq!(normalize_rel("a"), "a");
    let mut c = SharedConfig::default();
    c.repos.insert(
        "foo".to_string(),
        SharedRepo { at: some("./services/"), ..Default::default() },
    );
    c.repos.insert("bare".to_string(), SharedRepo::default());
    let new = RepoName::new("new").unwrap();
    assert_eq!(check_no_overlap("/ws", &c, &new, "libs"), Ok(()));
    assert_eq!(
        check_no_overlap("/ws", &c, &new, "services/x"),
        Err("portal: placement \"services/x\" overlaps with repo \"foo\" at \"services\"".to_string())
    );
    assert_eq!(
        check_no_overlap("/ws", &c, &new, "bare/x"),
        Err("portal: placement \"bare/x\" overlaps with repo \"bare\" at \"bare\"".to_string())
    );
    assert_eq!(
        check_no_overlap("/ws", &c, &new, "."),
        Err("portal: placement \".\" overlaps with repo \"bare\" at \"bare\"".to_string())
    );
    assert_eq!(
        check_no_overlap("/ws", &c, &new, "libs/../services"),
        Err(
            "portal: placement \"libs/../services\" overlaps with repo \"foo\" at \"services\""
                .to_string()
        )
    );
    // A placement may lead out of the workspace, as long as it overlaps with none.
    for outside in ["../x", "a/../../x", "/srv/x", "../wsx", "/services"] {
        assert_eq!(check_no_overlap("/ws", &c, &new, outside), Ok(()), "{outside}");
    }
    for around in ["..", "/", "/ws", "../ws/services", "/ws/services/x"] {
        let e = check_no_overlap("/ws", &c, &new, around).unwrap_err();
        assert!(e.contains(" overlaps with repo "), "{e}");
    }
    let empty = SharedConfig::default();
    for at in ["../lib", "/srv", ".", "..", "a"] {
        assert_eq!(check_no_overlap("/ws", &empty, &new, at), Ok(()));
    }
    // A repo does not overlap with itself.
    assert_eq!(check_no_overlap("/ws", &c, &RepoName::new("foo").unwrap(), "services"), Ok(()));
    assert!(!was_fresh(&c, false, false));
    assert!(was_fresh(&SharedConfig::default(), false, false));
    assert!(!was_fresh(&SharedConfig::default(), true, false));
    assert!(!was_fresh(&SharedConfig::default(), false, true));
}

// --- the search for working trees -----------------------------------------------

#[test]
fn the_search_looks_inside_plain_directories_only() {
    assert_eq!(visit("src", true, false), Visit::Descend);
    assert_eq!(visit("foo", true, true), Visit::Tree);
    assert_eq!(visit(".git", true, false), Visit::Skip);
    assert_eq!(visit(".xen", true, true), Visit::Skip);
    assert_eq!(visit("foo", false, true), Visit::Skip);
}

// --- resonate -------------------------------------------------------------------

#[test]
fn what_was_read_is_copied_before_a_broken_entry_fails_the_copy() {
    let mut c = SharedConfig::default();
    c.repos.insert("foo".to_string(), SharedRepo::default());
    let args = ResonateArgs {
        portal: "foo".to_string(),
        source: "/s".to_string(),
        at: None,
        force: false,
    };
    let mut m = resonate(args, &c, "/w").unwrap();
    m = m.feed(&resonate::Event::Source(Source::Dir));
    m = m.feed(&resonate::Event::Done(Ok(())));
    m = m.feed(&resonate::Event::Listed(Listing::Broken {
        before: vec![Entry { name: "f".to_string(), kind: Kind::File }],
        why: "io".to_string(),
    }));
    assert!(matches!(m.next(), resonate::Ask::Exists("/w/foo/f")));
    m = m.feed(&resonate::Event::Exists(false));
    assert!(matches!(m.next(), resonate::Ask::Copy("/s/f", "/w/foo/f")));
    m = m.feed(&resonate::Event::Done(Ok(())));
    match m.next() {
        resonate::Ask::End(r) => assert_eq!(r, Err("io".to_string())),
        other => panic!("{other:?}"),
    }
}

// --- the raw shared layer -------------------------------------------------------

#[test]
fn the_raw_layer_shows_what_there_is() {
    let no_rules = RulesConfig::default();
    let no_hooks = HooksConfig::default();
    let mut rules = RulesConfig::default();
    rules.rules.insert("r".to_string(), rule(some("^x").as_deref(), None, None));
    let mut hooks = HooksConfig::default();
    hooks.hooks.insert("h".to_string(), hook(some("^x").as_deref(), None, None));
    let raw = |r: &RulesConfig, h: &HooksConfig| raw_shared("A".to_string(), r, "B", h, "C");
    assert_eq!(raw(&no_rules, &no_hooks), "A");
    assert_eq!(raw(&rules, &no_hooks), "A\nB");
    assert_eq!(raw(&no_rules, &hooks), "A\nC");
    assert_eq!(raw(&rules, &hooks), "A\nB\nC");
}

// --- sync ---------------------------------------------------------------------

#[test]
fn refs_are_told_apart_by_prefix() {
    assert!(matches!(classify_ref("refs/tags/v1.2.0"), RefKind::Tag(t) if t == "v1.2.0"));
    assert!(matches!(classify_ref("refs/heads/a/b"), RefKind::ExplicitBranch(b) if b == "a/b"));
    assert!(matches!(classify_ref("main"), RefKind::Branchtype(b) if b == "main"));
    assert!(matches!(classify_ref("refs/x"), RefKind::Branchtype(b) if b == "refs/x"));
}

#[test]
fn sync_ignores_what_it_did_not_ask_for() {
    let mut c = SharedConfig::default();
    c.repos.insert("foo".to_string(), SharedRepo { at: some("foo"), ..Default::default() });
    let m = merge(&c, &PrivateConfig::default(), None);
    let args = SyncArgs { ref_name: "refs/heads/main".to_string() };
    let s = sync(&args, &m, "/ws").unwrap();
    let s = s.feed(&Event::Said).feed(&Event::Done(Ok(())));
    match s.next() {
        Ask::Run(spawn) => {
            assert_eq!(spawn.argv, words(&["git", "fetch", "origin", "main"]));
            assert_eq!(spawn.dir, "/ws/foo");
        }
        other => panic!("{other:?}"),
    }
    let s = s.feed(&Event::Ran(Reply::Lost("gone".to_string())));
    assert!(matches!(s.next(), Ask::Warn(t) if t == "  foo: spawn git in /ws/foo: gone\n"));
    let s = s.feed(&Event::Said);
    assert!(matches!(s.next(), Ask::End(Err(e)) if e == "sync: 1 repo(s) failed"));
}

// --- cascade ------------------------------------------------------------------

#[test]
fn reports_label_every_stream_that_has_content() {
    let c = Candidate { name: "foo".to_string(), dir: "/ws/foo".to_string(), auth: Vec::new() };
    let both = |r: &Reply| report(&c, "cmd", r);
    assert_eq!(
        both(&ran(Some(0), "o\n", "e\n")),
        ("=== foo (ok) ===\no\n".to_string(), "=== foo (ok) ===\ne\n".to_string())
    );
    assert_eq!(both(&ran(Some(0), "", "")), ("=== foo (ok) ===\n".to_string(), String::new()));
    assert_eq!(
        both(&ran(Some(9), "", "e\n")),
        (String::new(), "=== foo (exit 9) ===\ne\n".to_string())
    );
    assert_eq!(
        both(&Reply::Lost("gone".to_string())),
        (
            String::new(),
            "=== foo (spawn failed) ===\nspawn sh -c \"cmd\" in /ws/foo\n".to_string()
        )
    );
}

#[test]
fn keys_of_the_cli_reach_the_keyspace() {
    // `env set` goes through the repo parser only.
    let p = plan(EnvOp::Assign { assignment: "g.pattern=x".to_string(), private: false });
    assert_eq!(p.unwrap_err(), "unknown key: \"g.pattern\"");
    assert!(Key::parse_rule("g.pattern").is_ok());
    let empty: TextMap<SharedRule> = TextMap::new();
    assert!(empty.is_empty());
}
