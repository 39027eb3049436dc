//! Env storage: locations, keys that change a config, and the merged view.

use xen::key::{
    AuthField, Branchtype, HookField, HookName, Key, Layer, PrivateKey, RepoName, RuleField,
    RuleName, SharedKey,
};
use xen::store::{
    apply_hook, apply_private, apply_rule, apply_shared, home, join_path, load_hooks,
    load_private, load_rules, load_shared, parse_paths_value, save_shared, shared_file,
    unset_hook_by_name, unset_private, unset_rule_by_name, unset_shared, write_private,
    write_shared, EnvPaths, HooksConfig, PrivateConfig, PrivateRepo, RulesConfig, SharedConfig,
    SharedDoc, SharedFile, SharedHook, SharedRepo, SharedRule,
};
use xen::textmap::TextMap;
use xen::verbs::lookup::lookup;
use xen::verbs::merged::{expand_home, merge, shell_single_quote};
use xen::verbs::status::{print_status, repos_missing};

fn some(s: &str) -> Option<String> {
    Some(s.to_string())
}

fn shared_key(dotted: &str) -> SharedKey {
    match Key::parse(dotted, Layer::Shared).unwrap() {
        Key::Shared(k) => k,
        Key::Private(_) => unreachable!(),
    }
}

fn private_key(dotted: &str) -> PrivateKey {
    match Key::parse(dotted, Layer::Private).unwrap() {
        Key::Private(k) => k,
        Key::Shared(_) => unreachable!(),
    }
}

fn put(cfg: &mut SharedConfig, dotted: &str, v: Option<&str>) {
    apply_shared(cfg, shared_key(dotted), v.map(|s| s.to_string()));
}

fn put_private(cfg: &mut PrivateConfig, dotted: &str, v: Option<&str>) {
    apply_private(cfg, private_key(dotted), v.map(|s| s.to_string()));
}

#[test]
fn a_text_map_is_sorted_by_key() {
    let mut m: TextMap<u64> = TextMap::new();
    assert!(m.is_empty());
    for (i, k) in ["web", "api", "zeta", "api", "b"].iter().enumerate() {
        m.insert(k.to_string(), i as u64);
    }
    assert_eq!(m.keys(), vec!["api", "b", "web", "zeta"]);
    assert_eq!(m.len(), 4);
    assert_eq!(m.get("api"), Some(&3));
    assert_eq!((m.key_at(2), *m.value_at(2)), ("web", 0));
    assert_eq!(m.remove("web"), Some(0));
    assert_eq!(m.remove("web"), None);
    assert!(!m.contains_key("web"));
    assert_eq!(m.keys(), vec!["api", "b", "zeta"]);
}

#[test]
fn locations_follow_the_overrides() {
    let p = EnvPaths::discover(some("/ws"), some("/cwd"), some("/priv"), some("/home")).unwrap();
    assert_eq!(p.repos_file(), "/ws/.xen/repos.toml");
    assert_eq!(p.rules_file(), "/ws/.xen/rules.toml");
    assert_eq!(p.hooks_file(), "/ws/.xen/hooks.toml");
    assert_eq!(p.legacy_shared_file(), "/ws/.xen/config.toml");
    assert_eq!(p.private_file(), "/priv/config.toml");
    let p = EnvPaths::discover(None, some("/cwd"), None, some("/home/me")).unwrap();
    assert_eq!(p.shared_root, "/cwd");
    assert_eq!(p.private_file(), "/home/me/.xen/config.toml");
    assert_eq!(EnvPaths::discover(None, None, None, None).unwrap_err(), "cwd");
    assert_eq!(
        EnvPaths::discover(some("/ws"), None, None, None).unwrap_err(),
        "HOME not set"
    );
    assert_eq!(home(some("/a"), some("/b")), some("/a"));
    assert_eq!(home(None, some("/b")), some("/b"));
    assert_eq!(home(None, None), None);
}

#[test]
fn paths_join_as_on_posix() {
    assert_eq!(join_path("/ws", "a/b"), "/ws/a/b");
    assert_eq!(join_path("/ws/", "a"), "/ws/a");
    assert_eq!(join_path("/ws", "/abs"), "/abs");
    assert_eq!(join_path("", "a"), "a");
    assert_eq!(join_path("/ws", ""), "/ws/");
}

#[test]
fn path_lists_are_trimmed_and_dense() {
    let parse = |s: &str| parse_paths_value(s.to_string());
    assert_eq!(parse("src/,tests/"), vec!["src/", "tests/"]);
    assert_eq!(parse(" a , ,b,,"), vec!["a", "b"]);
    assert_eq!(parse(""), Vec::<String>::new());
    assert_eq!(parse(&parse(" x,y ").join(",")), vec!["x", "y"]);
}

#[test]
fn setting_unsetting_and_dropping_repos() {
    let mut c = SharedConfig::default();
    put(&mut c, "foo.url", Some("u"));
    put(&mut c, "foo.at", Some("services/foo"));
    put(&mut c, "foo.branchtypes.dev", Some("develop"));
    put(&mut c, "foo.paths", Some("src/,docs/"));
    put(&mut c, "bar.url", Some("v"));
    let foo = c.repos.get("foo").unwrap();
    assert_eq!(foo.url.as_deref(), Some("u"));
    assert_eq!(foo.at.as_deref(), Some("services/foo"));
    assert_eq!(foo.paths, vec!["src/", "docs/"]);
    assert_eq!(foo.branchtypes.get("dev").unwrap(), "develop");
    put(&mut c, "foo.url", Some("u2"));
    assert_eq!(c.repos.get("foo").unwrap().url.as_deref(), Some("u2"));
    for k in ["foo.url", "foo.at", "foo.paths"] {
        put(&mut c, k, None);
    }
    assert!(c.repos.contains_key("foo"));
    put(&mut c, "foo.branchtypes.dev", None);
    assert!(!c.repos.contains_key("foo"));
    assert!(c.repos.contains_key("bar"));
    // Unsetting what is not there leaves nothing behind.
    put(&mut c, "ghost.url", None);
    assert_eq!(c.repos.keys(), vec!["bar"]);
    // A blank path list is no path list.
    put(&mut c, "ghost.paths", Some(" , "));
    assert!(!c.repos.contains_key("ghost"));
}

#[test]
fn setting_unsetting_and_dropping_private_repos() {
    let mut c = PrivateConfig::default();
    put_private(&mut c, "foo.key", Some("k"));
    put_private(&mut c, "foo.helper", Some("h"));
    put_private(&mut c, "foo.token", Some("t"));
    put_private(&mut c, "foo.at", Some("mine"));
    put_private(&mut c, "foo.paths", Some("p"));
    put_private(&mut c, "foo.branchtypes.dev", Some("d"));
    let foo = c.repos.get("foo").unwrap();
    assert_eq!(
        (foo.key.as_deref(), foo.helper.as_deref(), foo.token.as_deref()),
        (Some("k"), Some("h"), Some("t"))
    );
    for k in [
        "foo.key",
        "foo.helper",
        "foo.token",
        "foo.at",
        "foo.paths",
        "foo.branchtypes.dev",
    ] {
        assert!(c.repos.contains_key("foo"));
        put_private(&mut c, k, None);
    }
    assert!(c.repos.is_empty());
    assert!(PrivateRepo::default().is_empty());
}

#[test]
fn setting_unsetting_and_dropping_rules_and_hooks() {
    let mut r = RulesConfig::default();
    apply_rule(&mut r, "guard", RuleField::Pattern, some("p"));
    apply_rule(&mut r, "guard", RuleField::Message, some("m"));
    assert!(!r.rules.get("guard").unwrap().is_complete());
    apply_rule(&mut r, "guard", RuleField::Predicate, some("exit 0"));
    assert!(r.rules.get("guard").unwrap().is_complete());
    apply_rule(&mut r, "guard", RuleField::Pattern, None);
    apply_rule(&mut r, "guard", RuleField::Message, None);
    apply_rule(&mut r, "guard", RuleField::Predicate, None);
    assert!(!r.rules.contains_key("guard"));
    apply_rule(&mut r, "g2", RuleField::Message, some("m"));
    assert!(unset_rule_by_name(&mut r, "g2"));
    assert!(!unset_rule_by_name(&mut r, "g2"));

    let mut h = HooksConfig::default();
    apply_hook(&mut h, "pull", HookField::Match, some("^sync"));
    assert!(!h.hooks.get("pull").unwrap().is_complete());
    apply_hook(&mut h, "pull", HookField::Exec, some("git pull"));
    assert!(h.hooks.get("pull").unwrap().is_complete());
    apply_hook(&mut h, "pull", HookField::When, some("pre"));
    assert_eq!(h.hooks.get("pull").unwrap().when.as_deref(), Some("pre"));
    assert!(unset_hook_by_name(&mut h, "pull"));
    assert!(!unset_hook_by_name(&mut h, "pull"));
    assert!(SharedHook::default().is_empty());
    assert!(SharedRule::default().is_empty());
    assert!(SharedRepo::default().is_empty());
}

#[test]
fn a_key_reaches_the_file_that_holds_it() {
    let rule = || SharedKey::Rule(RuleName::new("r").unwrap(), RuleField::Pattern);
    let hook = || SharedKey::Hook(HookName::new("h").unwrap(), HookField::Exec);
    let repo = || SharedKey::Branchtype(
        RepoName::new("foo").unwrap(),
        Branchtype::new("dev").unwrap(),
    );
    assert_eq!(shared_file(&rule()), SharedFile::Rules);
    assert_eq!(shared_file(&hook()), SharedFile::Hooks);
    assert_eq!(shared_file(&repo()), SharedFile::Repos);

    let mut doc = SharedDoc::Rules(RulesConfig::default());
    write_shared(&mut doc, rule(), "x".to_string());
    assert!(matches!(&doc, SharedDoc::Rules(c) if c.rules.get("r").unwrap().pattern == some("x")));
    unset_shared(&mut doc, rule());
    assert!(matches!(&doc, SharedDoc::Rules(c) if c.rules.is_empty()));
    let mut doc = SharedDoc::Hooks(HooksConfig::default());
    write_shared(&mut doc, hook(), "x".to_string());
    assert!(matches!(&doc, SharedDoc::Hooks(c) if c.hooks.contains_key("h")));
    let mut doc = SharedDoc::Repos(SharedConfig::default());
    write_shared(&mut doc, repo(), "develop".to_string());
    assert!(matches!(&doc, SharedDoc::Repos(c) if c.repos.contains_key("foo")));

    let auth = || PrivateKey::Auth(RepoName::new("foo").unwrap(), AuthField::TokenRef);
    let mut p = PrivateConfig::default();
    write_private(&mut p, auth(), "t".to_string());
    assert_eq!(p.repos.get("foo").unwrap().token, some("t"));
    unset_private(&mut p, auth());
    assert!(p.repos.is_empty());
}

#[test]
fn the_manifest_moves_out_of_the_legacy_file() {
    let with = |name: &str| {
        let mut c = SharedConfig::default();
        put(&mut c, &format!("{name}.url"), Some("u"));
        c
    };
    assert_eq!(load_shared(Some(with("new")), Some(with("old"))).repos.keys(), vec!["new"]);
    assert_eq!(load_shared(None, Some(with("old"))).repos.keys(), vec!["old"]);
    assert!(load_shared(None, None).repos.is_empty());
    assert!(load_rules(None).rules.is_empty());
    assert!(load_hooks(None).hooks.is_empty());
    assert!(load_private(None).repos.is_empty());
    let paths = EnvPaths::discover(some("/ws"), None, some("/p"), None).unwrap();
    let plan = save_shared(&paths, true);
    assert_eq!(plan.write, "/ws/.xen/repos.toml");
    assert_eq!(plan.remove.as_deref(), Some("/ws/.xen/config.toml"));
    assert_eq!(save_shared(&paths, false).remove, None);
}

#[test]
fn private_overrides_shared() {
    let mut s = SharedConfig::default();
    let mut p = PrivateConfig::default();
    put(&mut s, "foo.url", Some("git@h:o/foo.git"));
    put(&mut s, "foo.at", Some("shared"));
    put(&mut s, "foo.paths", Some("a,b"));
    put(&mut s, "foo.branchtypes.dev", Some("develop"));
    put(&mut s, "foo.branchtypes.main", Some("master"));
    let m = merge(&s, &p, None);
    assert_eq!(lookup(&m, "foo.at"), some("shared"));
    assert_eq!(lookup(&m, "foo.paths"), some("a,b"));
    assert_eq!(lookup(&m, "foo.branchtypes"), some("dev=develop\nmain=master"));
    put_private(&mut p, "foo.at", Some("mine"));
    put_private(&mut p, "foo.paths", Some("c"));
    put_private(&mut p, "foo.branchtypes.dev", Some("local"));
    put_private(&mut p, "foo.key", Some("~/k"));
    let m = merge(&s, &p, Some("/home/me"));
    assert_eq!(lookup(&m, "foo.url"), some("git@h:o/foo.git"));
    assert_eq!(lookup(&m, "foo.at"), some("mine"));
    assert_eq!(lookup(&m, "foo.paths"), some("c"));
    assert_eq!(lookup(&m, "foo.branchtypes.dev"), some("local"));
    assert_eq!(lookup(&m, "foo.branchtypes.main"), some("master"));
    assert_eq!(lookup(&m, "foo.key"), None);
    assert_eq!(lookup(&m, "bar.url"), None);
    assert_eq!(lookup(&m, "foo"), None);
    let foo = m.repos.get("foo").unwrap();
    assert_eq!(foo.auth_count, 1);
    assert_eq!(
        foo.auth_refs(),
        vec![(
            "GIT_SSH_COMMAND".to_string(),
            "ssh -i '/home/me/k' -o IdentitiesOnly=yes".to_string()
        )]
    );
}

#[test]
fn a_blank_private_path_list_falls_back_to_the_shared_one() {
    let mut s = SharedConfig::default();
    let mut p = PrivateConfig::default();
    put(&mut s, "foo.paths", Some("a"));
    put_private(&mut p, "foo.at", Some("x"));
    put_private(&mut p, "foo.paths", Some(""));
    assert_eq!(lookup(&merge(&s, &p, None), "foo.paths"), some("a"));
}

#[test]
fn placement_falls_back_to_the_url_then_the_name() {
    let mut s = SharedConfig::default();
    put(&mut s, "a.url", Some("https://h/o/basename.git"));
    put(&mut s, "b.branchtypes.dev", Some("d"));
    let m = merge(&s, &PrivateConfig::default(), None);
    assert_eq!(m.repos.get("a").unwrap().placement("a"), "basename");
    assert_eq!(m.repos.get("b").unwrap().placement("b"), "b");
    assert_eq!(lookup(&m, "a.at"), some("basename"));
    assert_eq!(lookup(&m, "b.at"), some("b"));
    assert_eq!(lookup(&m, "b.url"), None);
    assert_eq!(lookup(&m, "b.paths"), None);
}

#[test]
fn home_is_expanded_only_in_front() {
    assert_eq!(expand_home("~/k", Some("/home/me")), "/home/me/k");
    assert_eq!(expand_home("~/k", None), "~/k");
    assert_eq!(expand_home("~x/k", Some("/home/me")), "~x/k");
    assert_eq!(expand_home("/a/~/k", Some("/home/me")), "/a/~/k");
}

#[test]
fn quoted_text_is_one_shell_word() {
    assert_eq!(shell_single_quote(""), "''");
    assert_eq!(shell_single_quote("a b$`\\*"), "'a b$`\\*'");
    assert_eq!(shell_single_quote("it's"), "'it'\\''s'");
}

#[test]
fn the_status_report_reads_like_the_manual() {
    let mut s = SharedConfig::default();
    let mut p = PrivateConfig::default();
    let names = ["bar", "baz", "foo", "frontend", "quux", "qux", "zeta"];
    for n in names {
        put(&mut s, &format!("{n}.branchtypes.main"), Some("main"));
        put_private(&mut p, &format!("{n}.key"), Some("k"));
        if n != "bar" {
            put(&mut s, &format!("{n}.branchtypes.dev"), Some("develop"));
        }
        if ["foo", "frontend", "zeta"].contains(&n) {
            put(&mut s, &format!("{n}.branchtypes.trunk"), Some("trunk"));
        }
    }
    put(&mut s, "foo.paths", Some("src/"));
    put(&mut s, "frontend.paths", Some("src/"));
    let rules = RulesConfig { rules: xen::rules::defaults() };
    let m = merge(&s, &p, None);
    assert_eq!(
        print_status(&m, &rules),
        "7 repos registered\n\
         branchtype coverage:\n  \
         dev    6/7   missing: bar\n  \
         main   7/7\n  \
         trunk  3/7   missing: bar, baz, quux, qux\n\
         sparse specs: 2 repos (foo, frontend)\n\
         auth: 7/7 configured (private)\n\
         rules: 2 active (protect-main-commit, protect-main-push)\n"
    );
    assert_eq!(repos_missing(&m, "trunk"), vec!["bar", "baz", "quux", "qux"]);
    assert_eq!(repos_missing(&m, "main"), Vec::<String>::new());
}

#[test]
fn a_small_status_report_says_little() {
    let mut s = SharedConfig::default();
    let none = RulesConfig::default();
    put(&mut s, "foo.paths", Some("src/"));
    let m = merge(&s, &PrivateConfig::default(), None);
    assert_eq!(
        print_status(&m, &none),
        "1 repo registered\nsparse specs: 1 repo (foo)\nauth: 0/1 configured (private)\n"
    );
    let m = merge(&SharedConfig::default(), &PrivateConfig::default(), None);
    assert_eq!(print_status(&m, &RulesConfig { rules: xen::rules::defaults() }), "0 repos registered\n");
}
