//! The keyspace: parsing, writing back, and what each layer refuses.

use xen::key::{
    AuthField, Branchtype, HookField, HookName, Key, KeyError, Layer, PrivateKey, RepoName,
    RuleField, RuleName, SharedKey,
};

fn rt_shared(dotted: &str) {
    let k = Key::parse(dotted, Layer::Shared).expect("parse shared");
    assert_eq!(k.dotted(), dotted);
    assert_eq!(k.layer(), Layer::Shared);
}

fn rt_private(dotted: &str) {
    let k = Key::parse(dotted, Layer::Private).expect("parse private");
    assert_eq!(k.dotted(), dotted);
    assert_eq!(k.layer(), Layer::Private);
}

#[test]
fn shared_only_keys() {
    rt_shared("foo.url");
    assert!(matches!(
        Key::parse("foo.url", Layer::Private),
        Err(KeyError::WrongLayer(_, "private"))
    ));
}

#[test]
fn private_only_keys() {
    rt_private("foo.key");
    rt_private("foo.helper");
    rt_private("foo.token");
    for k in ["foo.key", "foo.helper", "foo.token"] {
        assert!(matches!(
            Key::parse(k, Layer::Shared),
            Err(KeyError::WrongLayer(_, "shared"))
        ));
    }
}

#[test]
fn overlapping_keys_can_target_either_layer() {
    rt_shared("foo.at");
    rt_private("foo.at");
    rt_shared("foo.paths");
    rt_private("foo.paths");
    rt_shared("foo.branchtypes.dev");
    rt_private("foo.branchtypes.dev");
}

#[test]
fn unknown_key_rejected() {
    assert!(Key::parse("foo.bogus", Layer::Shared).is_err());
    assert!(Key::parse("foo", Layer::Shared).is_err());
    assert!(Key::parse("", Layer::Shared).is_err());
}

#[test]
fn rule_field_keys_parse_via_parse_rule() {
    let (name, field) = Key::parse_rule("protect-main-push.pattern").unwrap();
    assert_eq!(name.as_str(), "protect-main-push");
    assert_eq!(field, RuleField::Pattern);

    for f in ["pattern", "predicate", "message"] {
        assert!(Key::parse_rule(&format!("foo.{f}")).is_ok());
    }
}

#[test]
fn parse_rule_rejects_malformed() {
    assert!(Key::parse_rule("").is_err());
    assert!(Key::parse_rule("foo").is_err()); // no field
    assert!(Key::parse_rule("foo.bogus").is_err());
    assert!(Key::parse_rule("foo.pattern.extra").is_err());
}

#[test]
fn parse_rule_name_accepts_bare_name() {
    assert_eq!(Key::parse_rule_name("foo").unwrap().as_str(), "foo");
    assert!(Key::parse_rule_name("foo.pattern").is_err());
    assert!(Key::parse_rule_name("").is_err());
}

#[test]
fn repo_and_rule_with_same_name_use_different_parsers() {
    assert!(Key::parse("foo.url", Layer::Shared).is_ok());
    assert!(Key::parse_rule("foo.pattern").is_ok());
}

#[test]
fn invalid_repo_name_rejected() {
    assert!(RepoName::new("").is_err());
    assert!(RepoName::new("a/b").is_err());
    assert!(RepoName::new("a.b").is_err());
    assert!(RepoName::new("a b").is_err());
}

#[test]
fn names_of_every_kind_follow_the_same_rule() {
    for bad in ["", "a.b", "a/b", "a\tb", "a\u{a0}b", "a\u{2003}"] {
        assert!(matches!(RepoName::new(bad), Err(KeyError::InvalidRepoName(s)) if s == bad));
        assert!(matches!(Branchtype::new(bad), Err(KeyError::InvalidBranchtype(s)) if s == bad));
        assert!(matches!(RuleName::new(bad), Err(KeyError::InvalidRuleName(s)) if s == bad));
        assert!(matches!(HookName::new(bad), Err(KeyError::InvalidHookName(s)) if s == bad));
    }
    for good in ["a", "api-2", "späti", "x_y", "🦀"] {
        assert_eq!(RepoName::new(good).unwrap().as_str(), good);
        assert_eq!(Branchtype::new(good).unwrap().as_str(), good);
        assert_eq!(RuleName::new(good).unwrap().as_str(), good);
        assert_eq!(HookName::new(good).unwrap().as_str(), good);
    }
}

#[test]
fn each_key_error_has_its_message() {
    let say = |r: Result<Key, KeyError>| r.unwrap_err().message();
    assert_eq!(say(Key::parse("a b.url", Layer::Shared)), "invalid repo name: \"a b\"");
    assert_eq!(
        say(Key::parse("foo.branchtypes.", Layer::Shared)),
        "invalid branchtype: \"\""
    );
    assert_eq!(say(Key::parse("foo.bogus", Layer::Shared)), "unknown key: \"foo.bogus\"");
    assert_eq!(
        say(Key::parse("foo.key", Layer::Shared)),
        "key \"foo.key\" cannot be written to the shared layer"
    );
    assert_eq!(
        say(Key::parse("foo.url", Layer::Private)),
        "key \"foo.url\" cannot be written to the private layer"
    );
    assert_eq!(
        Key::parse_rule("a b.pattern").unwrap_err().message(),
        "invalid rule name: \"a b\""
    );
    assert_eq!(
        Key::parse_hook("a b.match").unwrap_err().message(),
        "invalid hook name: \"a b\""
    );
    // Quoting escapes what needs it.
    assert_eq!(
        say(Key::parse("a\"\n.url", Layer::Shared)),
        "invalid repo name: \"a\\\"\\n\""
    );
}

#[test]
fn hook_keys_parse_via_parse_hook() {
    let (name, field) = Key::parse_hook("pull.exec").unwrap();
    assert_eq!(name.as_str(), "pull");
    assert_eq!(field, HookField::Exec);
    assert!(matches!(Key::parse_hook("pull.when"), Ok((_, HookField::When))));
    assert!(matches!(Key::parse_hook("pull.match"), Ok((_, HookField::Match))));
    assert!(matches!(Key::parse_hook("pull.bogus"), Err(KeyError::Unknown(_))));
    assert_eq!(Key::parse_hook_name("pull").unwrap().as_str(), "pull");
    assert!(Key::parse_hook_name("pull.exec").is_err());
}

#[test]
fn every_key_writes_back_as_it_was_read() {
    let repo = || RepoName::new("foo").unwrap();
    let bt = || Branchtype::new("dev").unwrap();
    assert_eq!(Key::Shared(SharedKey::Url(repo())).dotted(), "foo.url");
    assert_eq!(
        Key::Private(PrivateKey::BranchtypeOverride(repo(), bt())).dotted(),
        "foo.branchtypes.dev"
    );
    assert_eq!(
        Key::Private(PrivateKey::Auth(repo(), AuthField::CredentialHelper)).dotted(),
        "foo.helper"
    );
    assert_eq!(
        Key::Shared(SharedKey::Rule(RuleName::new("r").unwrap(), RuleField::Message)).dotted(),
        "r.message"
    );
    assert_eq!(
        Key::Shared(SharedKey::Hook(HookName::new("h").unwrap(), HookField::Match)).dotted(),
        "h.match"
    );
    // A rule key is no repo key, and a hook key is neither.
    for dotted in ["r.pattern", "h.exec", "r", ""] {
        assert!(Key::parse(dotted, Layer::Shared).is_err());
        assert!(Key::parse(dotted, Layer::Private).is_err());
    }
}

#[test]
fn fields_and_layers_have_names() {
    assert_eq!(RuleField::Predicate.as_str(), "predicate");
    assert_eq!(HookField::When.as_str(), "when");
    assert_eq!(AuthField::SshKeyPath.as_str(), "key");
    assert_eq!(AuthField::TokenRef.as_str(), "token");
    assert_eq!(Layer::Shared.name(), "shared");
    assert_eq!(Layer::Private.name(), "private");
}
