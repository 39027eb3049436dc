//! What keys are for.

use crate::key::{
    checked_name, parsed_bare_name, parsed_hook, parsed_key, parsed_rule, valid_name, AuthField,
    HookField, KeyErrorModel, KeyModel, Layer, PrivateKeyModel, RuleField, SharedKeyModel,
};
use crate::laws::text::law_split;
use crate::text::{debug_text, split_on, white_space, Text};
use vstd::prelude::*;

verus! {

/// **What a name may hold**: it is not empty, and no character of it is a dot, a
/// slash or white space.
pub proof fn law_names(s: Text)
    ensures
        valid_name(s) <==> s.len() > 0 && !s.contains('.') && !s.contains('/') && forall|i: int|
            0 <= i < s.len() ==> !white_space(#[trigger] s[i]),
{
    if valid_name(s) {
        assert forall|i: int| 0 <= i < s.len() implies s[i] != '.' && s[i] != '/' && !white_space(
            #[trigger] s[i],
        ) by {}
    }
    if s.len() > 0 && !s.contains('.') && !s.contains('/') && (forall|i: int|
        0 <= i < s.len() ==> !white_space(#[trigger] s[i])) {
        assert forall|i: int| 0 <= i < s.len() implies crate::key::name_char(#[trigger] s[i]) by {
            assert(s.contains(s[i]));
        }
    }
}

/// The error of a name that is not valid, or what comes of one that is.
pub open spec fn if_named<T>(name: Text, e: KeyErrorModel, k: T) -> Result<T, KeyErrorModel> {
    if valid_name(name) {
        Ok(k)
    } else {
        Err(e)
    }
}

proof fn lemma_two(a: Text, f: Text)
    requires
        !a.contains('.'),
        !f.contains('.'),
    ensures
        split_on(a + seq!['.'] + f, '.') == seq![a, f],
{
    law_split(a, a, f, '.');
    law_split(f, a, f, '.');
    assert(seq![a] + seq![f] =~= seq![a, f]);
}

proof fn lemma_three(a: Text, f: Text, b: Text)
    requires
        !a.contains('.'),
        !f.contains('.'),
        !b.contains('.'),
    ensures
        split_on(a + seq!['.'] + f + seq!['.'] + b, '.') == seq![a, f, b],
{
    lemma_two(a, f);
    law_split(b, a + seq!['.'] + f, b, '.');
    assert(seq![a, f] + seq![b] =~= seq![a, f, b]);
}

proof fn lemma_fields()
    ensures
        ".url"@ == seq!['.'] + "url"@ && !"url"@.contains('.'),
        ".at"@ == seq!['.'] + "at"@ && !"at"@.contains('.'),
        ".paths"@ == seq!['.'] + "paths"@ && !"paths"@.contains('.'),
        ".branchtypes."@ == seq!['.'] + "branchtypes"@ + seq!['.'] && !"branchtypes"@.contains(
            '.',
        ),
        ".key"@ == seq!['.'] + "key"@ && !"key"@.contains('.'),
        ".helper"@ == seq!['.'] + "helper"@ && !"helper"@.contains('.'),
        ".token"@ == seq!['.'] + "token"@ && !"token"@.contains('.'),
        ".pattern"@ == seq!['.'] + "pattern"@ && !"pattern"@.contains('.'),
        ".predicate"@ == seq!['.'] + "predicate"@ && !"predicate"@.contains('.'),
        ".message"@ == seq!['.'] + "message"@ && !"message"@.contains('.'),
        ".match"@ == seq!['.'] + "match"@ && !"match"@.contains('.'),
        ".exec"@ == seq!['.'] + "exec"@ && !"exec"@.contains('.'),
        ".when"@ == seq!['.'] + "when"@ && !"when"@.contains('.'),
        "url"@[0] == 'u' && "at"@[0] == 'a' && "paths"@[0] == 'p' && "key"@[0] == 'k',
        "helper"@[0] == 'h' && "token"@[0] == 't',
        "pattern"@[1] == 'a' && "predicate"@[1] == 'r' && "message"@[1] == 'e',
        "match"@[0] == 'm' && "exec"@[0] == 'e' && "when"@[0] == 'w',
{
    reveal_strlit(".url");
    reveal_strlit("url");
    reveal_strlit(".at");
    reveal_strlit("at");
    reveal_strlit(".paths");
    reveal_strlit("paths");
    reveal_strlit(".branchtypes.");
    reveal_strlit("branchtypes");
    reveal_strlit(".key");
    reveal_strlit("key");
    reveal_strlit(".helper");
    reveal_strlit("helper");
    reveal_strlit(".token");
    reveal_strlit("token");
    reveal_strlit(".pattern");
    reveal_strlit("pattern");
    reveal_strlit(".predicate");
    reveal_strlit("predicate");
    reveal_strlit(".message");
    reveal_strlit("message");
    reveal_strlit(".match");
    reveal_strlit("match");
    reveal_strlit(".exec");
    reveal_strlit("exec");
    reveal_strlit(".when");
    reveal_strlit("when");
}

/// **The keys of a repo**: its URL lives in the shared layer and its auth in the
/// private one; its placement, its sparse paths and its branchtypes live in
/// both. A name that is not valid is named in the error.
pub proof fn law_repo_keys(r: Text, b: Text, shared: Layer, private: Layer)
    requires
        !r.contains('.'),
        !b.contains('.'),
        shared is Shared,
        private is Private,
    ensures
        parsed_key(r + ".url"@, shared) == if_named(
            r,
            KeyErrorModel::InvalidRepoName(r),
            KeyModel::Shared(SharedKeyModel::Url(r)),
        ),
        parsed_key(r + ".at"@, shared) == if_named(
            r,
            KeyErrorModel::InvalidRepoName(r),
            KeyModel::Shared(SharedKeyModel::At(r)),
        ),
        parsed_key(r + ".paths"@, shared) == if_named(
            r,
            KeyErrorModel::InvalidRepoName(r),
            KeyModel::Shared(SharedKeyModel::Paths(r)),
        ),
        parsed_key(r + ".at"@, private) == if_named(
            r,
            KeyErrorModel::InvalidRepoName(r),
            KeyModel::Private(PrivateKeyModel::AtOverride(r)),
        ),
        parsed_key(r + ".paths"@, private) == if_named(
            r,
            KeyErrorModel::InvalidRepoName(r),
            KeyModel::Private(PrivateKeyModel::PathsOverride(r)),
        ),
        parsed_key(r + ".key"@, private) == if_named(
            r,
            KeyErrorModel::InvalidRepoName(r),
            KeyModel::Private(PrivateKeyModel::Auth(r, AuthField::SshKeyPath)),
        ),
        parsed_key(r + ".helper"@, private) == if_named(
            r,
            KeyErrorModel::InvalidRepoName(r),
            KeyModel::Private(PrivateKeyModel::Auth(r, AuthField::CredentialHelper)),
        ),
        parsed_key(r + ".token"@, private) == if_named(
            r,
            KeyErrorModel::InvalidRepoName(r),
            KeyModel::Private(PrivateKeyModel::Auth(r, AuthField::TokenRef)),
        ),
        valid_name(r) ==> parsed_key(r + ".branchtypes."@ + b, shared) == if_named(
            b,
            KeyErrorModel::InvalidBranchtype(b),
            KeyModel::Shared(SharedKeyModel::Branchtype(r, b)),
        ),
        valid_name(r) ==> parsed_key(r + ".branchtypes."@ + b, private) == if_named(
            b,
            KeyErrorModel::InvalidBranchtype(b),
            KeyModel::Private(PrivateKeyModel::BranchtypeOverride(r, b)),
        ),
        !valid_name(r) ==> parsed_key(r + ".branchtypes."@ + b, shared) == Err::<
            KeyModel,
            KeyErrorModel,
        >(KeyErrorModel::InvalidRepoName(r)),
        !valid_name(r) ==> parsed_key(r + ".branchtypes."@ + b, private) == Err::<
            KeyModel,
            KeyErrorModel,
        >(KeyErrorModel::InvalidRepoName(r)),
        parsed_key(r + ".url"@, private) == Err::<KeyModel, KeyErrorModel>(
            KeyErrorModel::WrongLayer(r + ".url"@, "private"@),
        ),
        parsed_key(r + ".key"@, shared) == Err::<KeyModel, KeyErrorModel>(
            KeyErrorModel::WrongLayer(r + ".key"@, "shared"@),
        ),
        parsed_key(r + ".helper"@, shared) == Err::<KeyModel, KeyErrorModel>(
            KeyErrorModel::WrongLayer(r + ".helper"@, "shared"@),
        ),
        parsed_key(r + ".token"@, shared) == Err::<KeyModel, KeyErrorModel>(
            KeyErrorModel::WrongLayer(r + ".token"@, "shared"@),
        ),
{
    lemma_fields();
    lemma_two(r, "url"@);
    lemma_two(r, "at"@);
    lemma_two(r, "paths"@);
    lemma_two(r, "key"@);
    lemma_two(r, "helper"@);
    lemma_two(r, "token"@);
    lemma_three(r, "branchtypes"@, b);
    assert(r + ".url"@ =~= r + seq!['.'] + "url"@);
    assert(r + ".at"@ =~= r + seq!['.'] + "at"@);
    assert(r + ".paths"@ =~= r + seq!['.'] + "paths"@);
    assert(r + ".key"@ =~= r + seq!['.'] + "key"@);
    assert(r + ".helper"@ =~= r + seq!['.'] + "helper"@);
    assert(r + ".token"@ =~= r + seq!['.'] + "token"@);
    assert(r + ".branchtypes."@ + b =~= r + seq!['.'] + "branchtypes"@ + seq!['.'] + b);
}

/// **Any other key is unknown**: one that has neither a known field behind one
/// dot, nor `branchtypes` between two.
pub proof fn law_unknown_key(dotted: Text, layer: Layer)
    ensures
        ({
            let p = split_on(dotted, '.');
            let known = {
                ||| p.len() == 2 && (p[1] == "url"@ || p[1] == "at"@ || p[1] == "paths"@ || p[1]
                    == "key"@ || p[1] == "helper"@ || p[1] == "token"@)
                ||| p.len() == 3 && p[1] == "branchtypes"@
            };
            !known ==> parsed_key(dotted, layer) == Err::<KeyModel, KeyErrorModel>(
                KeyErrorModel::Unknown(dotted),
            )
        }),
{
}

/// **The keys of a rule**: a name, a dot, and `pattern`, `predicate` or
/// `message`; anything else is unknown.
pub proof fn law_rule_keys(n: Text, dotted: Text)
    requires
        !n.contains('.'),
    ensures
        parsed_rule(n + ".pattern"@) == if_named(
            n,
            KeyErrorModel::InvalidRuleName(n),
            (n, RuleField::Pattern),
        ),
        parsed_rule(n + ".predicate"@) == if_named(
            n,
            KeyErrorModel::InvalidRuleName(n),
            (n, RuleField::Predicate),
        ),
        parsed_rule(n + ".message"@) == if_named(
            n,
            KeyErrorModel::InvalidRuleName(n),
            (n, RuleField::Message),
        ),
        ({
            let p = split_on(dotted, '.');
            !(p.len() == 2 && (p[1] == "pattern"@ || p[1] == "predicate"@ || p[1] == "message"@))
                ==> parsed_rule(dotted) == Err::<(Text, RuleField), KeyErrorModel>(
                KeyErrorModel::Unknown(dotted),
            )
        }),
{
    lemma_fields();
    lemma_two(n, "pattern"@);
    lemma_two(n, "predicate"@);
    lemma_two(n, "message"@);
    assert(n + ".pattern"@ =~= n + seq!['.'] + "pattern"@);
    assert(n + ".predicate"@ =~= n + seq!['.'] + "predicate"@);
    assert(n + ".message"@ =~= n + seq!['.'] + "message"@);
}

/// **The keys of a hook**: a name, a dot, and `match`, `exec` or `when`;
/// anything else is unknown.
pub proof fn law_hook_keys(n: Text, dotted: Text)
    requires
        !n.contains('.'),
    ensures
        parsed_hook(n + ".match"@) == if_named(
            n,
            KeyErrorModel::InvalidHookName(n),
            (n, HookField::Match),
        ),
        parsed_hook(n + ".exec"@) == if_named(
            n,
            KeyErrorModel::InvalidHookName(n),
            (n, HookField::Exec),
        ),
        parsed_hook(n + ".when"@) == if_named(
            n,
            KeyErrorModel::InvalidHookName(n),
            (n, HookField::When),
        ),
        ({
            let p = split_on(dotted, '.');
            !(p.len() == 2 && (p[1] == "match"@ || p[1] == "exec"@ || p[1] == "when"@))
                ==> parsed_hook(dotted) == Err::<(Text, HookField), KeyErrorModel>(
                KeyErrorModel::Unknown(dotted),
            )
        }),
{
    lemma_fields();
    lemma_two(n, "match"@);
    lemma_two(n, "exec"@);
    lemma_two(n, "when"@);
    assert(n + ".match"@ =~= n + seq!['.'] + "match"@);
    assert(n + ".exec"@ =~= n + seq!['.'] + "exec"@);
    assert(n + ".when"@ =~= n + seq!['.'] + "when"@);
}

/// **A bare name has no dot and is valid.**
pub proof fn law_bare_name(n: Text, e: KeyErrorModel)
    ensures
        n.contains('.') ==> parsed_bare_name(n, e) == Err::<Text, KeyErrorModel>(
            KeyErrorModel::Unknown(n),
        ),
        !n.contains('.') ==> parsed_bare_name(n, e) == if_named(n, e, n),
{
}

/// **How a key is written**: the name, a dot, and the field; a branchtype stands
/// behind a second dot.
pub proof fn law_dotted(r: Text, b: Text)
    ensures
        KeyModel::Shared(SharedKeyModel::Url(r)).dotted() == r + ".url"@,
        KeyModel::Shared(SharedKeyModel::At(r)).dotted() == r + ".at"@,
        KeyModel::Shared(SharedKeyModel::Paths(r)).dotted() == r + ".paths"@,
        KeyModel::Shared(SharedKeyModel::Branchtype(r, b)).dotted() == r + ".branchtypes."@ + b,
        KeyModel::Private(PrivateKeyModel::AtOverride(r)).dotted() == r + ".at"@,
        KeyModel::Private(PrivateKeyModel::PathsOverride(r)).dotted() == r + ".paths"@,
        KeyModel::Private(PrivateKeyModel::BranchtypeOverride(r, b)).dotted() == r
            + ".branchtypes."@ + b,
        KeyModel::Private(PrivateKeyModel::Auth(r, AuthField::SshKeyPath)).dotted() == r + "."@
            + "key"@,
        KeyModel::Private(PrivateKeyModel::Auth(r, AuthField::CredentialHelper)).dotted() == r
            + "."@ + "helper"@,
        KeyModel::Private(PrivateKeyModel::Auth(r, AuthField::TokenRef)).dotted() == r + "."@
            + "token"@,
        KeyModel::Shared(SharedKeyModel::Rule(r, RuleField::Pattern)).dotted() == r + "."@
            + "pattern"@,
        KeyModel::Shared(SharedKeyModel::Rule(r, RuleField::Predicate)).dotted() == r + "."@
            + "predicate"@,
        KeyModel::Shared(SharedKeyModel::Rule(r, RuleField::Message)).dotted() == r + "."@
            + "message"@,
        KeyModel::Shared(SharedKeyModel::Hook(r, HookField::Match)).dotted() == r + "."@ + "match"@,
        KeyModel::Shared(SharedKeyModel::Hook(r, HookField::Exec)).dotted() == r + "."@ + "exec"@,
        KeyModel::Shared(SharedKeyModel::Hook(r, HookField::When)).dotted() == r + "."@ + "when"@,
{
}

/// **A key lives in the layer that its kind says**, and a layer has its name.
pub proof fn law_layers(s: SharedKeyModel, p: PrivateKeyModel)
    ensures
        KeyModel::Shared(s).layer() is Shared,
        KeyModel::Private(p).layer() is Private,
        Layer::Shared.text() == "shared"@,
        Layer::Private.text() == "private"@,
{
}

/// **What is said of a key that is refused.**
pub proof fn law_messages(s: Text, layer: Text)
    ensures
        KeyErrorModel::InvalidRepoName(s).message() == "invalid repo name: "@ + debug_text(s),
        KeyErrorModel::InvalidBranchtype(s).message() == "invalid branchtype: "@ + debug_text(s),
        KeyErrorModel::InvalidRuleName(s).message() == "invalid rule name: "@ + debug_text(s),
        KeyErrorModel::InvalidHookName(s).message() == "invalid hook name: "@ + debug_text(s),
        KeyErrorModel::Unknown(s).message() == "unknown key: "@ + debug_text(s),
        KeyErrorModel::WrongLayer(s, layer).message() == "key "@ + debug_text(s)
            + " cannot be written to the "@ + layer + " layer"@,
{
}

/// **A name that is not valid is refused with its error, and taken as it stands
/// otherwise.**
pub proof fn law_checked_name(s: Text, e: KeyErrorModel)
    ensures
        checked_name(s, e) == if_named(s, e, s),
{
}

} // verus!
