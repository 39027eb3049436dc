//! Whole invocations against a workspace, a disk and git repos that live in
//! memory.
//!
//! `World` performs what the library asks for and reports back what came of
//! it: it is the outside of the library, made of plain values. The git in it
//! knows just the commands that the verbs use.

use std::collections::{BTreeMap, BTreeSet};
use xen::cli::{
    parse_alias, CascadeArgs, EnvArgs, EnvOp, HooksOp, PortalOp, ResonateArgs, RulesOp,
    SummonArgs, SyncArgs, Verb,
};
use xen::gitignore;
use xen::invocation::{Ending, Invocation, Next};
use xen::key::{Key, RepoName};
use xen::proc::{Output, Reply, Spawn};
use xen::store::{
    shared_file, unset_private, unset_shared, write_private, write_shared, HooksConfig,
    PrivateConfig, RulesConfig, SharedConfig, SharedDoc, SharedFile,
};
use xen::textmap::TextMap;
use xen::verbs::cascade::{self, cascade, report, Cascade};
use xen::verbs::env::{
    env_get, get_hook, get_rule, list_hooks, list_rules, remove_hook, remove_rule, EnvPlan,
};
use xen::verbs::merged::{build_auth_env, merge, Merged};
use xen::verbs::portal::{
    derive_repo_name, portal_add, portal_list, portal_remove, record, say_registered, seed,
    was_fresh, Cloning,
};
use xen::verbs::resonate::{self, resonate, Entry, Kind, Listing, Resonate, Source};
use xen::verbs::status::print_status;
use xen::verbs::summon::{summon, summon_paths, Summon};
use xen::verbs::sync::{sync, Sync};
use xen::verbs::work::{Ask, Event};

const ROOT: &str = "/ws";
const HOME: &str = "/home/me";

// --- git ------------------------------------------------------------------

/// A repo that can be cloned from.
#[derive(Clone, Debug, Default)]
struct Remote {
    branches: BTreeMap<String, String>,
    tags: BTreeMap<String, String>,
    files: Vec<String>,
}

/// A clone.
#[derive(Clone, Debug)]
struct Local {
    origin: String,
    branch: Option<String>,
    head: String,
    /// The local branches, and where they stand.
    branches: BTreeMap<String, String>,
    /// The local branches that cannot be fast-forwarded: they hold commits that
    /// their upstream lacks.
    diverged: BTreeSet<String>,
    fetched: BTreeMap<String, String>,
    populated: bool,
    cone: Option<Vec<String>>,
    dirty: bool,
    unpushed: bool,
}

fn done(stdout: &str) -> Reply {
    Reply::Ran(Output::new(Some(0), stdout.to_string(), String::new()))
}

fn fails(code: i32, stderr: &str) -> Reply {
    Reply::Ran(Output::new(Some(code), String::new(), stderr.to_string()))
}

fn parent_and_name(path: &str) -> (Option<String>, Option<String>) {
    match path.rsplit_once('/') {
        Some((p, n)) => (Some(p.to_string()), Some(n.to_string())),
        None => (None, Some(path.to_string())),
    }
}

// --- the world ------------------------------------------------------------

#[derive(Default)]
struct World {
    shared: Option<SharedConfig>,
    rules: Option<RulesConfig>,
    hooks: Option<HooksConfig>,
    private: Option<PrivateConfig>,
    gitignore: Option<String>,
    remotes: BTreeMap<String, Remote>,
    locals: BTreeMap<String, Local>,
    dirs: BTreeSet<String>,
    files: BTreeMap<String, String>,
    out: String,
    err: String,
    /// Every process that was spawned: directory and argv.
    spawned: Vec<(String, Vec<String>)>,
    /// Of each of them, the ssh command that git was given.
    ssh: Vec<Option<String>>,
}

/// A verb machine over the common asks.
trait Machine: Sized {
    fn ask(&self) -> Ask<'_>;
    fn tell(self, e: &Event) -> Self;
}

impl Machine for Cloning {
    fn ask(&self) -> Ask<'_> {
        self.next()
    }
    fn tell(self, e: &Event) -> Self {
        self.feed(e)
    }
}

impl Machine for Sync {
    fn ask(&self) -> Ask<'_> {
        self.next()
    }
    fn tell(self, e: &Event) -> Self {
        self.feed(e)
    }
}

impl Machine for Summon {
    fn ask(&self) -> Ask<'_> {
        self.next()
    }
    fn tell(self, e: &Event) -> Self {
        self.feed(e)
    }
}

fn copy_shared(c: &Option<SharedConfig>) -> SharedConfig {
    let mut repos = TextMap::new();
    if let Some(c) = c {
        for name in c.repos.keys() {
            let r = c.repos.get(&name).unwrap();
            let mut branchtypes = TextMap::new();
            for k in r.branchtypes.keys() {
                branchtypes.insert(k.clone(), r.branchtypes.get(&k).unwrap().clone());
            }
            repos.insert(
                name,
                xen::store::SharedRepo {
                    url: r.url.clone(),
                    at: r.at.clone(),
                    paths: r.paths.clone(),
                    branchtypes,
                },
            );
        }
    }
    SharedConfig { repos }
}

fn copy_private(c: &Option<PrivateConfig>) -> PrivateConfig {
    let mut repos = TextMap::new();
    if let Some(c) = c {
        for name in c.repos.keys() {
            let r = c.repos.get(&name).unwrap();
            let mut branchtypes = TextMap::new();
            for k in r.branchtypes.keys() {
                branchtypes.insert(k.clone(), r.branchtypes.get(&k).unwrap().clone());
            }
            repos.insert(
                name,
                xen::store::PrivateRepo {
                    key: r.key.clone(),
                    helper: r.helper.clone(),
                    token: r.token.clone(),
                    at: r.at.clone(),
                    paths: r.paths.clone(),
                    branchtypes,
                },
            );
        }
    }
    PrivateConfig { repos }
}

fn copy_rules(c: &Option<RulesConfig>) -> RulesConfig {
    let mut rules = TextMap::new();
    if let Some(c) = c {
        for name in c.rules.keys() {
            let r = c.rules.get(&name).unwrap();
            rules.insert(
                name,
                xen::store::SharedRule {
                    pattern: r.pattern.clone(),
                    predicate: r.predicate.clone(),
                    message: r.message.clone(),
                },
            );
        }
    }
    RulesConfig { rules }
}

fn copy_hooks(c: &Option<HooksConfig>) -> HooksConfig {
    let mut hooks = TextMap::new();
    if let Some(c) = c {
        for name in c.hooks.keys() {
            let h = c.hooks.get(&name).unwrap();
            hooks.insert(
                name,
                xen::store::SharedHook {
                    match_pattern: h.match_pattern.clone(),
                    exec_command: h.exec_command.clone(),
                    when: h.when.clone(),
                },
            );
        }
    }
    HooksConfig { hooks }
}

impl World {
    fn new() -> World {
        let mut w = World::default();
        w.dirs.insert(ROOT.to_string());
        w
    }

    /// A remote with one commit on `main`.
    fn remote(&mut self, name: &str) -> String {
        let url = format!("file:///remotes/{name}.git");
        let mut r = Remote::default();
        r.branches.insert("main".to_string(), format!("sha-{name}-main"));
        r.files = vec!["README.md".to_string(), "src/lib.rs".to_string()];
        self.remotes.insert(url.clone(), r);
        url
    }

    fn merged(&self) -> Merged {
        merge(&copy_shared(&self.shared), &copy_private(&self.private), Some(HOME))
    }

    /// What a work tree shows, by path.
    fn shows(&self, path: &str) -> bool {
        if self.files.contains_key(path) {
            return true;
        }
        for (dir, l) in &self.locals {
            if let Some(rel) = path.strip_prefix(&format!("{dir}/")) {
                if rel == ".git" {
                    return true;
                }
                let known = self.remotes.get(&l.origin).map(|r| r.files.iter().any(|f| f == rel));
                let visible = match &l.cone {
                    None => true,
                    Some(paths) => !rel.contains('/') || paths.iter().any(|p| rel.starts_with(p)),
                };
                if l.populated && visible && known == Some(true) {
                    return true;
                }
            }
        }
        false
    }

    fn on_disk(&self, path: &str) -> bool {
        self.dirs.contains(path) || self.files.contains_key(path) || self.locals.contains_key(path)
    }

    fn make_dir(&mut self, path: &str) {
        let mut p = String::new();
        for part in path.split('/').filter(|s| !s.is_empty()) {
            p.push('/');
            p.push_str(part);
            self.dirs.insert(p.clone());
        }
    }

    // --- processes --------------------------------------------------------

    fn run(&mut self, spawn: &Spawn) -> Reply {
        assert!(
            spawn.env.contains(&("GIT_TERMINAL_PROMPT".to_string(), "0".to_string())),
            "{spawn:?} may prompt"
        );
        assert!(spawn.stdin_null, "{spawn:?} may read");
        self.spawned.push((spawn.dir.clone(), spawn.argv.clone()));
        let ssh = spawn.env.iter().find(|(k, _)| k == "GIT_SSH_COMMAND");
        self.ssh.push(ssh.map(|(_, v)| v.clone()));
        let args: Vec<&str> = spawn.argv.iter().map(|s| s.as_str()).collect();
        match args.as_slice() {
            ["git", rest @ ..] => self.git(&spawn.dir, rest),
            ["sh", "-c", line] => self.sh(&spawn.dir, line, &spawn.env),
            _ => Reply::Lost("No such file or directory (os error 2)".to_string()),
        }
    }

    fn git(&mut self, dir: &str, args: &[&str]) -> Reply {
        if let ["clone", "--filter=blob:none", "--sparse", "--no-checkout", "--", url, dest] = args {
            let Some(remote) = self.remotes.get(*url) else {
                return fails(128, &format!("fatal: repository '{url}' does not exist\n"));
            };
            let local = Local {
                origin: url.to_string(),
                branch: Some("main".to_string()),
                head: remote.branches["main"].clone(),
                branches: BTreeMap::from([("main".to_string(), remote.branches["main"].clone())]),
                diverged: BTreeSet::new(),
                fetched: BTreeMap::new(),
                populated: false,
                cone: Some(Vec::new()),
                dirty: false,
                unpushed: false,
            };
            self.locals.insert(format!("{dir}/{dest}"), local);
            return done("");
        }
        let remotes = self.remotes.clone();
        let Some(local) = self.locals.get_mut(dir) else {
            return fails(128, "fatal: not a git repository\n");
        };
        let remote = remotes.get(&local.origin).cloned().unwrap_or_default();
        match args {
            ["symbolic-ref", "--short", "HEAD"] | ["symbolic-ref", "--quiet", "--short", "HEAD"] => {
                match &local.branch {
                    Some(b) => done(&format!("{b}\n")),
                    None => fails(128, "fatal: ref HEAD is not a symbolic ref\n"),
                }
            }
            ["fetch", "--tags", "origin"] => done(""),
            ["fetch", "origin", b] => match remote.branches.get(*b) {
                Some(sha) => {
                    local.fetched.insert(b.to_string(), sha.clone());
                    done("")
                }
                None => fails(128, &format!("fatal: couldn't find remote ref {b}\n")),
            },
            ["branch", "--list", "--", b] => {
                done(&if local.branches.contains_key(*b) { format!("  {b}\n") } else { String::new() })
            }
            ["checkout", "-b", b, from] => {
                assert_eq!(*from, format!("origin/{b}"));
                if local.branches.contains_key(*b) {
                    return fails(128, &format!("fatal: a branch named '{b}' already exists\n"));
                }
                local.head = local.fetched[*b].clone();
                local.branches.insert(b.to_string(), local.head.clone());
                local.branch = Some(b.to_string());
                local.populated = true;
                done("")
            }
            ["merge", "--ff-only", from] => {
                let b = from.strip_prefix("origin/").unwrap();
                assert_eq!(local.branch.as_deref(), Some(b));
                if local.diverged.contains(b) {
                    return fails(128, "fatal: Not possible to fast-forward, aborting.\n");
                }
                local.head = local.fetched[b].clone();
                local.branches.insert(b.to_string(), local.head.clone());
                done("")
            }
            ["checkout", r] => match r.strip_prefix("refs/tags/") {
                Some(tag) => match remote.tags.get(tag) {
                    Some(sha) => {
                        local.head = sha.clone();
                        local.branch = None;
                        local.populated = true;
                        done("")
                    }
                    None => fails(1, &format!("error: pathspec '{r}' did not match\n")),
                },
                None => {
                    if local.branch.as_deref() != Some(*r) {
                        // A name that is no branch is taken for a tag.
                        let (sha, branch) = match (local.branches.get(*r), remote.tags.get(*r)) {
                            (Some(sha), _) => (sha.clone(), Some(r.to_string())),
                            (None, Some(sha)) => (sha.clone(), None),
                            (None, None) => {
                                return fails(1, &format!("error: pathspec '{r}' did not match\n"))
                            }
                        };
                        local.head = sha;
                        local.branch = branch;
                    }
                    local.populated = true;
                    done("")
                }
            },
            ["sparse-checkout", "disable"] => {
                local.cone = None;
                done("")
            }
            ["sparse-checkout", "set", paths @ ..] => {
                local.cone = Some(paths.iter().map(|s| s.to_string()).collect());
                done("")
            }
            ["status", "--porcelain"] => done(if local.dirty { " M README.md\n" } else { "" }),
            ["log", "--branches", "--not", "--remotes", "--oneline"] => {
                done(if local.unpushed { "abc1234 wip\n" } else { "" })
            }
            ["rev-parse", "HEAD"] => done(&format!("{}\n", local.head)),
            _ => fails(1, &format!("git: unknown {args:?}\n")),
        }
    }

    /// A shell that knows a handful of lines.
    fn sh(&mut self, dir: &str, line: &str, env: &[(String, String)]) -> Reply {
        let on_main = matches!(
            self.locals.get(dir).and_then(|l| l.branch.as_deref()),
            Some("main") | Some("master")
        );
        if line == xen::rules::PROTECT_MAIN_COMMIT_PREDICATE {
            return if on_main { fails(1, "") } else { done("") };
        }
        if line == xen::rules::PROTECT_MAIN_PUSH_PREDICATE {
            return done("");
        }
        if let Some(rest) = line.strip_prefix("git ") {
            let args: Vec<&str> = rest.split(' ').collect();
            return self.git(dir, &args);
        }
        if line == "env" {
            let mut s = String::new();
            for (k, v) in env {
                s.push_str(&format!("{k}={v}\n"));
            }
            return done(&s);
        }
        let mut out = String::new();
        let mut err = String::new();
        for part in line.split("; ").flat_map(|p| p.split(" && ")) {
            if let Some(code) = part.strip_prefix("exit ") {
                return Reply::Ran(Output::new(Some(code.parse().unwrap()), out, err));
            } else if let Some(path) = part.strip_prefix("touch ") {
                let full = if path.starts_with('/') {
                    path.to_string()
                } else {
                    format!("{dir}/{path}")
                };
                self.files.insert(full, String::new());
            } else if let Some(text) = part.strip_prefix("echo ") {
                match text.strip_suffix(" 1>&2") {
                    Some(t) => err.push_str(&format!("{t}\n")),
                    None => out.push_str(&format!("{text}\n")),
                }
            } else {
                return fails(127, &format!("sh: {part}: not found\n"));
            }
        }
        Reply::Ran(Output::new(Some(0), out, err))
    }

    // --- machines ---------------------------------------------------------

    fn drive<M: Machine>(&mut self, machine: M) -> Result<M, Option<String>> {
        let mut m = machine;
        loop {
            let event = match m.ask() {
                Ask::Probe(path) => {
                    let (parent, file_name) = parent_and_name(path);
                    Event::Probed { exists: self.on_disk(path), parent, file_name }
                }
                Ask::Trees => Event::Found(
                    self.locals
                        .iter()
                        .filter_map(|(dir, l)| {
                            let rel = dir.strip_prefix(&format!("{ROOT}/"))?;
                            Some((rel.to_string(), l.origin.clone()))
                        })
                        .collect(),
                ),
                Ask::MakeDir(path) => {
                    let path = path.to_string();
                    self.make_dir(&path);
                    Event::Done(Ok(()))
                }
                Ask::Rename(from, to) => match self.locals.remove(from) {
                    Some(l) => {
                        self.locals.insert(to.to_string(), l);
                        Event::Done(Ok(()))
                    }
                    None => Event::Done(Err("no such directory".to_string())),
                },
                Ask::Run(spawn) => Event::Ran(self.run(spawn)),
                Ask::Say(text) => {
                    self.out.push_str(&text);
                    Event::Said
                }
                Ask::Warn(text) => {
                    self.err.push_str(&text);
                    Event::Said
                }
                Ask::End(Ok(text)) => {
                    self.out.push_str(&text);
                    return Ok(m);
                }
                Ask::End(Err(why)) => return Err(Some(why)),
            };
            m = m.tell(&event);
        }
    }

    fn drive_cascade(&mut self, machine: Cascade) -> Result<(), Option<String>> {
        let mut m = machine;
        loop {
            let event = match m.next() {
                cascade::Ask::Exists(cs) => {
                    cascade::Event::Exist(cs.iter().map(|c| self.on_disk(&c.dir)).collect())
                }
                cascade::Ask::Each(spawns) => {
                    cascade::Event::RanEach(spawns.iter().map(|s| self.run(s)).collect())
                }
                cascade::Ask::Rules => cascade::Event::Loaded(copy_rules(&self.rules)),
                cascade::Ask::Gate(spawn) => cascade::Event::Ran(self.run(spawn)),
                cascade::Ask::Together(spawns) => {
                    let mut replies = Vec::new();
                    for (c, s) in m.selected().iter().zip(spawns.iter()) {
                        let reply = self.run(s);
                        let (out, err) = report(c, m.command(), &reply);
                        self.out.push_str(&out);
                        self.err.push_str(&err);
                        replies.push(reply);
                    }
                    for reply in replies {
                        m = m.feed(&cascade::Event::Finished(reply));
                    }
                    continue;
                }
                cascade::Ask::End(line, ending) => {
                    self.err.push_str(line);
                    return match ending {
                        Ending::Fine => Ok(()),
                        Ending::Failed(why) => Err(why.clone()),
                    };
                }
            };
            m = m.feed(&event);
        }
    }

    fn drive_resonate(&mut self, machine: Resonate) -> Result<(), Option<String>> {
        let mut m = machine;
        loop {
            let event = match m.next() {
                resonate::Ask::Source(p) => resonate::Event::Source(if self.files.contains_key(p) {
                    Source::File(parent_and_name(p).1)
                } else if self.dirs.contains(p) {
                    Source::Dir
                } else {
                    Source::Missing
                }),
                resonate::Ask::MakeDir(p) => {
                    let p = p.to_string();
                    self.make_dir(&p);
                    resonate::Event::Done(Ok(()))
                }
                resonate::Ask::List(p) => {
                    let prefix = format!("{p}/");
                    let mut entries = Vec::new();
                    for d in &self.dirs {
                        if let Some(n) = d.strip_prefix(&prefix).filter(|n| !n.contains('/')) {
                            entries.push(Entry { name: n.to_string(), kind: Kind::Dir });
                        }
                    }
                    for f in self.files.keys() {
                        if let Some(n) = f.strip_prefix(&prefix).filter(|n| !n.contains('/')) {
                            let kind = if n == "link" { Kind::Other } else { Kind::File };
                            entries.push(Entry { name: n.to_string(), kind });
                        }
                    }
                    resonate::Event::Listed(Listing::Entries(entries))
                }
                resonate::Ask::Exists(p) => resonate::Event::Exists(self.files.contains_key(p)),
                resonate::Ask::Copy(from, to) => {
                    let body = self.files[from].clone();
                    self.files.insert(to.to_string(), body);
                    resonate::Event::Done(Ok(()))
                }
                resonate::Ask::End(Ok(text)) => {
                    self.out.push_str(&text);
                    return Ok(());
                }
                resonate::Ask::End(Err(why)) => return Err(Some(why)),
            };
            m = m.feed(&event);
        }
    }

    // --- verbs ------------------------------------------------------------

    fn ignore(&mut self) {
        let existing = self.gitignore.clone().unwrap_or_default();
        if let Some(s) = gitignore::reconcile(&existing, &copy_shared(&self.shared)) {
            self.gitignore = Some(s);
        }
    }

    fn write_key(&mut self, key: Key, value: Option<String>) {
        match key {
            Key::Shared(sk) => {
                let mut doc = match shared_file(&sk) {
                    SharedFile::Repos => SharedDoc::Repos(copy_shared(&self.shared)),
                    SharedFile::Rules => SharedDoc::Rules(copy_rules(&self.rules)),
                    SharedFile::Hooks => SharedDoc::Hooks(copy_hooks(&self.hooks)),
                };
                match value {
                    Some(v) => write_shared(&mut doc, sk, v),
                    None => unset_shared(&mut doc, sk),
                }
                match doc {
                    SharedDoc::Repos(c) => self.shared = Some(c),
                    SharedDoc::Rules(c) => self.rules = Some(c),
                    SharedDoc::Hooks(c) => self.hooks = Some(c),
                }
            }
            Key::Private(pk) => {
                let mut c = copy_private(&self.private);
                match value {
                    Some(v) => write_private(&mut c, pk, v),
                    None => unset_private(&mut c, pk),
                }
                self.private = Some(c);
            }
        }
    }

    fn do_env(&mut self, args: EnvArgs) -> Result<(), Option<String>> {
        match xen::verbs::env::env(args).map_err(Some)? {
            EnvPlan::Write { key, value, said } => {
                self.write_key(key, Some(value));
                self.out.push_str(&said);
            }
            EnvPlan::Unset { key, said } => {
                self.write_key(key, None);
                self.out.push_str(&said);
            }
            EnvPlan::Get { key } => {
                let s = env_get(&self.merged(), &key).map_err(Some)?;
                self.out.push_str(&s);
            }
            EnvPlan::RemoveRule { name } => {
                let mut c = copy_rules(&self.rules);
                let s = remove_rule(&mut c, &name).map_err(Some)?;
                self.rules = Some(c);
                self.out.push_str(&s);
            }
            EnvPlan::GetRule { key } => {
                let s = get_rule(&copy_rules(&self.rules), &key).map_err(Some)?;
                self.out.push_str(&s);
            }
            EnvPlan::ListRules => self.out.push_str(&list_rules(&copy_rules(&self.rules))),
            EnvPlan::RemoveHook { name } => {
                let mut c = copy_hooks(&self.hooks);
                let s = remove_hook(&mut c, &name).map_err(Some)?;
                self.hooks = Some(c);
                self.out.push_str(&s);
            }
            EnvPlan::GetHook { key } => {
                let s = get_hook(&copy_hooks(&self.hooks), &key).map_err(Some)?;
                self.out.push_str(&s);
            }
            EnvPlan::ListHooks => self.out.push_str(&list_hooks(&copy_hooks(&self.hooks))),
            EnvPlan::RawShared | EnvPlan::RawPrivate => {}
            EnvPlan::Status => {
                let s = print_status(&self.merged(), &copy_rules(&self.rules));
                self.out.push_str(&s);
            }
        }
        Ok(())
    }

    fn do_portal(&mut self, op: PortalOp) -> Result<(), Option<String>> {
        match op {
            PortalOp::Add { url, at, alias } => {
                let name = derive_repo_name(&url).map_err(Some)?;
                let mut shared = copy_shared(&self.shared);
                let fresh = was_fresh(&shared, self.shared.is_some(), false);
                let addition = portal_add(ROOT, &shared, name, url, at, alias).map_err(Some)?;
                let private = copy_private(&self.private);
                let auth = match private.repos.get(addition.name.as_str()) {
                    Some(p) => build_auth_env(p, Some(HOME)),
                    None => Vec::new(),
                };
                let cloned = self
                    .drive(Cloning::start(ROOT, addition, auth))?
                    .landed()
                    .expect("a clone that ended well has landed");
                record(&mut shared, &cloned);
                self.shared = Some(shared);
                self.ignore();
                let mut rules = copy_rules(&self.rules);
                if let Some(said) = seed(fresh, self.rules.is_some(), &mut rules) {
                    self.rules = Some(rules);
                    self.out.push_str(&said);
                }
                self.out.push_str(&say_registered(&cloned));
            }
            PortalOp::Remove { repo } => {
                let name = RepoName::new(&repo).map_err(|e| Some(e.message()))?;
                let mut shared = copy_shared(&self.shared);
                let mut private = copy_private(&self.private);
                let said = portal_remove(&mut shared, &mut private, &name).map_err(Some)?;
                self.shared = Some(shared);
                self.ignore();
                self.private = Some(private);
                self.out.push_str(&said);
            }
            PortalOp::List => self.out.push_str(&portal_list(&self.merged())),
        }
        Ok(())
    }

    fn do_verb(&mut self, verb: Verb) -> Result<(), Option<String>> {
        match verb {
            Verb::Portal { op } => self.do_portal(op),
            Verb::Summon(args) => {
                if let Some((key, value)) = summon_paths(&args).map_err(Some)? {
                    self.write_key(Key::Shared(key), Some(value));
                }
                self.ignore();
                let m = summon(&args, &self.merged(), ROOT).map_err(Some)?;
                self.drive(m).map(|_| ())
            }
            Verb::Sync(args) => match sync(&args, &self.merged(), ROOT) {
                Ok(m) => self.drive(m).map(|_| ()),
                Err(refusal) => {
                    self.err.push_str(&refusal.listing);
                    Err(Some(refusal.why))
                }
            },
            Verb::Cascade(args) => {
                let m = cascade(args, &self.merged(), ROOT).map_err(Some)?;
                self.drive_cascade(m)
            }
            Verb::Env(args) => self.do_env(args),
            Verb::Resonate(args) => {
                let m = resonate(args, &copy_shared(&self.shared), ROOT).map_err(Some)?;
                self.drive_resonate(m)
            }
        }
    }

    /// One invocation, hooks and all. Says whether it succeeded; what it wrote
    /// is in `out` and `err`.
    fn xen(&mut self, words: &[&str]) -> bool {
        self.out.clear();
        self.err.clear();
        let result = self.invoke(words);
        if let Err(Some(why)) = &result {
            self.err.push_str(&format!("xen: {why}\n"));
        }
        result.is_ok()
    }

    fn invoke(&mut self, words: &[&str]) -> Result<(), Option<String>> {
        let command = words.join(" ");
        let mut inv = Invocation::start(&copy_hooks(&self.hooks), &command, ROOT).map_err(Some)?;
        let mut verb = Some(parse(words));
        loop {
            match inv.next() {
                Next::Run(spawn) => {
                    let reply = self.run(spawn);
                    let (out, err) = inv.show(&reply);
                    self.out.push_str(&out);
                    self.err.push_str(&err);
                    inv = inv.replied(&reply);
                }
                Next::Verb => {
                    let ending = match self.do_verb(verb.take().expect("the verb runs once")) {
                        Ok(()) => Ending::Fine,
                        Err(why) => Ending::Failed(why),
                    };
                    inv = inv.ended(ending);
                }
                Next::Over(Ending::Fine) => return Ok(()),
                Next::Over(Ending::Failed(why)) => return Err(why.clone()),
            }
        }
    }

    fn head(&self, dir: &str) -> String {
        self.locals[dir].head.clone()
    }
}

// --- a command line ---------------------------------------------------------

fn take_flag(words: &mut Vec<String>, flag: &str) -> bool {
    match words.iter().position(|w| w == flag) {
        Some(i) => {
            words.remove(i);
            true
        }
        None => false,
    }
}

fn take_option(words: &mut Vec<String>, name: &str) -> Option<String> {
    let i = words.iter().position(|w| w == name)?;
    words.remove(i);
    Some(words.remove(i))
}

fn parse(words: &[&str]) -> Verb {
    let mut w: Vec<String> = words.iter().map(|s| s.to_string()).collect();
    let verb = w.remove(0);
    match verb.as_str() {
        "portal" => {
            let op = w.remove(0);
            match op.as_str() {
                "add" => {
                    let at = take_option(&mut w, "--at");
                    let mut alias = Vec::new();
                    while let Some(a) = take_option(&mut w, "--alias") {
                        alias.push(parse_alias(&a).expect("alias"));
                    }
                    Verb::Portal { op: PortalOp::Add { url: w.remove(0), at, alias } }
                }
                "remove" => Verb::Portal { op: PortalOp::Remove { repo: w.remove(0) } },
                _ => Verb::Portal { op: PortalOp::List },
            }
        }
        "summon" => {
            let paths = match take_option(&mut w, "--paths") {
                Some(p) => p.split(',').map(|s| s.to_string()).collect(),
                None => Vec::new(),
            };
            Verb::Summon(SummonArgs { repos: w, paths })
        }
        "sync" => Verb::Sync(SyncArgs { ref_name: w.remove(0) }),
        "cascade" => {
            let changed_only = take_flag(&mut w, "--changed-only");
            let branch_pattern = take_option(&mut w, "--branch-pattern");
            Verb::Cascade(CascadeArgs { command: w, changed_only, branch_pattern })
        }
        "resonate" => {
            let source = take_option(&mut w, "--source").expect("--source");
            let at = take_option(&mut w, "--at");
            let force = take_flag(&mut w, "--force");
            Verb::Resonate(ResonateArgs { portal: w.remove(0), source, at, force })
        }
        "env" => {
            let private = take_flag(&mut w, "--private");
            let shared = take_flag(&mut w, "--shared");
            let words: Vec<&str> = w.iter().map(|s| s.as_str()).collect();
            let op = match words.as_slice() {
                [] => None,
                ["set", a] => Some(EnvOp::Assign { assignment: a.to_string(), private }),
                ["unset", k] => Some(EnvOp::Unset { key: k.to_string(), private }),
                ["get", k] => Some(EnvOp::Get { key: k.to_string() }),
                ["rules", "set", a] => {
                    Some(EnvOp::Rules { op: RulesOp::Assign { assignment: a.to_string() } })
                }
                ["rules", "unset", k] => {
                    Some(EnvOp::Rules { op: RulesOp::Unset { key: k.to_string() } })
                }
                ["rules", "get", k] => Some(EnvOp::Rules { op: RulesOp::Get { key: k.to_string() } }),
                ["rules", "list"] => Some(EnvOp::Rules { op: RulesOp::List }),
                ["hooks", "set", a] => {
                    Some(EnvOp::Hooks { op: HooksOp::Assign { assignment: a.to_string() } })
                }
                ["hooks", "unset", k] => {
                    Some(EnvOp::Hooks { op: HooksOp::Unset { key: k.to_string() } })
                }
                ["hooks", "get", k] => Some(EnvOp::Hooks { op: HooksOp::Get { key: k.to_string() } }),
                ["hooks", "list"] => Some(EnvOp::Hooks { op: HooksOp::List }),
                other => panic!("env {other:?}"),
            };
            Verb::Env(EnvArgs { op, shared, private })
        }
        other => panic!("verb {other}"),
    }
}

// --- env --------------------------------------------------------------------

#[test]
fn env_set_writes_shared_layer() {
    let mut w = World::new();
    assert!(w.xen(&["env", "set", "foo.url=git@github.com:x/y.git"]));
    let shared = w.shared.unwrap();
    assert_eq!(
        shared.repos.get("foo").unwrap().url.as_deref(),
        Some("git@github.com:x/y.git")
    );
    assert!(w.private.is_none());
}

#[test]
fn env_set_auth_routes_to_private() {
    let mut w = World::new();
    assert!(w.xen(&["env", "set", "foo.key=~/.ssh/id_x", "--private"]));
    let private = w.private.unwrap();
    assert_eq!(private.repos.get("foo").unwrap().key.as_deref(), Some("~/.ssh/id_x"));
    assert!(w.shared.is_none());
}

#[test]
fn env_refuses_auth_in_shared() {
    let mut w = World::new();
    assert!(!w.xen(&["env", "set", "foo.key=x"]));
    assert!(w.err.contains("cannot be written to the shared"), "{}", w.err);
    assert!(w.shared.is_none() && w.private.is_none());
}

#[test]
fn env_refuses_url_in_private() {
    let mut w = World::new();
    assert!(!w.xen(&["env", "set", "foo.url=x", "--private"]));
    assert!(w.err.contains("cannot be written to the private"), "{}", w.err);
    assert!(w.shared.is_none() && w.private.is_none());
}

#[test]
fn env_set_rejects_unknown_key() {
    let mut w = World::new();
    assert!(!w.xen(&["env", "set", "foo.bogus=x"]));
    assert!(w.err.contains("unknown key"), "{}", w.err);
}

#[test]
fn env_unset_removes_key() {
    let mut w = World::new();
    assert!(w.xen(&["env", "set", "foo.url=x"]));
    assert!(w.xen(&["env", "unset", "foo.url"]));
    assert!(!w.shared.unwrap().repos.contains_key("foo"));
}

#[test]
fn env_status_reports_empty() {
    let mut w = World::new();
    assert!(w.xen(&["env"]));
    assert!(w.out.contains("0 repos registered"), "{}", w.out);
}

#[test]
fn cascade_requires_command() {
    let mut w = World::new();
    assert!(!w.xen(&["cascade"]));
    assert!(w.err.contains("cascade: empty command"), "{}", w.err);
    assert!(!w.xen(&["cascade", "  ", "\t"]));
    assert!(w.err.contains("cascade: empty command"), "{}", w.err);
}

// --- env hooks --------------------------------------------------------------

#[test]
fn env_hooks_set_writes_to_hooks_toml() {
    let mut w = World::new();
    assert!(w.xen(&["env", "hooks", "set", "pull-after-sync.match=^sync\\b"]));
    let hooks = w.hooks.unwrap();
    let h = hooks.hooks.get("pull-after-sync").unwrap();
    assert_eq!(h.match_pattern.as_deref(), Some("^sync\\b"));
    assert!(w.shared.is_none() && w.rules.is_none());
}

#[test]
fn env_hooks_set_all_three_fields() {
    let mut w = World::new();
    for kv in ["pull.match=^sync\\b", "pull.exec=git pull --ff-only", "pull.when=post"] {
        assert!(w.xen(&["env", "hooks", "set", kv]));
    }
    let hooks = w.hooks.unwrap();
    let h = hooks.hooks.get("pull").unwrap();
    assert_eq!(h.match_pattern.as_deref(), Some("^sync\\b"));
    assert_eq!(h.exec_command.as_deref(), Some("git pull --ff-only"));
    assert_eq!(h.when.as_deref(), Some("post"));
}

#[test]
fn env_hooks_get_field_and_whole_hook() {
    let mut w = World::new();
    for kv in ["h1.match=^sync$", "h1.exec=echo hi", "h1.when=pre"] {
        assert!(w.xen(&["env", "hooks", "set", kv]));
    }
    assert!(w.xen(&["env", "hooks", "get", "h1.exec"]));
    assert!(w.out.contains("echo hi"));
    assert!(w.xen(&["env", "hooks", "get", "h1"]));
    assert!(w.out.contains("match"));
    assert!(w.out.contains("exec"));
    assert!(w.out.contains("when"));
    assert_eq!(w.out, "match = ^sync$\nexec  = echo hi\nwhen  = pre\n");
}

#[test]
fn env_hooks_unset_whole_hook() {
    let mut w = World::new();
    assert!(w.xen(&["env", "hooks", "set", "h.match=^sync"]));
    assert!(w.xen(&["env", "hooks", "unset", "h"]));
    assert_eq!(w.out, "hooks: removed hook h\n");
    assert!(!w.hooks.as_ref().unwrap().hooks.contains_key("h"));
    assert!(!w.xen(&["env", "hooks", "unset", "h"]));
    assert!(w.err.contains("hooks: no hook named h"));
}

#[test]
fn env_hooks_list_empty_and_populated() {
    let mut w = World::new();
    assert!(w.xen(&["env", "hooks", "list"]));
    assert!(w.out.contains("(no hooks configured)"));
    assert!(w.xen(&["env", "hooks", "set", "h.match=^sync"]));
    assert!(w.xen(&["env", "hooks", "set", "h.exec=echo hi"]));
    assert!(w.xen(&["env", "hooks", "list"]));
    assert!(w.out.contains("h ("));
    assert!(w.out.contains("match"));
    assert_eq!(w.out, "h (post)\n  match: ^sync\n  exec: echo hi\n");
}

#[test]
fn env_hooks_set_rejects_invalid_field() {
    let mut w = World::new();
    assert!(!w.xen(&["env", "hooks", "set", "h.bogus=x"]));
}

#[test]
fn env_hooks_set_rejects_invalid_when() {
    // Any text is accepted for `when`; a hook that is complete is checked when
    // hooks compile, at the next invocation.
    let mut w = World::new();
    assert!(w.xen(&["env", "hooks", "set", "h.when=sideways"]));
    assert!(w.xen(&["env", "hooks", "set", "h.match=x"]));
    assert!(w.xen(&["env", "hooks", "set", "h.exec=exit 0"]));
    assert!(!w.xen(&["env"]));
    assert!(w.err.contains(
        "hook \"h\": invalid `when`: hook `when` must be \"pre\" or \"post\", got \"sideways\""
    ));
}

// --- portal -----------------------------------------------------------------

#[test]
fn portal_add_clones_at_default_basename() {
    let mut w = World::new();
    let url = w.remote("upstream");
    assert!(w.xen(&["portal", "add", &url]));
    assert!(w.shows("/ws/upstream/.git"));
    assert!(w.out.contains("portal: registered upstream at upstream\n"));
}

#[test]
fn portal_add_does_not_materialize_working_tree() {
    let mut w = World::new();
    let url = w.remote("upstream");
    assert!(w.xen(&["portal", "add", &url]));
    assert!(w.shows("/ws/upstream/.git"));
    assert!(!w.shows("/ws/upstream/README.md"));
    assert!(!w.shows("/ws/upstream/src/lib.rs"));
}

#[test]
fn summon_after_portal_populates_working_tree() {
    let mut w = World::new();
    let url = w.remote("upstream");
    assert!(w.xen(&["portal", "add", &url]));
    assert!(w.xen(&["summon"]));
    assert_eq!(w.out, "  upstream: ok\n");
    assert!(w.shows("/ws/upstream/README.md"));
    assert!(w.shows("/ws/upstream/src/lib.rs"));
}

#[test]
fn portal_add_with_at_places_repo() {
    let mut w = World::new();
    let url = w.remote("upstream");
    assert!(w.xen(&["portal", "add", &url, "--at", "services/api"]));
    assert!(w.shows("/ws/services/api/.git"));
}

#[test]
fn portal_add_may_place_a_repo_outside_the_workspace() {
    let mut w = World::new();
    for (name, at, dir) in [("lib", "../lib", "/ws/../lib"), ("tool", "/srv/tool", "/srv/tool")] {
        let url = w.remote(name);
        w.spawned.clear();
        assert!(w.xen(&["portal", "add", &url, "--at", at]));
        assert_eq!(w.spawned.len(), 1);
        assert!(w.locals.contains_key(dir));
        assert_eq!(w.shared.as_ref().unwrap().repos.get(name).unwrap().at.as_deref(), Some(at));
    }
    let url = w.remote("new");
    assert!(!w.xen(&["portal", "add", &url, "--at", "../lib/x"]));
    assert!(w.err.contains("overlaps with repo \"lib\""));
}

#[test]
fn portal_overlap_is_rejected() {
    let mut w = World::new();
    let url = w.remote("api");
    assert!(w.xen(&["portal", "add", &url, "--at", "services"]));
    let url2 = w.remote("web");
    assert!(!w.xen(&["portal", "add", &url2, "--at", "services/web"]));
    assert!(w.err.contains("overlaps"));
    assert_eq!(
        w.err,
        "xen: portal: placement \"services/web\" overlaps with repo \"api\" at \"services\"\n"
    );
    assert!(!w.shared.unwrap().repos.contains_key("web"));
}

#[test]
fn portal_add_failure_leaves_no_partial_state() {
    let mut w = World::new();
    let bogus = "file:///tmp/xen-test-definitely-not-a-repo-99999.git";
    assert!(!w.xen(&["portal", "add", bogus, "--at", "subdir/foo"]));
    assert!(w.err.starts_with(&format!("xen: cloning {bogus}: [\"git\", \"clone\", ")));
    assert!(w.err.ends_with(&format!("] failed: fatal: repository '{bogus}' does not exist\n")));
    assert!(w.shared.is_none());
    assert!(w.rules.is_none());
    assert!(w.gitignore.is_none());
    assert!(!w.on_disk("/ws/subdir/foo"));
}

#[test]
fn portal_add_writes_gitignore_block() {
    let mut w = World::new();
    let url = w.remote("upstream");
    assert!(w.xen(&["portal", "add", &url, "--at", "OSS/upstream"]));
    let gi = w.gitignore.unwrap();
    assert!(gi.contains("/OSS/upstream/"), "got: {gi}");
    assert!(gi.contains("xen-managed"), "got: {gi}");
}

#[test]
fn portal_remove_drops_entry_from_gitignore() {
    let mut w = World::new();
    let url = w.remote("upstream");
    assert!(w.xen(&["portal", "add", &url, "--at", "OSS/upstream"]));
    assert!(w.xen(&["env", "set", "upstream.key=k", "--private"]));
    assert!(w.xen(&["portal", "remove", "upstream"]));
    assert_eq!(w.out, "portal: removed upstream (working tree left in place)\n");
    let gi = w.gitignore.clone().unwrap();
    assert!(!gi.contains("/OSS/upstream/"), "entry should be gone:\n{gi}");
    assert!(gi.contains("xen-managed"));
    assert!(!w.private.as_ref().unwrap().repos.contains_key("upstream"));
    assert!(w.shows("/ws/OSS/upstream/.git"));
    assert!(!w.xen(&["portal", "remove", "upstream"]));
    assert_eq!(w.err, "xen: portal: repo upstream not registered\n");
}

#[test]
fn portal_preserves_user_lines_in_gitignore() {
    let mut w = World::new();
    let url = w.remote("upstream");
    w.gitignore = Some("target/\n*.log\n".to_string());
    assert!(w.xen(&["portal", "add", &url]));
    let gi = w.gitignore.unwrap();
    assert!(gi.contains("target/"), "user line dropped:\n{gi}");
    assert!(gi.contains("*.log"), "user line dropped:\n{gi}");
    assert!(gi.contains("xen-managed"));
}

#[test]
fn summon_reconciles_gitignore_on_demand() {
    let mut w = World::new();
    let url = w.remote("upstream");
    assert!(w.xen(&["portal", "add", &url]));
    w.gitignore = None;
    assert!(w.xen(&["summon"]));
    let gi = w.gitignore.unwrap();
    assert!(gi.contains("xen-managed"));
    assert!(gi.contains("/upstream/"));
}

#[test]
fn portal_list_shows_registered_repos() {
    let mut w = World::new();
    assert!(w.xen(&["portal", "list"]));
    assert_eq!(w.out, "(no repos registered)\n");
    let url = w.remote("upstream");
    assert!(w.xen(&["portal", "add", &url, "--at", "services/api"]));
    assert!(w.xen(&["portal", "list"]));
    assert!(w.out.contains("upstream"));
    assert!(w.out.contains("services/api"));
    assert_eq!(w.out, format!("upstream  ->  services/api  ({url})\n"));
}

#[test]
fn portal_add_says_what_it_found_on_disk() {
    let mut w = World::new();
    let url = w.remote("upstream");
    w.make_dir("/ws/upstream");
    assert!(w.xen(&["portal", "add", &url]));
    assert_eq!(w.err, "portal: upstream already exists on disk, skipping clone\n");
    assert!(w.spawned.is_empty());
    assert!(!w.xen(&["portal", "add", &url]));
    assert_eq!(w.err, "xen: portal: repo upstream already registered\n");
}

#[test]
fn portal_add_checks_its_aliases_before_the_clone() {
    let mut w = World::new();
    let url = w.remote("upstream");
    assert!(!w.xen(&["portal", "add", &url, "--alias", "a.b=main"]));
    assert_eq!(w.err, "xen: invalid branchtype: \"a.b\"\n");
    assert!(w.spawned.is_empty());
}

#[test]
fn portal_add_uses_the_key_of_the_repo() {
    let mut w = World::new();
    let url = w.remote("upstream");
    assert!(w.xen(&["env", "set", "upstream.key=/keys/it's", "--private"]));
    let private = copy_private(&w.private);
    let auth = build_auth_env(private.repos.get("upstream").unwrap(), Some(HOME));
    assert_eq!(
        auth,
        vec![(
            "GIT_SSH_COMMAND".to_string(),
            "ssh -i '/keys/it'\\''s' -o IdentitiesOnly=yes".to_string()
        )]
    );
    assert!(w.xen(&["portal", "add", &url]));
}

#[test]
fn portal_seeds_default_rules_in_fresh_workspace() {
    let mut w = World::new();
    let url = w.remote("upstream");
    assert!(w.xen(&["portal", "add", &url]));
    assert!(w.out.contains("portal: seeded 2 default rule(s) into .xen/rules.toml\n"));
    let rules = w.rules.as_ref().unwrap();
    assert!(rules.rules.contains_key("protect-main-push"));
    assert!(rules.rules.contains_key("protect-main-commit"));
    // Only the first portal of a fresh workspace seeds.
    w.rules = None;
    let url2 = w.remote("second");
    assert!(w.xen(&["portal", "add", &url2]));
    assert!(w.rules.is_none());
}

// --- sync -------------------------------------------------------------------

#[test]
fn sync_to_branchtype_when_mapped() {
    let mut w = World::new();
    let url = w.remote("upstream");
    assert!(w.xen(&["portal", "add", &url, "--alias", "trunk=main"]));
    assert!(w.xen(&["sync", "trunk"]));
    assert_eq!(w.out, "  upstream: main\nok: 1 repos synced to trunk\n");
}

#[test]
fn sync_branchtype_hard_fails_when_unmapped() {
    let mut w = World::new();
    let url = w.remote("upstream");
    assert!(w.xen(&["portal", "add", &url]));
    w.spawned.clear();
    assert!(!w.xen(&["sync", "dev"]));
    assert!(w.err.contains("no mapping for branchtype"));
    assert!(w.spawned.is_empty());
}

#[test]
fn sync_names_every_repo_that_lacks_the_mapping() {
    let mut w = World::new();
    for name in ["foo", "bar", "ok"] {
        let url = w.remote(name);
        assert!(w.xen(&["portal", "add", &url]));
    }
    assert!(w.xen(&["env", "set", "ok.branchtypes.dev=main"]));
    assert!(!w.xen(&["sync", "dev"]));
    assert_eq!(
        w.err,
        "fail: 2 repos have no mapping for branchtype \"dev\":\n  \
         bar  (suggest: xen env set bar.branchtypes.dev=<branch>)\n  \
         foo  (suggest: xen env set foo.branchtypes.dev=<branch>)\n\
         xen: sync: missing branchtype mappings\n"
    );
    assert!(w.xen(&["env", "set", "foo.branchtypes.dev=main"]));
    assert!(!w.xen(&["sync", "dev"]));
    assert!(w.err.starts_with("fail: 1 repo(s) have no mapping for branchtype \"dev\":\n  bar  ("));
}

#[test]
fn the_suggested_command_fixes_the_repo() {
    let mut w = World::new();
    let url = w.remote("foo");
    assert!(w.xen(&["portal", "add", &url]));
    assert!(!w.xen(&["sync", "dev"]));
    let line = w.err.lines().nth(1).unwrap();
    let command = line
        .split_once("suggest: xen ")
        .and_then(|(_, c)| c.strip_suffix(')'))
        .unwrap()
        .replace("<branch>", "main");
    let words: Vec<&str> = command.split(' ').collect();
    assert_eq!(words, ["env", "set", "foo.branchtypes.dev=main"]);
    assert!(w.xen(&words));
    assert!(w.xen(&["env", "get", "foo.branchtypes.dev"]));
    assert_eq!(w.out, "main\n");
    assert!(w.xen(&["sync", "dev"]));
}

#[test]
fn sync_attempts_every_repo_and_counts_failures() {
    let mut w = World::new();
    for name in ["a", "b", "c"] {
        let url = w.remote(name);
        assert!(w.xen(&["portal", "add", &url]));
    }
    w.remotes.get_mut("file:///remotes/a.git").unwrap().branches.remove("main");
    assert!(!w.xen(&["sync", "refs/heads/main"]));
    assert_eq!(w.out, "  b: main\n  c: main\n");
    assert_eq!(
        w.err,
        "  a: [\"git\", \"fetch\", \"origin\", \"main\"] failed: \
         fatal: couldn't find remote ref main\nxen: sync: 1 repo(s) failed\n"
    );
    // The failed fetch was not followed by a checkout.
    assert!(!w.spawned.iter().any(|(d, a)| d == "/ws/a" && a.contains(&"checkout".to_string())));
}

#[test]
fn sync_fast_forwards_each_repo() {
    let mut w = World::new();
    let url = w.remote("foo");
    assert!(w.xen(&["portal", "add", &url, "--alias", "dev=develop"]));
    let remote = w.remotes.get_mut(&url).unwrap();
    remote.branches.insert("develop".to_string(), "sha-new".to_string());
    let local = w.locals.get_mut("/ws/foo").unwrap();
    local.branches.insert("develop".to_string(), "sha-old".to_string());
    w.spawned.clear();
    assert!(w.xen(&["sync", "dev"]));
    assert_eq!(w.head("/ws/foo"), "sha-new");
    assert_eq!(w.locals["/ws/foo"].branch.as_deref(), Some("develop"));
    let argv: Vec<String> = w.spawned.iter().map(|(_, a)| a.join(" ")).collect();
    assert_eq!(
        argv,
        [
            "git fetch origin develop".to_string(),
            "git branch --list -- develop".to_string(),
            "git checkout develop".to_string(),
            "git merge --ff-only origin/develop".to_string(),
        ]
    );
}

#[test]
fn sync_creates_a_branch_that_the_repo_lacks() {
    let mut w = World::new();
    let url = w.remote("foo");
    assert!(w.xen(&["portal", "add", &url]));
    // A tag of the same name does not stand in for the branch.
    let remote = w.remotes.get_mut(&url).unwrap();
    remote.branches.insert("v1".to_string(), "sha-branch".to_string());
    remote.tags.insert("v1".to_string(), "sha-tag".to_string());
    w.spawned.clear();
    assert!(w.xen(&["sync", "refs/heads/v1"]));
    let argv: Vec<String> = w.spawned.iter().map(|(_, a)| a.join(" ")).collect();
    assert_eq!(
        argv,
        [
            "git fetch origin v1".to_string(),
            "git branch --list -- v1".to_string(),
            "git checkout -b v1 origin/v1".to_string(),
            "git merge --ff-only origin/v1".to_string(),
        ]
    );
    assert_eq!(w.locals["/ws/foo"].branch.as_deref(), Some("v1"));
    assert_eq!(w.head("/ws/foo"), "sha-branch");
}

#[test]
fn sync_never_drops_local_commits() {
    let mut w = World::new();
    for name in ["a", "b"] {
        let url = w.remote(name);
        assert!(w.xen(&["portal", "add", &url]));
    }
    let local = w.locals.get_mut("/ws/a").unwrap();
    local.head = "mine".to_string();
    local.branches.insert("main".to_string(), "mine".to_string());
    local.diverged.insert("main".to_string());
    assert!(!w.xen(&["sync", "refs/heads/main"]));
    assert_eq!(w.locals["/ws/a"].branches["main"], "mine");
    assert_eq!(w.head("/ws/a"), "mine");
    assert_eq!(w.out.as_str(), "  b: main\n");
    assert_eq!(
        w.err,
        "  a: [\"git\", \"merge\", \"--ff-only\", \"origin/main\"] failed: \
         fatal: Not possible to fast-forward, aborting.\nxen: sync: 1 repo(s) failed\n"
    );
}

#[test]
fn sync_goes_to_tags() {
    let mut w = World::new();
    let url = w.remote("upstream");
    w.remotes.get_mut(&url).unwrap().tags.insert("v1".to_string(), "sha-v1".to_string());
    assert!(w.xen(&["portal", "add", &url]));
    assert!(w.xen(&["sync", "refs/tags/v1"]));
    assert_eq!(w.out, "  upstream: v1\nok: 1 repos synced to v1\n");
    assert_eq!(w.head("/ws/upstream"), "sha-v1");
}

#[test]
fn sync_needs_a_repo() {
    let mut w = World::new();
    assert!(!w.xen(&["sync", "main"]));
    assert_eq!(w.err, "xen: sync: no repos registered\n");
}

// --- summon -----------------------------------------------------------------

#[test]
fn summon_paths_writes_sparse_spec_and_reconciles() {
    let mut w = World::new();
    let url = w.remote("upstream");
    assert!(w.xen(&["portal", "add", &url]));
    assert!(w.xen(&["summon", "upstream", "--paths", "src/"]));
    assert!(w.xen(&["env"]));
    assert!(w.out.contains("sparse specs"), "{}", w.out);
    assert!(w.shows("/ws/upstream/src/lib.rs"));
    assert_eq!(w.locals["/ws/upstream"].cone, Some(vec!["src/".to_string()]));
    // The spec lives in env: a bare summon applies the same one.
    w.locals.get_mut("/ws/upstream").unwrap().cone = None;
    assert!(w.xen(&["summon"]));
    assert_eq!(w.locals["/ws/upstream"].cone, Some(vec!["src/".to_string()]));
    // And unsetting it widens back out.
    assert!(w.xen(&["env", "unset", "upstream.paths"]));
    assert!(w.xen(&["summon", "upstream"]));
    assert_eq!(w.locals["/ws/upstream"].cone, None);
}

#[test]
fn summon_paths_needs_one_repo() {
    let mut w = World::new();
    assert!(!w.xen(&["summon", "--paths", "src/"]));
    assert_eq!(w.err, "xen: summon --paths requires exactly one repo\n");
    assert!(!w.xen(&["summon", "a", "b", "--paths", "src/"]));
    assert_eq!(w.err, "xen: summon --paths requires exactly one repo\n");
    assert!(w.shared.is_none());
}

#[test]
fn summon_refuses_unknown_repos() {
    let mut w = World::new();
    let url = w.remote("upstream");
    assert!(w.xen(&["portal", "add", &url]));
    assert!(!w.xen(&["summon", "upstream", "nope"]));
    assert_eq!(w.err, "xen: summon: unknown repo \"nope\"\n");
    assert_eq!(w.out, "");
}

#[test]
fn summon_keeps_going_and_counts_failures() {
    let mut w = World::new();
    assert!(w.xen(&["env", "set", "a.at=a"]));
    let url = w.remote("b");
    assert!(w.xen(&["portal", "add", &url]));
    assert!(w.xen(&["env", "set", "c.url=file:///gone.git"]));
    assert!(!w.xen(&["summon"]));
    assert_eq!(w.out, "  b: ok\n");
    assert!(w.err.starts_with("  a: no url recorded\n  c: [\"git\", \"clone\","));
    assert!(w.err.ends_with("xen: summon: 2 repo(s) failed\n"));
}

#[test]
fn summon_clones_what_is_not_there() {
    let mut w = World::new();
    let url = w.remote("upstream");
    assert!(w.xen(&["env", "set", &format!("foo.url={url}")]));
    assert!(w.xen(&["env", "set", "foo.at=libs/foo"]));
    assert!(w.xen(&["summon"]));
    assert!(w.shows("/ws/libs/foo/README.md"));
}

#[test]
fn summon_moves_a_clean_tree_to_its_new_placement() {
    let mut w = World::new();
    let url = w.remote("foo");
    assert!(w.xen(&["portal", "add", &url]));
    assert!(w.xen(&["summon"]));
    w.locals.get_mut("/ws/foo").unwrap().head = "local-commit".to_string();
    assert!(w.xen(&["env", "set", "foo.at=services/foo"]));
    assert!(w.xen(&["summon"]));
    assert!(!w.on_disk("/ws/foo"));
    assert_eq!(w.head("/ws/services/foo"), "local-commit");
}

#[test]
fn a_move_is_one_rename_and_no_clone() {
    let mut w = World::new();
    let url = w.remote("foo");
    assert!(w.xen(&["portal", "add", &url]));
    assert!(w.xen(&["env", "set", "foo.at=services/foo"]));
    w.spawned.clear();
    assert!(w.xen(&["summon", "foo"]));
    let argv: Vec<String> = w.spawned.iter().map(|(d, a)| format!("{d}: {}", a.join(" "))).collect();
    assert_eq!(
        argv,
        [
            "/ws/foo: git status --porcelain".to_string(),
            "/ws/services/foo: git symbolic-ref --short HEAD".to_string(),
            "/ws/services/foo: git checkout main".to_string(),
            "/ws/services/foo: git sparse-checkout disable".to_string(),
        ]
    );
}

#[test]
fn summon_compares_placements_by_components() {
    let mut w = World::new();
    let url = w.remote("foo");
    // What stands at the placement of `foo` is no stray tree of `twin`.
    assert!(w.xen(&["env", "set", &format!("foo.url={url}")]));
    assert!(w.xen(&["env", "set", "foo.at=./libs/./x/../foo"]));
    assert!(w.xen(&["env", "set", &format!("twin.url={url}")]));
    assert!(w.xen(&["env", "set", "twin.at=twin"]));
    assert!(w.xen(&["summon", "twin"]));
    let tree = w.locals.remove("/ws/twin").unwrap();
    w.locals.insert("/ws/libs/foo".to_string(), tree);
    assert!(w.xen(&["summon", "twin"]));
    assert!(w.on_disk("/ws/libs/foo"));
    assert!(w.on_disk("/ws/twin"));
}

#[test]
fn summon_never_moves_a_dirty_tree() {
    let mut w = World::new();
    let url = w.remote("foo");
    assert!(w.xen(&["portal", "add", &url]));
    assert!(w.xen(&["summon"]));
    w.locals.get_mut("/ws/foo").unwrap().dirty = true;
    assert!(w.xen(&["env", "set", "foo.at=services/foo"]));
    assert!(!w.xen(&["summon"]));
    assert_eq!(
        w.err,
        "  foo: working tree at /ws/foo is dirty, not moved to /ws/services/foo\n\
         xen: summon: 1 repo(s) failed\n"
    );
    assert!(w.on_disk("/ws/foo"));
    assert!(!w.on_disk("/ws/services/foo"));
}

#[test]
fn summon_does_not_guess_between_two_trees() {
    let mut w = World::new();
    let url = w.remote("foo");
    assert!(w.xen(&["portal", "add", &url]));
    let copy = w.locals["/ws/foo"].clone();
    w.locals.insert("/ws/spare".to_string(), copy);
    assert!(w.xen(&["env", "set", "foo.at=services/foo"]));
    assert!(!w.xen(&["summon"]));
    assert!(w.err.starts_with(&format!("  foo: 2 working trees of {url}: foo, spare\n")));
}

#[test]
fn summon_leaves_the_trees_of_other_repos_alone() {
    let mut w = World::new();
    let url = w.remote("foo");
    assert!(w.xen(&["portal", "add", &url]));
    // A second registration of the same URL gets a clone of its own.
    assert!(w.xen(&["env", "set", &format!("twin.url={url}")]));
    assert!(w.xen(&["env", "set", "twin.at=./elsewhere/"]));
    assert!(w.xen(&["summon"]));
    assert!(w.on_disk("/ws/foo"));
    assert!(w.locals.keys().any(|k| k.contains("elsewhere")));
}

// --- cascade ----------------------------------------------------------------

#[test]
fn cascade_emits_both_stdout_and_stderr_on_success() {
    let mut w = World::new();
    let url = w.remote("upstream");
    assert!(w.xen(&["portal", "add", &url]));
    assert!(w.xen(&["cascade", "echo XEN_OUT_MARKER; echo XEN_ERR_MARKER 1>&2"]));
    assert!(w.out.contains("XEN_OUT_MARKER"));
    assert!(w.err.contains("XEN_ERR_MARKER"));
    assert!(w.out.contains("=== upstream (ok) ==="));
    assert!(w.err.contains("=== upstream (ok) ==="));
    assert!(w.err.ends_with("cascade: 1 repos, 0 failed\n"));
}

#[test]
fn cascade_runs_command_in_each_repo() {
    let mut w = World::new();
    let url = w.remote("upstream");
    assert!(w.xen(&["portal", "add", &url]));
    assert!(w.xen(&["cascade", "git", "rev-parse", "HEAD"]));
    assert!(w.out.contains("=== upstream (ok) ==="), "got: {}", w.out);
}

#[test]
fn cascade_propagates_git_ssh_command_when_key_is_set() {
    let mut w = World::new();
    let url = w.remote("upstream");
    assert!(w.xen(&["portal", "add", &url]));
    assert!(w.xen(&["env", "set", "upstream.key=/tmp/fake_id_rsa", "--private"]));
    assert!(w.xen(&["cascade", "env"]));
    assert!(w.out.contains("GIT_SSH_COMMAND="), "{}", w.out);
    assert!(w.out.contains("/tmp/fake_id_rsa"), "{}", w.out);
    assert!(w.out.contains("IdentitiesOnly=yes"), "{}", w.out);
}

#[test]
fn cascade_omits_git_ssh_command_when_no_key() {
    let mut w = World::new();
    let url = w.remote("upstream");
    assert!(w.xen(&["portal", "add", &url]));
    assert!(w.xen(&["cascade", "env"]));
    assert!(!w.out.contains("GIT_SSH_COMMAND="), "{}", w.out);
}

#[test]
fn cascade_expands_tilde_in_key_path() {
    let mut w = World::new();
    let url = w.remote("upstream");
    assert!(w.xen(&["portal", "add", &url]));
    assert!(w.xen(&["env", "set", "upstream.key=~/.ssh/id_xen", "--private"]));
    assert!(w.xen(&["cascade", "env"]));
    assert!(w.out.contains(&format!("{HOME}/.ssh/id_xen")), "{}", w.out);
    assert!(!w.out.contains("~/.ssh/id_xen"), "{}", w.out);
}

#[test]
fn every_git_process_of_a_repo_carries_its_key() {
    let mut w = World::new();
    let url = w.remote("upstream");
    assert!(w.xen(&["env", "set", "upstream.key=/k", "--private"]));
    assert!(w.xen(&["portal", "add", &url, "--alias", "dev=main"]));
    assert!(w.xen(&["summon"]));
    assert!(w.xen(&["sync", "dev"]));
    assert!(w.xen(&["env", "set", "upstream.at=moved"]));
    assert!(w.xen(&["summon"]));
    w.locals.get_mut("/ws/moved").unwrap().dirty = true;
    assert!(w.xen(&["cascade", "--changed-only", "--branch-pattern", "*", "echo hi"]));
    assert!(w.spawned.len() > 10);
    for (spawned, ssh) in w.spawned.iter().zip(&w.ssh) {
        assert_eq!(
            ssh.as_deref(),
            Some("ssh -i '/k' -o IdentitiesOnly=yes"),
            "{spawned:?}"
        );
    }
}

#[test]
fn cascade_reports_failures_and_exits_so() {
    let mut w = World::new();
    for name in ["a", "b"] {
        let url = w.remote(name);
        assert!(w.xen(&["portal", "add", &url]));
    }
    assert!(!w.xen(&["cascade", "exit 3"]));
    assert_eq!(w.out, "=== a (exit 3) ===\n=== b (exit 3) ===\n");
    // The summary is the last thing said: a failed cascade has no error text.
    assert_eq!(w.err, "cascade: 2 repos, 2 failed\n");
}

#[test]
fn cascade_filters_by_change_and_branch() {
    let mut w = World::new();
    for name in ["clean", "dirty", "gone", "unpushed"] {
        let url = w.remote(name);
        assert!(w.xen(&["portal", "add", &url]));
    }
    w.locals.get_mut("/ws/dirty").unwrap().dirty = true;
    w.locals.get_mut("/ws/unpushed").unwrap().unpushed = true;
    w.locals.get_mut("/ws/unpushed").unwrap().branch = Some("feature/x".to_string());
    w.locals.remove("/ws/gone");
    assert!(w.xen(&["cascade", "--changed-only", "echo hi"]));
    assert_eq!(w.out, "=== dirty (ok) ===\nhi\n=== unpushed (ok) ===\nhi\n");
    assert!(w.xen(&["cascade", "--branch-pattern", "feature/*", "echo hi"]));
    assert_eq!(w.out, "=== unpushed (ok) ===\nhi\n");
    assert!(w.xen(&["cascade", "--changed-only", "--branch-pattern", "main", "echo hi"]));
    assert_eq!(w.out, "=== dirty (ok) ===\nhi\n");
    assert!(w.xen(&["cascade", "--branch-pattern", "nope", "echo hi"]));
    assert_eq!((w.out.as_str(), w.err.as_str()), ("", "cascade: no repos matched\n"));
    assert!(w.xen(&["cascade", "echo hi"]));
    assert!(w.err.ends_with("cascade: 3 repos, 0 failed\n"));
}

// --- rules ------------------------------------------------------------------

#[test]
fn env_rules_set_writes_to_rules_toml() {
    let mut w = World::new();
    let url = w.remote("upstream");
    assert!(w.xen(&["portal", "add", &url]));
    assert!(w.xen(&["env", "rules", "set", "no-x.pattern=^git x"]));
    assert_eq!(w.out, "rules: set no-x.pattern\n");
    let rules = w.rules.unwrap();
    assert_eq!(rules.rules.get("no-x").unwrap().pattern.as_deref(), Some("^git x"));
    assert!(!w.shared.unwrap().repos.contains_key("no-x"));
}

#[test]
fn env_rules_get_field_and_whole_rule() {
    let mut w = World::new();
    let url = w.remote("upstream");
    assert!(w.xen(&["portal", "add", &url]));
    assert!(w.xen(&["env", "rules", "set", "guard.pattern=foo"]));
    assert!(w.xen(&["env", "rules", "set", "guard.predicate=exit 0"]));
    assert!(w.xen(&["env", "rules", "set", "guard.message=nope"]));
    assert!(w.xen(&["env", "rules", "get", "guard.pattern"]));
    assert!(w.out.contains("foo"));
    assert!(w.xen(&["env", "rules", "get", "guard"]));
    assert!(w.out.contains("pattern"));
    assert!(w.out.contains("predicate"));
    assert!(w.out.contains("nope"));
    assert_eq!(w.out, "pattern   = foo\npredicate = exit 0\nmessage   = nope\n");
}

#[test]
fn env_rules_unset_whole_rule() {
    let mut w = World::new();
    let url = w.remote("upstream");
    assert!(w.xen(&["portal", "add", &url]));
    assert!(w.xen(&["env", "rules", "set", "guard.pattern=foo"]));
    assert!(w.xen(&["env", "rules", "set", "guard.predicate=exit 0"]));
    assert!(w.xen(&["env", "rules", "unset", "guard"]));
    assert!(w.out.contains("removed rule guard"));
    assert!(w.xen(&["env", "rules", "list"]));
    assert!(w.out.contains("protect-main-push"), "{}", w.out);
    assert!(!w.out.contains("guard"), "{}", w.out);
}

#[test]
fn cascade_aborts_on_rule_denial_before_running_user_command() {
    let mut w = World::new();
    let url = w.remote("upstream");
    assert!(w.xen(&["portal", "add", &url]));
    assert!(w.xen(&["summon"]));
    assert!(w.xen(&["env", "rules", "set", "no-danger.pattern=danger"]));
    assert!(w.xen(&["env", "rules", "set", "no-danger.predicate=exit 1"]));
    assert!(w.xen(&["env", "rules", "set", "no-danger.message=danger word"]));
    assert!(!w.xen(&["cascade", "touch SENTINEL_danger && echo danger word"]));
    assert!(w.err.contains("no-danger"));
    assert!(w.err.contains("denied"));
    assert_eq!(w.err, "xen: rule \"no-danger\" denied: danger word (in upstream)\n");
    assert!(!w.shows("/ws/upstream/SENTINEL_danger"));
}

#[test]
fn cascade_allows_when_no_rule_matches() {
    let mut w = World::new();
    let url = w.remote("upstream");
    assert!(w.xen(&["portal", "add", &url]));
    assert!(w.xen(&["summon"]));
    assert!(w.xen(&["env", "rules", "set", "no-danger.pattern=danger"]));
    assert!(w.xen(&["env", "rules", "set", "no-danger.predicate=exit 1"]));
    assert!(w.xen(&["cascade", "echo safe"]));
}

#[test]
fn a_denial_in_the_last_repo_stops_all() {
    let mut w = World::new();
    for name in ["a", "b"] {
        let url = w.remote(name);
        assert!(w.xen(&["portal", "add", &url]));
    }
    w.locals.get_mut("/ws/a").unwrap().branch = Some("work".to_string());
    w.spawned.clear();
    assert!(!w.xen(&["cascade", "git commit -m wip"]));
    assert!(w.err.contains("protect-main-commit"));
    assert!(w.err.contains("(in b)"));
    assert!(!w.spawned.iter().any(|(_, a)| a.contains(&"git commit -m wip".to_string())));
}

#[test]
fn default_protect_main_commit_blocks_commit_on_main() {
    let mut w = World::new();
    let url = w.remote("upstream");
    assert!(w.xen(&["portal", "add", &url]));
    assert!(w.xen(&["summon"]));
    assert!(!w.xen(&["cascade", "git commit -m wip"]));
    assert!(w.err.contains("protect-main-commit"));
}

// --- resonate ---------------------------------------------------------------

fn scratch(w: &mut World) -> String {
    let src = "/tmp/scratch".to_string();
    for d in ["/tmp/scratch", "/tmp/scratch/src", "/tmp/scratch/docs"] {
        w.make_dir(d);
    }
    for (f, body) in [
        ("README.md", "scratch readme\n"),
        ("Cargo.toml", "[package]\nname = \"scratch\"\n"),
        ("src/lib.rs", "// lib\n"),
        ("src/main.rs", "fn main() {}\n"),
        ("docs/guide.md", "guide\n"),
    ] {
        w.files.insert(format!("{src}/{f}"), body.to_string());
    }
    src
}

fn with_portal() -> World {
    let mut w = World::new();
    let url = w.remote("scratch");
    assert!(w.xen(&["portal", "add", &url]));
    w
}

#[test]
fn resonate_copies_directory_into_placement_root() {
    let mut w = with_portal();
    let src = scratch(&mut w);
    assert!(w.xen(&["resonate", "scratch", "--source", &src]));
    for f in ["README.md", "Cargo.toml", "src/lib.rs", "src/main.rs", "docs/guide.md"] {
        assert!(w.files.contains_key(&format!("/ws/scratch/{f}")), "{f}");
    }
    assert!(w.shows("/ws/scratch/.git"));
    assert_eq!(w.out, "resonate: scratch ← /tmp/scratch (5 files into scratch)\n");
}

#[test]
fn resonate_with_at_drops_into_subpath() {
    let mut w = with_portal();
    let src = scratch(&mut w);
    assert!(w.xen(&["resonate", "scratch", "--at", "vendor/scratch", "--source", &src]));
    assert!(w.files.contains_key("/ws/scratch/vendor/scratch/README.md"));
    assert!(w.files.contains_key("/ws/scratch/vendor/scratch/src/lib.rs"));
    assert!(!w.files.contains_key("/ws/scratch/README.md"));
    assert!(!w.files.contains_key("/ws/scratch/Cargo.toml"));
    assert_eq!(
        w.out,
        "resonate: scratch ← /tmp/scratch (5 files into scratch/vendor/scratch)\n"
    );
}

#[test]
fn resonate_single_file_lands_inside_target_dir() {
    let mut w = with_portal();
    w.files.insert("/tmp/one.txt".to_string(), "single file content\n".to_string());
    assert!(w.xen(&["resonate", "scratch", "--at", "scratch_drop", "--source", "/tmp/one.txt"]));
    assert_eq!(w.files["/ws/scratch/scratch_drop/one.txt"], "single file content\n");
    assert!(w.out.contains("(1 file into "));
}

#[test]
fn resonate_refuses_to_overwrite_existing_files_without_force() {
    let mut w = with_portal();
    let src = scratch(&mut w);
    w.files.insert("/ws/scratch/src/lib.rs".to_string(), "stale\n".to_string());
    assert!(!w.xen(&["resonate", "scratch", "--source", &src]));
    assert!(w.err.contains("already exists"));
    assert_eq!(w.files["/ws/scratch/src/lib.rs"], "stale\n");
    assert!(w.xen(&["resonate", "scratch", "--force", "--source", &src]));
    assert_eq!(w.files["/ws/scratch/src/lib.rs"], "// lib\n");
}

#[test]
fn resonate_unknown_portal_errors_clearly() {
    let mut w = World::new();
    let src = scratch(&mut w);
    assert!(!w.xen(&["resonate", "nonexistent", "--source", &src]));
    assert!(w.err.contains("unknown portal"));
    assert_eq!(w.err, "xen: resonate: unknown portal \"nonexistent\"\n");
}

#[test]
fn resonate_missing_source_errors_clearly() {
    let mut w = with_portal();
    assert!(!w.xen(&["resonate", "scratch", "--source", "/nonexistent/path/xyzzy"]));
    assert!(w.err.contains("does not exist"));
}

#[test]
fn resonate_does_not_touch_manifest_or_gitignore() {
    let mut w = with_portal();
    let src = scratch(&mut w);
    let before = format!("{:?}", w.shared);
    let gi_before = w.gitignore.clone();
    assert!(w.xen(&["resonate", "scratch", "--source", &src]));
    assert_eq!(before, format!("{:?}", w.shared));
    assert_eq!(gi_before, w.gitignore);
}

#[test]
fn resonate_skips_links_and_stays_inside_the_placement() {
    let mut w = with_portal();
    w.make_dir("/tmp/s");
    w.files.insert("/tmp/s/link".to_string(), "x".to_string());
    w.files.insert("/tmp/s/plain".to_string(), "y".to_string());
    assert!(w.xen(&["resonate", "scratch", "--at", "/etc", "--source", "/tmp/s"]));
    assert!(w.files.contains_key("/ws/scratch/etc/plain"));
    assert!(!w.files.contains_key("/ws/scratch/etc/link"));
    assert!(!w.files.contains_key("/etc/plain"));
    assert!(w.out.contains("(1 file into "));
}

#[test]
fn resonate_at_never_leads_out_of_the_placement() {
    let mut w = with_portal();
    let src = scratch(&mut w);
    for at in ["../x", "docs/../../x", "/../x", ".."] {
        assert!(!w.xen(&["resonate", "scratch", "--at", at, "--source", &src]));
        assert_eq!(
            w.err,
            format!("xen: resonate: --at \"{at}\" leads out of the placement\n")
        );
    }
    assert!(w.files.keys().all(|f| f.starts_with("/tmp/")));
    assert!(w.xen(&["resonate", "scratch", "--at", "docs/../notes/./", "--source", &src]));
    assert!(w.files.contains_key("/ws/scratch/notes/README.md"));
}

#[test]
fn resonate_goes_to_where_the_repo_is_placed() {
    let mut w = World::new();
    let src = scratch(&mut w);
    assert!(w.xen(&["env", "set", "foo.url=h/bar.git"]));
    assert!(w.xen(&["resonate", "foo", "--source", &src]));
    assert!(w.files.contains_key("/ws/bar/README.md"));
    assert!(w.xen(&["env", "get", "foo.at"]));
    assert_eq!(w.out, "bar\n");
    // The block of `.gitignore` and the overlap check go by the same rule.
    w.ignore();
    assert!(w.gitignore.as_deref().unwrap().contains("\n/bar/\n"));
    let url = w.remote("new");
    assert!(!w.xen(&["portal", "add", &url, "--at", "bar/x"]));
    assert!(w.err.contains("overlaps with repo \"foo\" at \"bar\""));
    assert!(w.xen(&["portal", "add", &url, "--at", "foo"]));
}

// --- hooks ------------------------------------------------------------------

#[test]
fn post_hook_fires_after_matching_verb() {
    let mut w = World::new();
    assert!(w.xen(&["env", "hooks", "set", "marker.match=^env$"]));
    assert!(w.xen(&["env", "hooks", "set", "marker.exec=touch /ws/.post-hook-marker"]));
    assert!(!w.files.contains_key("/ws/.post-hook-marker"));
    assert!(w.xen(&["env"]));
    assert!(w.files.contains_key("/ws/.post-hook-marker"));
}

#[test]
fn pre_hook_fires_before_verb_and_can_abort() {
    let mut w = World::new();
    assert!(w.xen(&["env", "hooks", "set", "blocker.match=^env$"]));
    assert!(w.xen(&["env", "hooks", "set", "blocker.exec=exit 7"]));
    assert!(w.xen(&["env", "hooks", "set", "blocker.when=pre"]));
    assert!(!w.xen(&["env"]));
    assert!(w.err.contains("blocker"));
    assert_eq!(w.err, "xen: hook \"blocker\" (pre) failed: exit 7\n");
    // The verb did not run.
    assert_eq!(w.out, "");
}

#[test]
fn hook_does_not_fire_when_pattern_does_not_match() {
    let mut w = World::new();
    assert!(w.xen(&["env", "hooks", "set", "h.match=^sync$"]));
    assert!(w.xen(&["env", "hooks", "set", "h.exec=touch /ws/.should-not-exist"]));
    assert!(w.xen(&["env"]));
    assert!(!w.files.contains_key("/ws/.should-not-exist"));
}

#[test]
fn post_hook_failure_fails_the_command() {
    let mut w = World::new();
    assert!(w.xen(&["env", "hooks", "set", "fail-after.match=^env$"]));
    assert!(w.xen(&["env", "hooks", "set", "fail-after.exec=exit 3"]));
    assert!(!w.xen(&["env"]));
    assert!(w.err.contains("fail-after"));
    // The verb itself ran.
    assert_eq!(w.out, "0 repos registered\n");
}

#[test]
fn incomplete_hook_is_inactive_and_does_not_break_xen() {
    let mut w = World::new();
    assert!(w.xen(&["env", "hooks", "set", "halfdone.match=^.*$"]));
    assert!(w.xen(&["env"]));
}

#[test]
fn hooks_show_their_output_and_know_the_command() {
    let mut w = World::new();
    assert!(w.xen(&["env", "hooks", "set", "h.match=^portal list$"]));
    assert!(w.xen(&["env", "hooks", "set", "h.exec=env"]));
    assert!(w.xen(&["portal", "list"]));
    assert!(w.out.starts_with("(no repos registered)\n[post h]\n"));
    assert!(w.out.contains("XEN_COMMAND=portal list\n"));
}

#[test]
fn a_failed_verb_has_no_post_hooks() {
    let mut w = World::new();
    assert!(w.xen(&["env", "hooks", "set", "h.match=^sync"]));
    assert!(w.xen(&["env", "hooks", "set", "h.exec=touch /ws/ran"]));
    assert!(!w.xen(&["sync", "main"]));
    assert!(!w.files.contains_key("/ws/ran"));
}

// --- generated layouts ------------------------------------------------------

struct Rng(u64);

impl Rng {
    fn new(seed: u64) -> Self {
        Self(seed.wrapping_add(0x9E37_79B9_7F4A_7C15))
    }
    fn next_u64(&mut self) -> u64 {
        self.0 = self.0.wrapping_add(0x9E37_79B9_7F4A_7C15);
        let mut z = self.0;
        z = (z ^ (z >> 30)).wrapping_mul(0xBF58_476D_1CE4_E5B9);
        z = (z ^ (z >> 27)).wrapping_mul(0x94D0_49BB_1331_11EB);
        z ^ (z >> 31)
    }
    /// inclusive `lo..=hi`
    fn range(&mut self, lo: usize, hi: usize) -> usize {
        lo + (self.next_u64() as usize) % (hi - lo + 1)
    }
    fn pick<'a, T>(&mut self, xs: &'a [T]) -> &'a T {
        &xs[(self.next_u64() as usize) % xs.len()]
    }
    fn chance(&mut self, num: u32, den: u32) -> bool {
        (self.next_u64() as u32) % den < num
    }
}

#[derive(Debug, Clone)]
struct Layout {
    repos: Vec<RepoSpec>,
}

#[derive(Debug, Clone)]
struct RepoSpec {
    name: String,
    placement: String,
    branches: Vec<String>,
    branchtypes: BTreeMap<String, String>,
    files: Vec<String>,
}

const REPO_NAMES: &[&str] = &[
    "api", "web", "worker", "gateway", "billing", "search", "cache", "queue", "scheduler",
    "notifier", "frontend", "backend", "shared", "metrics", "logger", "router", "proxy", "ingest",
];

const PLACEMENT_PREFIXES: &[&str] = &["", "services/", "libs/", "apps/", "modules/"];
const FILE_DIRS: &[&str] = &["src", "tests", "docs", "lib", "internal"];

fn gen_layout(seed: u64) -> Layout {
    let mut rng = Rng::new(seed);
    let n = rng.range(2, 6);

    let mut names: Vec<String> = REPO_NAMES.iter().map(|s| s.to_string()).collect();
    for i in (1..names.len()).rev() {
        let j = (rng.next_u64() as usize) % (i + 1);
        names.swap(i, j);
    }
    names.truncate(n);

    let mut repos: Vec<RepoSpec> = Vec::new();
    for name in &names {
        let prefix = rng.pick(PLACEMENT_PREFIXES);
        let placement = format!("{prefix}{name}");
        if repos
            .iter()
            .any(|r| xen::verbs::portal::paths_overlap(&placement, &r.placement))
        {
            continue;
        }

        let mut branches = vec!["main".to_string()];
        if rng.chance(60, 100) {
            branches.push("develop".to_string());
        }
        if rng.chance(40, 100) {
            branches.push("release".to_string());
        }
        if rng.chance(20, 100) {
            branches.push("trunk".to_string());
        }

        let mut branchtypes = BTreeMap::new();
        branchtypes.insert("main".to_string(), "main".to_string());
        if branches.iter().any(|b| b == "develop") {
            branchtypes.insert("dev".to_string(), "develop".to_string());
        }
        if branches.iter().any(|b| b == "release") {
            branchtypes.insert("release".to_string(), "release".to_string());
        }
        if branches.iter().any(|b| b == "trunk") {
            branchtypes.insert("trunk".to_string(), "trunk".to_string());
        }

        let blocks = rng.range(1, 4);
        let mut files = Vec::new();
        for _ in 0..blocks {
            let d = rng.pick(FILE_DIRS);
            let count = rng.range(1, 3);
            for k in 0..count {
                files.push(format!("{d}/file{k}.txt"));
            }
        }
        files.sort();
        files.dedup();

        repos.push(RepoSpec {
            name: name.clone(),
            placement,
            branches,
            branchtypes,
            files,
        });
    }

    assert!(!repos.is_empty(), "seed {seed}: empty layout");
    Layout { repos }
}

struct Bed {
    layout: Layout,
    world: World,
    urls: BTreeMap<String, String>,
}

/// A workspace in which every repo of the layout is portaled.
fn setup(seed: u64) -> Bed {
    let layout = gen_layout(seed);
    let mut world = World::new();
    let mut urls = BTreeMap::new();
    for spec in &layout.repos {
        let url = world.remote(&spec.name);
        let remote = world.remotes.get_mut(&url).unwrap();
        remote.files.extend(spec.files.iter().cloned());
        for b in &spec.branches {
            remote.branches.insert(b.clone(), format!("sha-{}-{b}", spec.name));
        }
        urls.insert(spec.name.clone(), url);
    }
    for spec in &layout.repos {
        let mut words = vec![
            "portal".to_string(),
            "add".to_string(),
            urls[&spec.name].clone(),
            "--at".to_string(),
            spec.placement.clone(),
        ];
        for (k, v) in &spec.branchtypes {
            words.push("--alias".to_string());
            words.push(format!("{k}={v}"));
        }
        let words: Vec<&str> = words.iter().map(|s| s.as_str()).collect();
        assert!(world.xen(&words), "seed {seed}: {}", world.err);
    }
    Bed { layout, world, urls }
}

impl Bed {
    fn dir(&self, spec: &RepoSpec) -> String {
        format!("{ROOT}/{}", spec.placement)
    }

    fn assert_sync_truth(&self, seed: u64, branchtype: &str) {
        for spec in &self.layout.repos {
            let branch = &spec.branchtypes[branchtype];
            let truth = &self.world.remotes[&self.urls[&spec.name]].branches[branch];
            assert_eq!(
                &self.world.head(&self.dir(spec)),
                truth,
                "seed {seed}: sync {branchtype}: {} HEAD mismatch",
                spec.name
            );
        }
    }

    fn capture_heads(&self) -> BTreeMap<String, String> {
        self.layout
            .repos
            .iter()
            .map(|s| (s.name.clone(), self.world.head(&self.dir(s))))
            .collect()
    }
}

fn parse_cascade_output(s: &str) -> BTreeMap<String, String> {
    let mut out: BTreeMap<String, String> = BTreeMap::new();
    let mut current: Option<String> = None;
    let mut buf = String::new();
    for line in s.lines() {
        if let Some(rest) = line.strip_prefix("=== ") {
            if let Some(name) = current.take() {
                out.insert(name, std::mem::take(&mut buf));
            }
            let name_end = rest.find(" (").unwrap_or(rest.len());
            current = Some(rest[..name_end].to_string());
        } else if current.is_some() {
            if !buf.is_empty() {
                buf.push('\n');
            }
            buf.push_str(line);
        }
    }
    if let Some(name) = current.take() {
        out.insert(name, buf);
    }
    out
}

const SEEDS: &[u64] = &[1, 2, 3, 5, 7, 11, 13, 17, 19, 23];

#[test]
fn property_portal_then_verify() {
    for &seed in SEEDS {
        let bed = setup(seed);
        for spec in &bed.layout.repos {
            let dir = bed.dir(spec);
            assert!(bed.world.shows(&format!("{dir}/.git")), "seed {seed}: no {dir}");
            assert_eq!(
                bed.world.locals[&dir].origin, bed.urls[&spec.name],
                "seed {seed}: origin mismatch for {}",
                spec.name
            );
        }
    }
}

#[test]
fn property_sync_main_universal() {
    for &seed in SEEDS {
        let mut bed = setup(seed);
        assert!(bed.world.xen(&["sync", "main"]), "seed {seed}: {}", bed.world.err);
        bed.assert_sync_truth(seed, "main");
    }
}

#[test]
fn property_sync_branchtype_coverage_or_hardfail() {
    let mut universal_succeeded = 0;
    let mut nonuniversal_hardfailed = 0;
    for &seed in SEEDS {
        let mut bed = setup(seed);
        let mut all_bts: BTreeSet<String> = BTreeSet::new();
        for r in &bed.layout.repos {
            all_bts.extend(r.branchtypes.keys().cloned());
        }
        for bt in &all_bts {
            let universal = bed.layout.repos.iter().all(|r| r.branchtypes.contains_key(bt));
            if universal {
                assert!(bed.world.xen(&["sync", bt]), "seed {seed}: {}", bed.world.err);
                bed.assert_sync_truth(seed, bt);
                universal_succeeded += 1;
            } else {
                let before = bed.capture_heads();
                assert!(!bed.world.xen(&["sync", bt]));
                assert!(bed.world.err.contains("no mapping for branchtype"));
                let after = bed.capture_heads();
                assert_eq!(before, after, "seed {seed}: sync {bt} hard-failed but mutated HEADs");
                nonuniversal_hardfailed += 1;
            }
        }
    }
    assert!(universal_succeeded > 0);
    assert!(nonuniversal_hardfailed > 0);
}

#[test]
fn property_cascade_matches_git_truth() {
    for &seed in SEEDS {
        let mut bed = setup(seed);
        assert!(bed.world.xen(&["cascade", "git", "rev-parse", "HEAD"]));
        let parsed = parse_cascade_output(&bed.world.out);
        for spec in &bed.layout.repos {
            let truth = bed.world.head(&bed.dir(spec));
            let says = parsed
                .get(&spec.name)
                .unwrap_or_else(|| panic!("seed {seed}: cascade missing repo {}", spec.name));
            assert_eq!(says.trim(), truth, "seed {seed}: {}", spec.name);
        }
    }
}

#[test]
fn property_summon_idempotent() {
    for &seed in SEEDS {
        let mut bed = setup(seed);
        assert!(bed.world.xen(&["summon"]), "seed {seed}: {}", bed.world.err);
        let a = bed.capture_heads();
        assert!(bed.world.xen(&["summon"]), "seed {seed}: {}", bed.world.err);
        let b = bed.capture_heads();
        assert_eq!(a, b, "seed {seed}: summon not idempotent");
    }
}
