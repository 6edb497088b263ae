//! The policy document: per-command policies, reusable templates, and the
//! resolution of a command's `extends` reference.
use vstd::prelude::*;
use crate::text::str_equal;

verus! {

/// The views of a sequence of strings.
pub open spec fn views(v: Seq<String>) -> Seq<Seq<char>> {
    v.map_values(|s: String| s@)
}

/// The index of the last entry of `keys` equal to `k`, or -1 when there is none.
pub open spec fn last_index_of(keys: Seq<Seq<char>>, k: Seq<char>) -> int
    decreases keys.len(),
{
    if keys.len() == 0 {
        -1
    } else if keys.last() == k {
        keys.len() - 1
    } else {
        last_index_of(keys.drop_last(), k)
    }
}

/// The keys of a sequence of entries.
pub open spec fn keys<V>(entries: Seq<(Seq<char>, V)>) -> Seq<Seq<char>> {
    entries.map_values(|e: (Seq<char>, V)| e.0)
}

/// No key occurs twice.
pub open spec fn keys_unique<V>(entries: Seq<(Seq<char>, V)>) -> bool {
    forall|i: int, j: int|
        0 <= i < j < entries.len() ==> #[trigger] entries[i].0 != #[trigger] entries[j].0
}

/// The value stored under `k`.
pub open spec fn lookup<V>(entries: Seq<(Seq<char>, V)>, k: Seq<char>) -> Option<V> {
    let i = last_index_of(keys(entries), k);
    if i >= 0 {
        Some(entries[i].1)
    } else {
        None
    }
}

/// `entries` with the value under `k` replaced by `v`, or with `(k, v)`
/// appended when `k` is new.
pub open spec fn upsert<V>(entries: Seq<(Seq<char>, V)>, k: Seq<char>, v: V) -> Seq<(Seq<char>, V)> {
    let i = last_index_of(keys(entries), k);
    if i >= 0 {
        entries.update(i, (k, v))
    } else {
        entries.push((k, v))
    }
}

/// `last_index_of` gives a position holding the key, or -1 when the key is absent.
pub proof fn lemma_last_index_of_range(keys: Seq<Seq<char>>, k: Seq<char>)
    ensures
        -1 <= last_index_of(keys, k) < keys.len(),
        last_index_of(keys, k) >= 0 ==> keys[last_index_of(keys, k)] == k,
        last_index_of(keys, k) == -1 ==> !keys.contains(k),
    decreases keys.len(),
{
    if keys.len() > 0 {
        lemma_last_index_of_range(keys.drop_last(), k);
        if keys.last() != k && last_index_of(keys, k) == -1 {
            assert forall|j: int| 0 <= j < keys.len() implies keys[j] != k by {
                if j < keys.len() - 1 {
                    assert(keys.drop_last()[j] == keys[j]);
                }
            }
        }
    }
}

/// The entries of a sequence with unique keys stay unique after an upsert.
proof fn lemma_upsert_unique<V>(entries: Seq<(Seq<char>, V)>, k: Seq<char>, v: V)
    requires
        keys_unique(entries),
    ensures
        keys_unique(upsert(entries, k, v)),
{
    let ks = keys(entries);
    lemma_last_index_of_range(ks, k);
    let r = upsert(entries, k, v);
    if last_index_of(ks, k) < 0 {
        assert forall|i: int, j: int| 0 <= i < j < r.len() implies r[i].0 != r[j].0 by {
            if j == entries.len() {
                assert(ks[i] == entries[i].0);
            }
        }
    }
}

/// The position of the last entry whose key is `k`.
pub fn find_key<V>(entries: &Vec<(String, V)>, k: &str) -> (r: Option<usize>)
    ensures
        match r {
            Some(i) => i as int == last_index_of(entries@.map_values(|e: (String, V)| e.0@), k@),
            None => last_index_of(entries@.map_values(|e: (String, V)| e.0@), k@) == -1,
        },
{
    let ghost ks = entries@.map_values(|e: (String, V)| e.0@);
    let mut i: usize = entries.len();
    assert(ks.take(i as int) =~= ks);
    while i > 0
        invariant
            i <= entries@.len(),
            ks == entries@.map_values(|e: (String, V)| e.0@),
            last_index_of(ks.take(i as int), k@) == last_index_of(ks, k@),
        decreases i,
    {
        proof {
            assert(ks.take(i as int).drop_last() =~= ks.take(i - 1));
        }
        if str_equal(entries[i - 1].0.as_str(), k) {
            return Some(i - 1);
        }
        i -= 1;
    }
    assert(ks.take(0) =~= Seq::<Seq<char>>::empty());
    None
}

/// The views of a sequence of string pairs.
pub open spec fn pair_views(v: Seq<(String, String)>) -> Seq<(Seq<char>, Seq<char>)> {
    v.map_values(|e: (String, String)| (e.0@, e.1@))
}

proof fn lemma_pair_views_push(v: Seq<(String, String)>, e: (String, String))
    ensures
        pair_views(v.push(e)) == pair_views(v).push((e.0@, e.1@)),
{
    assert(pair_views(v.push(e)) =~= pair_views(v).push((e.0@, e.1@)));
}

/// Environment variables to set in the sandbox: distinct names, kept in the
/// order in which they were first inserted.
#[derive(Debug)]
pub struct EnvMap {
    entries: Vec<(String, String)>,
}

impl View for EnvMap {
    type V = Seq<(Seq<char>, Seq<char>)>;

    closed spec fn view(&self) -> Seq<(Seq<char>, Seq<char>)> {
        pair_views(self.entries@)
    }
}

impl EnvMap {
    #[verifier::type_invariant]
    spec fn inv(&self) -> bool {
        keys_unique(self@)
    }

    pub fn new() -> (r: EnvMap)
        ensures
            r@ == Seq::<(Seq<char>, Seq<char>)>::empty(),
    {
        let r = EnvMap { entries: Vec::new() };
        assert(r@ =~= Seq::<(Seq<char>, Seq<char>)>::empty());
        r
    }

    pub fn len(&self) -> (r: usize)
        ensures
            r == self@.len(),
    {
        self.entries.len()
    }

    /// The name and value of the `i`-th variable.
    pub fn entry(&self, i: usize) -> (r: (&String, &String))
        requires
            i < self@.len(),
        ensures
            (r.0@, r.1@) == self@[i as int],
    {
        (&self.entries[i].0, &self.entries[i].1)
    }

    pub fn get(&self, key: &str) -> (r: Option<&String>)
        ensures
            match r {
                Some(v) => lookup(self@, key@) == Some(v@),
                None => lookup(self@, key@) is None,
            },
    {
        proof {
            assert(keys(self@) =~= self.entries@.map_values(|e: (String, String)| e.0@));
            lemma_last_index_of_range(keys(self@), key@);
        }
        match find_key(&self.entries, key) {
            Some(i) => Some(&self.entries[i].1),
            None => None,
        }
    }

    /// Sets `key` to `value`, keeping the position of a variable that is
    /// already present; returns the value it replaced.
    pub fn insert(&mut self, key: String, value: String) -> (r: Option<String>)
        ensures
            final(self)@ == upsert(old(self)@, key@, value@),
            match r {
                Some(v) => lookup(old(self)@, key@) == Some(v@),
                None => lookup(old(self)@, key@) is None,
            },
    {
        proof {
            use_type_invariant(&*self);
            assert(keys(self@) =~= self.entries@.map_values(|e: (String, String)| e.0@));
            lemma_last_index_of_range(keys(self@), key@);
            lemma_upsert_unique(self@, key@, value@);
        }
        let ghost before = self@;
        let found = find_key(&self.entries, key.as_str());
        let mut entries: Vec<(String, String)> = Vec::new();
        let mut replaced: Option<String> = None;
        let mut i: usize = 0;
        while i < self.entries.len()
            invariant
                i <= self.entries@.len(),
                before == self@,
                found matches Some(f) ==> f < self.entries@.len(),
                pair_views(entries@) =~= (match found {
                    Some(f) => self@.update(f as int, (key@, value@)),
                    None => self@,
                }).take(i as int),
                match replaced {
                    Some(v) => found matches Some(f) && f < i && self@[f as int].1 == v@,
                    None => !(found matches Some(f) && f < i),
                },
            decreases self.entries@.len() - i,
        {
            let ghost target = match found {
                Some(f) => self@.update(f as int, (key@, value@)),
                None => self@,
            };
            let ghost prev = entries@;
            if found == Some(i) {
                entries.push((key.clone(), value.clone()));
                replaced = Some(self.entries[i].1.clone());
            } else {
                entries.push((self.entries[i].0.clone(), self.entries[i].1.clone()));
            }
            proof {
                lemma_pair_views_push(prev, entries@.last());
                assert(entries@ == prev.push(entries@.last()));
                assert(target.take(i + 1) =~= target.take(i as int).push(target[i as int]));
            }
            i += 1;
        }
        let ghost prev = entries@;
        if found.is_none() {
            entries.push((key, value));
            proof {
                lemma_pair_views_push(prev, entries@.last());
                assert(entries@ == prev.push(entries@.last()));
            }
        }
        proof {
            assert(self@.take(self@.len() as int) =~= self@);
            if let Some(f) = found {
                assert(self@.update(f as int, (key@, value@)).take(self@.len() as int)
                    =~= self@.update(f as int, (key@, value@)));
            }
            assert(pair_views(entries@) =~= upsert(before, key@, value@));
        }
        *self = EnvMap { entries };
        assert(self@ =~= upsert(before, key@, value@));
        replaced
    }

    pub fn duplicate(&self) -> (r: EnvMap)
        ensures
            r@ == self@,
    {
        proof {
            use_type_invariant(self);
        }
        let mut entries: Vec<(String, String)> = Vec::new();
        let mut i: usize = 0;
        while i < self.entries.len()
            invariant
                i <= self.entries@.len(),
                pair_views(entries@) =~= self@.take(i as int),
            decreases self.entries@.len() - i,
        {
            let ghost prev = entries@;
            entries.push((self.entries[i].0.clone(), self.entries[i].1.clone()));
            proof {
                lemma_pair_views_push(prev, entries@.last());
                assert(entries@ == prev.push(entries@.last()));
                assert(self@.take(i + 1) =~= self@.take(i as int).push(self@[i as int]));
            }
            i += 1;
        }
        assert(self@.take(self@.len() as int) =~= self@);
        EnvMap { entries }
    }
}

/// A command's policy as values: what a [`CommandConfig`] holds.
pub struct PolicyView {
    pub enabled: bool,
    pub extends: Option<Seq<char>>,
    pub share: Seq<Seq<char>>,
    pub bind: Seq<Seq<char>>,
    pub ro_bind: Seq<Seq<char>>,
    pub dev_bind: Seq<Seq<char>>,
    pub tmpfs: Seq<Seq<char>>,
    pub env: Seq<(Seq<char>, Seq<char>)>,
    pub unset_env: Seq<Seq<char>>,
}

/// A template's settings as values: what a [`TemplateConfig`] holds.
pub struct TemplateView {
    pub share: Seq<Seq<char>>,
    pub bind: Seq<Seq<char>>,
    pub ro_bind: Seq<Seq<char>>,
}

/// A policy document as values: commands and templates by name, in order.
pub struct ConfigView {
    pub commands: Seq<(Seq<char>, PolicyView)>,
    pub templates: Seq<(Seq<char>, TemplateView)>,
}

/// The sandbox policy of one command.
#[derive(Debug)]
pub struct CommandConfig {
    /// A disabled command may not be run.
    pub enabled: bool,
    /// The name of the template this policy inherits from.
    pub extends: Option<String>,
    /// Names of the namespaces that stay shared with the host.
    pub share: Vec<String>,
    /// Read-write binds, each written `source:dest`.
    pub bind: Vec<String>,
    /// Paths mounted read-only at the same place.
    pub ro_bind: Vec<String>,
    /// Device nodes bound at the same place.
    pub dev_bind: Vec<String>,
    /// Paths that get a fresh tmpfs.
    pub tmpfs: Vec<String>,
    /// Environment variables to set.
    pub env: EnvMap,
    /// Environment variables to unset.
    pub unset_env: Vec<String>,
}

/// Settings that commands can inherit through `extends`.
#[derive(Debug)]
pub struct TemplateConfig {
    pub share: Vec<String>,
    pub bind: Vec<String>,
    pub ro_bind: Vec<String>,
}

impl View for CommandConfig {
    type V = PolicyView;

    open spec fn view(&self) -> PolicyView {
        PolicyView {
            enabled: self.enabled,
            extends: match self.extends {
                Some(s) => Some(s@),
                None => None,
            },
            share: views(self.share@),
            bind: views(self.bind@),
            ro_bind: views(self.ro_bind@),
            dev_bind: views(self.dev_bind@),
            tmpfs: views(self.tmpfs@),
            env: self.env@,
            unset_env: views(self.unset_env@),
        }
    }
}

impl View for TemplateConfig {
    type V = TemplateView;

    open spec fn view(&self) -> TemplateView {
        TemplateView {
            share: views(self.share@),
            bind: views(self.bind@),
            ro_bind: views(self.ro_bind@),
        }
    }
}

/// The settings of a template followed by those of the command; the
/// command's scalars are kept and the `extends` reference is resolved away.
pub open spec fn merge_spec(t: TemplateView, c: PolicyView) -> PolicyView {
    PolicyView {
        extends: None,
        share: t.share + c.share,
        bind: t.bind + c.bind,
        ro_bind: t.ro_bind + c.ro_bind,
        ..c
    }
}

/// The effective policy of a command: merged with the template it extends
/// when that template exists, else its own settings.
pub open spec fn resolve_spec(templates: Seq<(Seq<char>, TemplateView)>, c: PolicyView) -> PolicyView {
    match c.extends {
        Some(name) => match lookup(templates, name) {
            Some(t) => merge_spec(t, c),
            None => PolicyView { extends: None, ..c },
        },
        None => c,
    }
}

/// Commands are enabled unless the document says otherwise.
pub fn default_enabled() -> (r: bool)
    ensures
        r,
{
    true
}

/// A copy of a list of strings.
pub fn clone_strings(v: &Vec<String>) -> (r: Vec<String>)
    ensures
        r@ == v@,
{
    let mut r: Vec<String> = Vec::new();
    let mut i: usize = 0;
    while i < v.len()
        invariant
            i <= v@.len(),
            r@ == v@.take(i as int),
        decreases v@.len() - i,
    {
        r.push(v[i].clone());
        proof {
            assert(v@.take(i + 1) =~= v@.take(i as int).push(v@[i as int]));
        }
        i += 1;
    }
    assert(v@.take(v@.len() as int) =~= v@);
    r
}

/// `front` followed by `back`.
fn concat_strings(front: &Vec<String>, back: Vec<String>) -> (r: Vec<String>)
    ensures
        r@ == front@ + back@,
{
    let mut r = clone_strings(front);
    let mut b = back;
    r.append(&mut b);
    r
}

impl CommandConfig {
    /// An enabled policy with no settings: every namespace isolated, nothing bound.
    pub fn new() -> (r: CommandConfig)
        ensures
            r@.enabled,
            r@.extends is None,
            r@.share.len() == 0,
            r@.bind.len() == 0,
            r@.ro_bind.len() == 0,
            r@.dev_bind.len() == 0,
            r@.tmpfs.len() == 0,
            r@.env.len() == 0,
            r@.unset_env.len() == 0,
    {
        CommandConfig {
            enabled: default_enabled(),
            extends: None,
            share: Vec::new(),
            bind: Vec::new(),
            ro_bind: Vec::new(),
            dev_bind: Vec::new(),
            tmpfs: Vec::new(),
            env: EnvMap::new(),
            unset_env: Vec::new(),
        }
    }

    pub fn duplicate(&self) -> (r: CommandConfig)
        ensures
            r@ == self@,
    {
        let extends = match &self.extends {
            Some(s) => Some(s.clone()),
            None => None,
        };
        CommandConfig {
            enabled: self.enabled,
            extends,
            share: clone_strings(&self.share),
            bind: clone_strings(&self.bind),
            ro_bind: clone_strings(&self.ro_bind),
            dev_bind: clone_strings(&self.dev_bind),
            tmpfs: clone_strings(&self.tmpfs),
            env: self.env.duplicate(),
            unset_env: clone_strings(&self.unset_env),
        }
    }
}

impl TemplateConfig {
    pub fn new() -> (r: TemplateConfig)
        ensures
            r@.share.len() == 0,
            r@.bind.len() == 0,
            r@.ro_bind.len() == 0,
    {
        TemplateConfig { share: Vec::new(), bind: Vec::new(), ro_bind: Vec::new() }
    }
}

/// Why a command cannot be run.
#[derive(Debug, PartialEq, Eq, Structural)]
pub enum CommandError {
    /// The document has no policy under the command's name.
    NotConfigured,
    /// The command's policy has `enabled: false`.
    Disabled,
}

/// A policy document: commands and templates by name, in the order in which
/// they were added. Adding under a name that is present replaces the entry
/// in place, so a document built by [`BwrapConfig::new`] and the insert
/// methods holds each name once.
#[derive(Debug)]
pub struct BwrapConfig {
    commands: Vec<(String, CommandConfig)>,
    templates: Vec<(String, TemplateConfig)>,
}

impl View for BwrapConfig {
    type V = ConfigView;

    closed spec fn view(&self) -> ConfigView {
        ConfigView {
            commands: self.commands@.map_values(|e: (String, CommandConfig)| (e.0@, e.1@)),
            templates: self.templates@.map_values(|e: (String, TemplateConfig)| (e.0@, e.1@)),
        }
    }
}

impl BwrapConfig {
    /// A document without commands or templates.
    pub fn new() -> (r: BwrapConfig)
        ensures
            r@.commands.len() == 0,
            r@.templates.len() == 0,
            keys_unique(r@.commands),
            keys_unique(r@.templates),
    {
        BwrapConfig { commands: Vec::new(), templates: Vec::new() }
    }

    proof fn lemma_command_keys(&self)
        ensures
            keys(self@.commands) == self.commands@.map_values(|e: (String, CommandConfig)| e.0@),
    {
        assert(keys(self@.commands) =~= self.commands@.map_values(
            |e: (String, CommandConfig)| e.0@,
        ));
    }

    proof fn lemma_template_keys(&self)
        ensures
            keys(self@.templates) == self.templates@.map_values(|e: (String, TemplateConfig)| e.0@),
    {
        assert(keys(self@.templates) =~= self.templates@.map_values(
            |e: (String, TemplateConfig)| e.0@,
        ));
    }

    /// Adds the policy of a command, replacing the one already under that name.
    pub fn insert_command(&mut self, name: String, config: CommandConfig)
        ensures
            final(self)@.commands == upsert(old(self)@.commands, name@, config@),
            final(self)@.templates == old(self)@.templates,
            keys_unique(old(self)@.commands) ==> keys_unique(final(self)@.commands),
    {
        proof {
            if keys_unique(self@.commands) {
                lemma_upsert_unique(self@.commands, name@, config@);
            }
            self.lemma_command_keys();
            lemma_last_index_of_range(keys(self@.commands), name@);
        }
        let ghost before = self@;
        let ghost entry = (name@, config@);
        match find_key(&self.commands, name.as_str()) {
            Some(i) => {
                self.commands.remove(i);
                self.commands.insert(i, (name, config));
            },
            None => {
                self.commands.push((name, config));
            },
        }
        assert(self@.commands =~= upsert(before.commands, entry.0, entry.1));
        assert(self@.templates =~= before.templates);
    }

    /// Adds a template, replacing the one already under that name.
    pub fn insert_template(&mut self, name: String, template: TemplateConfig)
        ensures
            final(self)@.templates == upsert(old(self)@.templates, name@, template@),
            final(self)@.commands == old(self)@.commands,
            keys_unique(old(self)@.templates) ==> keys_unique(final(self)@.templates),
    {
        proof {
            if keys_unique(self@.templates) {
                lemma_upsert_unique(self@.templates, name@, template@);
            }
            self.lemma_template_keys();
            lemma_last_index_of_range(keys(self@.templates), name@);
        }
        let ghost before = self@;
        let ghost entry = (name@, template@);
        match find_key(&self.templates, name.as_str()) {
            Some(i) => {
                self.templates.remove(i);
                self.templates.insert(i, (name, template));
            },
            None => {
                self.templates.push((name, template));
            },
        }
        assert(self@.templates =~= upsert(before.templates, entry.0, entry.1));
        assert(self@.commands =~= before.commands);
    }

    pub fn command_count(&self) -> (r: usize)
        ensures
            r == self@.commands.len(),
    {
        self.commands.len()
    }

    pub fn template_count(&self) -> (r: usize)
        ensures
            r == self@.templates.len(),
    {
        self.templates.len()
    }

    /// The name and policy of the `i`-th command.
    pub fn command_at(&self, i: usize) -> (r: (&String, &CommandConfig))
        requires
            i < self@.commands.len(),
        ensures
            (r.0@, r.1@) == self@.commands[i as int],
    {
        (&self.commands[i].0, &self.commands[i].1)
    }

    /// The names of the enabled commands, in document order.
    pub fn enabled_command_names(&self) -> (r: Vec<String>)
        ensures
            views(r@) == keys(self@.commands.filter(|e: (Seq<char>, PolicyView)| e.1.enabled)),
    {
        let ghost cs = self@.commands;
        let ghost pred = |e: (Seq<char>, PolicyView)| e.1.enabled;
        let mut r: Vec<String> = Vec::new();
        let mut i: usize = 0;
        while i < self.commands.len()
            invariant
                i <= cs.len(),
                cs == self@.commands,
                pred == (|e: (Seq<char>, PolicyView)| e.1.enabled),
                views(r@) == keys(cs.take(i as int).filter(pred)),
            decreases cs.len() - i,
        {
            proof {
                reveal(Seq::filter);
                assert(cs.take(i + 1).drop_last() =~= cs.take(i as int));
                assert(cs[i as int] == (self.commands@[i as int].0@, self.commands@[i as int].1@));
            }
            let ghost prev = r@;
            if self.commands[i].1.enabled {
                r.push(self.commands[i].0.clone());
                proof {
                    let f = cs.take(i as int).filter(pred);
                    assert(cs.take(i + 1).filter(pred) == f.push(cs[i as int]));
                    assert(views(r@) =~= views(prev).push(cs[i as int].0));
                    assert(keys(f.push(cs[i as int])) =~= keys(f).push(cs[i as int].0));
                }
            }
            i += 1;
        }
        assert(cs.take(cs.len() as int) =~= cs);
        r
    }

    /// The policy stored under `command`, as written.
    pub fn get_command_config(&self, command: &str) -> (r: Option<CommandConfig>)
        ensures
            match r {
                Some(c) => lookup(self@.commands, command@) == Some(c@),
                None => lookup(self@.commands, command@) is None,
            },
    {
        proof {
            self.lemma_command_keys();
            lemma_last_index_of_range(keys(self@.commands), command@);
        }
        match find_key(&self.commands, command) {
            Some(i) => Some(self.commands[i].1.duplicate()),
            None => None,
        }
    }

    /// The template stored under `name`.
    pub fn get_template(&self, name: &str) -> (r: Option<&TemplateConfig>)
        ensures
            match r {
                Some(t) => lookup(self@.templates, name@) == Some(t@),
                None => lookup(self@.templates, name@) is None,
            },
    {
        proof {
            self.lemma_template_keys();
            lemma_last_index_of_range(keys(self@.templates), name@);
        }
        match find_key(&self.templates, name) {
            Some(i) => Some(&self.templates[i].1),
            None => None,
        }
    }

    /// The effective policy of a command: the settings of the template it
    /// extends come first, then its own. A reference to a template that the
    /// document lacks is dropped and the command keeps its own settings.
    pub fn merge_with_template(&self, cmd_config: CommandConfig) -> (r: CommandConfig)
        ensures
            r@ == resolve_spec(self@.templates, cmd_config@),
    {
        let mut c = cmd_config;
        let ghost c0 = c@;
        let found = match &c.extends {
            Some(name) => self.get_template(name.as_str()),
            None => None,
        };
        match found {
            Some(t) => {
                c.extends = None;
                c.share = concat_strings(&t.share, c.share);
                c.bind = concat_strings(&t.bind, c.bind);
                c.ro_bind = concat_strings(&t.ro_bind, c.ro_bind);
                assert(c@.share =~= merge_spec(t@, c0).share);
                assert(c@.bind =~= merge_spec(t@, c0).bind);
                assert(c@.ro_bind =~= merge_spec(t@, c0).ro_bind);
            },
            None => {
                c.extends = None;
            },
        }
        c
    }

    /// Same as [`BwrapConfig::merge_with_template`].
    pub fn merge_with_base(&self, cmd_config: CommandConfig) -> (r: CommandConfig)
        ensures
            r@ == resolve_spec(self@.templates, cmd_config@),
    {
        self.merge_with_template(cmd_config)
    }

    /// The effective policy of a command that may be run: fails when the
    /// document has no policy for it or the policy is disabled.
    pub fn resolve_command(&self, command: &str) -> (r: Result<CommandConfig, CommandError>)
        ensures
            match r {
                Ok(c) => lookup(self@.commands, command@) matches Some(p)
                    && p.enabled && c@ == resolve_spec(self@.templates, p),
                Err(CommandError::NotConfigured) => lookup(self@.commands, command@) is None,
                Err(CommandError::Disabled) => lookup(self@.commands, command@) matches Some(p)
                    && !p.enabled,
            },
    {
        match self.get_command_config(command) {
            None => Err(CommandError::NotConfigured),
            Some(c) => {
                if !c.enabled {
                    Err(CommandError::Disabled)
                } else {
                    Ok(self.merge_with_template(c))
                }
            },
        }
    }
}

/// Resolution is idempotent: an effective policy has no `extends` left, so
/// resolving it again changes nothing.
pub proof fn lemma_resolve_idempotent(templates: Seq<(Seq<char>, TemplateView)>, c: PolicyView)
    ensures
        resolve_spec(templates, resolve_spec(templates, c)) == resolve_spec(templates, c),
        resolve_spec(templates, c).extends is None,
{
}

/// A command that extends a template the document lacks keeps its own
/// settings; only the dangling reference goes.
pub proof fn lemma_missing_template_fails_open(
    templates: Seq<(Seq<char>, TemplateView)>,
    c: PolicyView,
)
    requires
        c.extends matches Some(name) && lookup(templates, name) is None,
    ensures
        resolve_spec(templates, c) == (PolicyView { extends: None, ..c }),
{
}

} // verus!
