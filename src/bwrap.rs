//! Synthesis of the `bwrap` argument vector from an effective policy.
use vstd::prelude::*;
use crate::bind::{bind_split, expand_path, is_expansion_of, is_plain_path, normalize_bind};
use crate::config::{pair_views, views, CommandConfig, PolicyView};
use crate::namespace::{compute_unshare_set, flag_of, kind_named, unshare_spec, NamespaceKind};

verus! {

/// The namespaces that a list of names shares; names outside the closed set are dropped.
pub open spec fn shared_kinds(names: Seq<Seq<char>>) -> Seq<NamespaceKind>
    decreases names.len(),
{
    if names.len() == 0 {
        Seq::empty()
    } else {
        let rest = shared_kinds(names.drop_last());
        match kind_named(names.last()) {
            Some(k) => rest.push(k),
            None => rest,
        }
    }
}

/// The source and destination of each well-formed bind specification, in order;
/// malformed ones are left out.
pub open spec fn valid_binds(specs: Seq<Seq<char>>) -> Seq<(Seq<char>, Seq<char>)>
    decreases specs.len(),
{
    if specs.len() == 0 {
        Seq::empty()
    } else {
        let rest = valid_binds(specs.drop_last());
        match bind_split(specs.last()) {
            Some(pair) => rest.push(pair),
            None => rest,
        }
    }
}

/// `flag a b` for each pair `(a, b)`, in order.
pub open spec fn triples(flag: Seq<char>, pairs: Seq<(Seq<char>, Seq<char>)>) -> Seq<Seq<char>>
    decreases pairs.len(),
{
    if pairs.len() == 0 {
        Seq::empty()
    } else {
        triples(flag, pairs.drop_last()) + seq![flag, pairs.last().0, pairs.last().1]
    }
}

/// Each path paired with itself.
pub open spec fn doubled(paths: Seq<Seq<char>>) -> Seq<(Seq<char>, Seq<char>)> {
    paths.map_values(|p: Seq<char>| (p, p))
}

/// `flag x` for each item `x`, in order.
pub open spec fn flagged(flag: Seq<char>, items: Seq<Seq<char>>) -> Seq<Seq<char>>
    decreases items.len(),
{
    if items.len() == 0 {
        Seq::empty()
    } else {
        flagged(flag, items.drop_last()) + seq![flag, items.last()]
    }
}

/// The paths that a policy's binds are mounted from and at, once expanded.
pub struct Expansions {
    pub binds: Seq<(Seq<char>, Seq<char>)>,
    pub ro_bind: Seq<Seq<char>>,
    pub dev_bind: Seq<Seq<char>>,
}

/// Each expanded path is an expansion of the path at the same place.
pub open spec fn paths_expanded(raw: Seq<Seq<char>>, e: Seq<Seq<char>>) -> bool {
    &&& e.len() == raw.len()
    &&& forall|i: int| 0 <= i < raw.len() ==> is_expansion_of(raw[i], #[trigger] e[i])
}

/// Each expanded pair is an expansion of the pair at the same place.
pub open spec fn pairs_expanded(raw: Seq<(Seq<char>, Seq<char>)>, e: Seq<(Seq<char>, Seq<char>)>) -> bool {
    &&& e.len() == raw.len()
    &&& forall|i: int|
        0 <= i < raw.len() ==> is_expansion_of(raw[i].0, (#[trigger] e[i]).0)
            && is_expansion_of(raw[i].1, e[i].1)
}

/// `x` holds expansions of the paths that `p` binds.
pub open spec fn expansions_of(p: PolicyView, x: Expansions) -> bool {
    &&& pairs_expanded(valid_binds(p.bind), x.binds)
    &&& paths_expanded(p.ro_bind, x.ro_bind)
    &&& paths_expanded(p.dev_bind, x.dev_bind)
}

/// One `--unshare-*` flag per isolated namespace, in enumeration order.
pub open spec fn unshare_args(share: Seq<Seq<char>>) -> Seq<Seq<char>> {
    unshare_spec(shared_kinds(share)).map_values(|k: NamespaceKind| flag_of(k))
}

/// The argument vector for a policy whose binds expanded to `x`.
pub open spec fn args_spec(p: PolicyView, x: Expansions) -> Seq<Seq<char>> {
    unshare_args(p.share)
        + triples("--bind"@, x.binds)
        + triples("--ro-bind"@, doubled(x.ro_bind))
        + triples("--dev-bind"@, doubled(x.dev_bind))
        + flagged("--tmpfs"@, p.tmpfs)
        + triples("--setenv"@, p.env)
        + flagged("--unsetenv"@, p.unset_env)
}

/// The launcher, its arguments, the target command and the command's arguments.
pub open spec fn command_line_spec(
    p: PolicyView,
    x: Expansions,
    command: Seq<char>,
    command_args: Seq<Seq<char>>,
) -> Seq<Seq<char>> {
    seq!["bwrap"@] + args_spec(p, x) + seq![command] + command_args
}

/// The words of `parts` separated by single spaces.
pub open spec fn join_words(parts: Seq<Seq<char>>) -> Seq<char>
    decreases parts.len(),
{
    if parts.len() == 0 {
        Seq::empty()
    } else if parts.len() == 1 {
        parts[0]
    } else {
        join_words(parts.drop_last()) + seq![' '] + parts.last()
    }
}

/// The process exit code to report: the child's own, or 1 when it has none
/// (it was killed by a signal).
pub fn exit_code(code: Option<i32>) -> (r: i32)
    ensures
        r == match code {
            Some(c) => c,
            None => 1i32,
        },
{
    match code {
        Some(c) => c,
        None => 1,
    }
}

/// The namespaces that `names` shares.
pub fn shared_namespaces(names: &Vec<String>) -> (r: Vec<NamespaceKind>)
    ensures
        r@ == shared_kinds(views(names@)),
{
    let mut r: Vec<NamespaceKind> = Vec::new();
    let mut i: usize = 0;
    while i < names.len()
        invariant
            i <= names@.len(),
            r@ == shared_kinds(views(names@).take(i as int)),
        decreases names@.len() - i,
    {
        proof {
            assert(views(names@).take(i + 1).drop_last() =~= views(names@).take(i as int));
        }
        match NamespaceKind::from_name(names[i].as_str()) {
            Some(k) => r.push(k),
            None => {},
        }
        i += 1;
    }
    assert(views(names@).take(names@.len() as int) =~= views(names@));
    r
}

/// Appends `flag a b` for each pair.
fn push_triples(args: &mut Vec<String>, flag: &str, pairs: &Vec<(String, String)>)
    ensures
        views(final(args)@) == views(old(args)@) + triples(flag@, pair_views(pairs@)),
{
    let ghost start = views(args@);
    let ghost pv = pair_views(pairs@);
    let mut i: usize = 0;
    assert(views(args@) =~= start + triples(flag@, pv.take(0)));
    while i < pairs.len()
        invariant
            i <= pairs@.len(),
            pv == pair_views(pairs@),
            views(args@) =~= start + triples(flag@, pv.take(i as int)),
        decreases pairs@.len() - i,
    {
        proof {
            assert(pv.take(i + 1).drop_last() =~= pv.take(i as int));
        }
        let ghost prev = views(args@);
        args.push(flag.to_owned());
        args.push(pairs[i].0.clone());
        args.push(pairs[i].1.clone());
        assert(views(args@) =~= prev + seq![flag@, pv[i as int].0, pv[i as int].1]);
        i += 1;
    }
    assert(pv.take(pairs@.len() as int) =~= pv);
}

/// Appends `flag p p` for each path.
fn push_same_path(args: &mut Vec<String>, flag: &str, paths: &Vec<String>)
    ensures
        views(final(args)@) == views(old(args)@) + triples(flag@, doubled(views(paths@))),
{
    let ghost start = views(args@);
    let ghost pv = doubled(views(paths@));
    let mut i: usize = 0;
    assert(views(args@) =~= start + triples(flag@, pv.take(0)));
    while i < paths.len()
        invariant
            i <= paths@.len(),
            pv == doubled(views(paths@)),
            views(args@) =~= start + triples(flag@, pv.take(i as int)),
        decreases paths@.len() - i,
    {
        proof {
            assert(pv.take(i + 1).drop_last() =~= pv.take(i as int));
        }
        let ghost prev = views(args@);
        args.push(flag.to_owned());
        args.push(paths[i].clone());
        args.push(paths[i].clone());
        assert(views(args@) =~= prev + seq![flag@, pv[i as int].0, pv[i as int].1]);
        i += 1;
    }
    assert(pv.take(paths@.len() as int) =~= pv);
}

/// Appends `flag x` for each item.
fn push_flagged(args: &mut Vec<String>, flag: &str, items: &Vec<String>)
    ensures
        views(final(args)@) == views(old(args)@) + flagged(flag@, views(items@)),
{
    let ghost start = views(args@);
    let ghost iv = views(items@);
    let mut i: usize = 0;
    assert(views(args@) =~= start + flagged(flag@, iv.take(0)));
    while i < items.len()
        invariant
            i <= items@.len(),
            iv == views(items@),
            views(args@) =~= start + flagged(flag@, iv.take(i as int)),
        decreases items@.len() - i,
    {
        proof {
            assert(iv.take(i + 1).drop_last() =~= iv.take(i as int));
        }
        let ghost prev = views(args@);
        args.push(flag.to_owned());
        args.push(items[i].clone());
        assert(views(args@) =~= prev + seq![flag@, iv[i as int]]);
        i += 1;
    }
    assert(iv.take(items@.len() as int) =~= iv);
}

/// The argument vector of a policy, given the expanded paths of its binds:
/// the unshare flags, then the binds, read-only binds, device binds, tmpfs
/// mounts, variables to set and variables to unset, each group in document order.
pub fn assemble_args(
    policy: &CommandConfig,
    binds: &Vec<(String, String)>,
    ro_bind: &Vec<String>,
    dev_bind: &Vec<String>,
) -> (r: Vec<String>)
    ensures
        views(r@) == args_spec(
            policy@,
            Expansions {
                binds: pair_views(binds@),
                ro_bind: views(ro_bind@),
                dev_bind: views(dev_bind@),
            },
        ),
{
    let mut args: Vec<String> = Vec::new();
    let kinds = compute_unshare_set(&shared_namespaces(&policy.share));
    let mut i: usize = 0;
    while i < kinds.len()
        invariant
            i <= kinds@.len(),
            kinds@ == unshare_spec(shared_kinds(policy@.share)),
            views(args@) =~= kinds@.take(i as int).map_values(|k: NamespaceKind| flag_of(k)),
        decreases kinds@.len() - i,
    {
        let ghost prev = views(args@);
        args.push(kinds[i].unshare_flag().to_owned());
        assert(views(args@) =~= prev.push(flag_of(kinds@[i as int])));
        assert(kinds@.take(i + 1) =~= kinds@.take(i as int).push(kinds@[i as int]));
        i += 1;
    }
    assert(kinds@.take(kinds@.len() as int) =~= kinds@);
    push_triples(&mut args, "--bind", binds);
    push_same_path(&mut args, "--ro-bind", ro_bind);
    push_same_path(&mut args, "--dev-bind", dev_bind);
    push_flagged(&mut args, "--tmpfs", &policy.tmpfs);
    let ghost before_env = views(args@);
    let ghost env = policy@.env;
    let mut j: usize = 0;
    assert(views(args@) =~= before_env + triples("--setenv"@, env.take(0)));
    while j < policy.env.len()
        invariant
            j <= env.len(),
            env == policy@.env,
            views(args@) =~= before_env + triples("--setenv"@, env.take(j as int)),
        decreases env.len() - j,
    {
        proof {
            assert(env.take(j + 1).drop_last() =~= env.take(j as int));
        }
        let (key, value) = policy.env.entry(j);
        let ghost prev = views(args@);
        args.push("--setenv".to_owned());
        args.push(key.clone());
        args.push(value.clone());
        assert(views(args@) =~= prev + seq!["--setenv"@, env[j as int].0, env[j as int].1]);
        j += 1;
    }
    assert(env.take(env.len() as int) =~= env);
    push_flagged(&mut args, "--unsetenv", &policy.unset_env);
    args
}

/// Validates and expands the bind specifications, in order; malformed ones are skipped.
fn expanded_binds(specs: &Vec<String>) -> (r: Vec<(String, String)>)
    ensures
        pairs_expanded(valid_binds(views(specs@)), pair_views(r@)),
{
    let ghost sv = views(specs@);
    let mut r: Vec<(String, String)> = Vec::new();
    let mut i: usize = 0;
    while i < specs.len()
        invariant
            i <= specs@.len(),
            sv == views(specs@),
            pairs_expanded(valid_binds(sv.take(i as int)), pair_views(r@)),
        decreases specs@.len() - i,
    {
        proof {
            assert(sv.take(i + 1).drop_last() =~= sv.take(i as int));
        }
        let ghost prev = pair_views(r@);
        match normalize_bind(specs[i].as_str()) {
            Ok((src, dst)) => {
                let pair = (expand_path(src.as_str()), expand_path(dst.as_str()));
                r.push(pair);
                assert(pair_views(r@) =~= prev.push((pair.0@, pair.1@)));
            },
            Err(_) => {},
        }
        i += 1;
    }
    assert(sv.take(specs@.len() as int) =~= sv);
    r
}

/// Expands each path, in order.
fn expanded_paths(paths: &Vec<String>) -> (r: Vec<String>)
    ensures
        paths_expanded(views(paths@), views(r@)),
{
    let mut r: Vec<String> = Vec::new();
    let mut i: usize = 0;
    while i < paths.len()
        invariant
            i <= paths@.len(),
            paths_expanded(views(paths@).take(i as int), views(r@)),
        decreases paths@.len() - i,
    {
        let ghost prev = views(r@);
        r.push(expand_path(paths[i].as_str()));
        assert(views(r@) =~= prev.push(r@[i as int]@));
        i += 1;
    }
    assert(views(paths@).take(paths@.len() as int) =~= views(paths@));
    r
}

/// The words of `parts` separated by single spaces.
pub fn render(parts: &Vec<String>) -> (r: String)
    ensures
        r@ == join_words(views(parts@)),
{
    let ghost pv = views(parts@);
    let mut r = String::new();
    let mut i: usize = 0;
    assert(pv.take(0) =~= Seq::<Seq<char>>::empty());
    while i < parts.len()
        invariant
            i <= parts@.len(),
            pv == views(parts@),
            r@ == join_words(pv.take(i as int)),
        decreases parts@.len() - i,
    {
        proof {
            assert(pv.take(i + 1).drop_last() =~= pv.take(i as int));
        }
        if i > 0 {
            r.append(" ");
            proof {
                reveal_strlit(" ");
            }
        }
        r.append(parts[i].as_str());
        proof {
            if i == 0 {
                assert(r@ =~= pv.take(1)[0]);
            }
        }
        i += 1;
    }
    assert(pv.take(parts@.len() as int) =~= pv);
    r
}

/// Builds the `bwrap` invocation for one effective policy.
pub struct BwrapBuilder {
    config: CommandConfig,
}

impl View for BwrapBuilder {
    type V = PolicyView;

    closed spec fn view(&self) -> PolicyView {
        self.config@
    }
}

impl BwrapBuilder {
    pub fn new(config: CommandConfig) -> (r: BwrapBuilder)
        ensures
            r@ == config@,
    {
        BwrapBuilder { config }
    }

    /// The launcher arguments: see [`assemble_args`]. Bind paths go through
    /// [`expand_path`], which reads the process environment.
    pub fn build_args(&self) -> (r: Vec<String>)
        ensures
            exists|x: Expansions| expansions_of(self@, x) && views(r@) == args_spec(self@, x),
    {
        let binds = expanded_binds(&self.config.bind);
        let ro_bind = expanded_paths(&self.config.ro_bind);
        let dev_bind = expanded_paths(&self.config.dev_bind);
        let r = assemble_args(&self.config, &binds, &ro_bind, &dev_bind);
        let ghost x = Expansions {
            binds: pair_views(binds@),
            ro_bind: views(ro_bind@),
            dev_bind: views(dev_bind@),
        };
        assert(expansions_of(self@, x));
        r
    }

    /// The whole command line as words: the launcher's name, its arguments,
    /// then the target command and its arguments.
    pub fn command_line(&self, command: &str, command_args: &[String]) -> (r: Vec<String>)
        ensures
            exists|x: Expansions|
                expansions_of(self@, x) && views(r@) == command_line_spec(
                    self@,
                    x,
                    command@,
                    views(command_args@),
                ),
    {
        let mut parts: Vec<String> = Vec::new();
        parts.push("bwrap".to_owned());
        let mut args = self.build_args();
        let ghost x = choose|x: Expansions| expansions_of(self@, x) && views(args@) == args_spec(self@, x);
        let ghost args_view = views(args@);
        let ghost first = views(parts@);
        parts.append(&mut args);
        assert(views(parts@) =~= first + args_view);
        let ghost mid = views(parts@);
        parts.push(command.to_owned());
        assert(views(parts@) =~= mid.push(command@));
        let mut i: usize = 0;
        while i < command_args.len()
            invariant
                i <= command_args@.len(),
                views(parts@) =~= mid.push(command@) + views(command_args@).take(i as int),
            decreases command_args@.len() - i,
        {
            let ghost prev = views(parts@);
            parts.push(command_args[i].clone());
            assert(views(parts@) =~= prev.push(command_args@[i as int]@));
            i += 1;
        }
        assert(views(command_args@).take(command_args@.len() as int) =~= views(command_args@));
        assert(views(parts@) =~= command_line_spec(self@, x, command@, views(command_args@)));
        parts
    }

    /// The command line that [`BwrapBuilder::command_line`] gives, as one
    /// space-separated string (for a dry run).
    pub fn show(&self, command: &str, command_args: &[String]) -> (r: String)
        ensures
            exists|x: Expansions|
                expansions_of(self@, x) && r@ == join_words(
                    command_line_spec(self@, x, command@, views(command_args@)),
                ),
    {
        let parts = self.command_line(command, command_args);
        render(&parts)
    }
}

proof fn lemma_valid_binds_concat(a: Seq<Seq<char>>, b: Seq<Seq<char>>)
    ensures
        valid_binds(a + b) == valid_binds(a) + valid_binds(b),
    decreases b.len(),
{
    if b.len() == 0 {
        assert(a + b =~= a);
        assert(valid_binds(a) + valid_binds(b) =~= valid_binds(a));
    } else {
        lemma_valid_binds_concat(a, b.drop_last());
        assert((a + b).drop_last() =~= a + b.drop_last());
        assert((a + b).last() == b.last());
        match bind_split(b.last()) {
            Some(pair) => {
                assert(valid_binds(a) + valid_binds(b.drop_last()).push(pair) =~= (valid_binds(a)
                    + valid_binds(b.drop_last())).push(pair));
            },
            None => {},
        }
    }
}

/// A malformed bind specification, wherever it stands among the others,
/// contributes nothing: the argument vector is the one of the policy without it.
pub proof fn lemma_malformed_bind_excluded(
    p: PolicyView,
    before: Seq<Seq<char>>,
    bad: Seq<char>,
    after: Seq<Seq<char>>,
    x: Expansions,
)
    requires
        p.bind == before + seq![bad] + after,
        bind_split(bad) is None,
    ensures
        valid_binds(p.bind) == valid_binds(before + after),
        expansions_of(p, x) <==> expansions_of(PolicyView { bind: before + after, ..p }, x),
        args_spec(p, x) == args_spec(PolicyView { bind: before + after, ..p }, x),
{
    lemma_valid_binds_concat(before + seq![bad], after);
    lemma_valid_binds_concat(before, seq![bad]);
    lemma_valid_binds_concat(before, after);
    assert(seq![bad].drop_last() =~= Seq::<Seq<char>>::empty());
    assert(seq![bad].last() == bad);
    assert(valid_binds(seq![bad].drop_last()) =~= Seq::<(Seq<char>, Seq<char>)>::empty());
    assert(valid_binds(seq![bad]) =~= Seq::<(Seq<char>, Seq<char>)>::empty());
    assert(valid_binds(before) + valid_binds(seq![bad]) =~= valid_binds(before));
}

/// Every path that a policy binds is free of environment references and of
/// a leading `~`.
pub open spec fn binds_plain(p: PolicyView) -> bool {
    &&& forall|i: int|
        0 <= i < valid_binds(p.bind).len() ==> is_plain_path(#[trigger] valid_binds(p.bind)[i].0)
            && is_plain_path(valid_binds(p.bind)[i].1)
    &&& forall|i: int| 0 <= i < p.ro_bind.len() ==> is_plain_path(#[trigger] p.ro_bind[i])
    &&& forall|i: int| 0 <= i < p.dev_bind.len() ==> is_plain_path(#[trigger] p.dev_bind[i])
}

/// Synthesis is deterministic: for a policy whose bound paths need no
/// expansion, any two runs give the same vector, element by element,
/// whatever the environment holds and in whichever order they run.
pub proof fn lemma_plain_args_determined(p: PolicyView, x1: Expansions, x2: Expansions)
    requires
        binds_plain(p),
        expansions_of(p, x1),
        expansions_of(p, x2),
    ensures
        args_spec(p, x1) == args_spec(p, x2),
{
    assert(x1.binds =~= x2.binds);
    assert(x1.ro_bind =~= x2.ro_bind);
    assert(x1.dev_bind =~= x2.dev_bind);
}

} // verus!
