//! The closed set of kernel namespaces and the default-deny isolation rule.
use vstd::prelude::*;

verus! {

/// A kernel namespace that the sandbox can isolate.
#[derive(Clone, Copy, Debug, PartialEq, Eq, Structural)]
pub enum NamespaceKind {
    User,
    Pid,
    Network,
    Ipc,
    Uts,
    Cgroup,
}

/// Every namespace, in the fixed order in which flags are emitted.
pub open spec fn enumeration() -> Seq<NamespaceKind> {
    seq![
        NamespaceKind::User,
        NamespaceKind::Pid,
        NamespaceKind::Network,
        NamespaceKind::Ipc,
        NamespaceKind::Uts,
        NamespaceKind::Cgroup,
    ]
}

/// The name under which a namespace appears in a policy document.
pub open spec fn kind_name(k: NamespaceKind) -> Seq<char> {
    match k {
        NamespaceKind::User => "user"@,
        NamespaceKind::Pid => "pid"@,
        NamespaceKind::Network => "network"@,
        NamespaceKind::Ipc => "ipc"@,
        NamespaceKind::Uts => "uts"@,
        NamespaceKind::Cgroup => "cgroup"@,
    }
}

/// The namespace that a policy document names, if the name is known.
pub open spec fn kind_named(s: Seq<char>) -> Option<NamespaceKind> {
    if s == "user"@ {
        Some(NamespaceKind::User)
    } else if s == "pid"@ {
        Some(NamespaceKind::Pid)
    } else if s == "network"@ {
        Some(NamespaceKind::Network)
    } else if s == "ipc"@ {
        Some(NamespaceKind::Ipc)
    } else if s == "uts"@ {
        Some(NamespaceKind::Uts)
    } else if s == "cgroup"@ {
        Some(NamespaceKind::Cgroup)
    } else {
        None
    }
}

/// The launcher flag that isolates a namespace.
pub open spec fn flag_of(k: NamespaceKind) -> Seq<char> {
    match k {
        NamespaceKind::User => "--unshare-user"@,
        NamespaceKind::Pid => "--unshare-pid"@,
        NamespaceKind::Network => "--unshare-net"@,
        NamespaceKind::Ipc => "--unshare-ipc"@,
        NamespaceKind::Uts => "--unshare-uts"@,
        NamespaceKind::Cgroup => "--unshare-cgroup"@,
    }
}

/// The namespaces to isolate: every one that is not shared, in enumeration order.
pub open spec fn unshare_spec(shared: Seq<NamespaceKind>) -> Seq<NamespaceKind> {
    enumeration().filter(|k: NamespaceKind| !shared.contains(k))
}

impl NamespaceKind {
    /// Every namespace in enumeration order.
    pub fn all() -> (r: Vec<NamespaceKind>)
        ensures
            r@ == enumeration(),
    {
        let r = vec![
            NamespaceKind::User,
            NamespaceKind::Pid,
            NamespaceKind::Network,
            NamespaceKind::Ipc,
            NamespaceKind::Uts,
            NamespaceKind::Cgroup,
        ];
        assert(r@ =~= enumeration());
        r
    }

    pub fn name(&self) -> (r: &'static str)
        ensures
            r@ == kind_name(*self),
    {
        match self {
            NamespaceKind::User => "user",
            NamespaceKind::Pid => "pid",
            NamespaceKind::Network => "network",
            NamespaceKind::Ipc => "ipc",
            NamespaceKind::Uts => "uts",
            NamespaceKind::Cgroup => "cgroup",
        }
    }

    pub fn unshare_flag(&self) -> (r: &'static str)
        ensures
            r@ == flag_of(*self),
    {
        match self {
            NamespaceKind::User => "--unshare-user",
            NamespaceKind::Pid => "--unshare-pid",
            NamespaceKind::Network => "--unshare-net",
            NamespaceKind::Ipc => "--unshare-ipc",
            NamespaceKind::Uts => "--unshare-uts",
            NamespaceKind::Cgroup => "--unshare-cgroup",
        }
    }

    /// Reads a namespace name; `None` for a name outside the closed set.
    pub fn from_name(s: &str) -> (r: Option<NamespaceKind>)
        ensures
            r == kind_named(s@),
    {
        if crate::text::str_equal(s, "user") {
            Some(NamespaceKind::User)
        } else if crate::text::str_equal(s, "pid") {
            Some(NamespaceKind::Pid)
        } else if crate::text::str_equal(s, "network") {
            Some(NamespaceKind::Network)
        } else if crate::text::str_equal(s, "ipc") {
            Some(NamespaceKind::Ipc)
        } else if crate::text::str_equal(s, "uts") {
            Some(NamespaceKind::Uts)
        } else if crate::text::str_equal(s, "cgroup") {
            Some(NamespaceKind::Cgroup)
        } else {
            None
        }
    }
}

/// Whether `k` occurs in `v`.
pub fn contains_kind(v: &Vec<NamespaceKind>, k: NamespaceKind) -> (r: bool)
    ensures
        r == v@.contains(k),
{
    let mut i: usize = 0;
    while i < v.len()
        invariant
            i <= v@.len(),
            forall|j: int| 0 <= j < i ==> v@[j] != k,
        decreases v@.len() - i,
    {
        if v[i] == k {
            return true;
        }
        i += 1;
    }
    false
}

/// Default-deny isolation: every namespace of the enumeration that is not in
/// `shared`, in enumeration order.
pub fn compute_unshare_set(shared: &Vec<NamespaceKind>) -> (r: Vec<NamespaceKind>)
    ensures
        r@ == unshare_spec(shared@),
{
    let all = NamespaceKind::all();
    let ghost pred = |k: NamespaceKind| !shared@.contains(k);
    let mut r: Vec<NamespaceKind> = Vec::new();
    let mut i: usize = 0;
    while i < all.len()
        invariant
            all@ == enumeration(),
            i <= all@.len(),
            pred == (|k: NamespaceKind| !shared@.contains(k)),
            r@ == all@.take(i as int).filter(pred),
        decreases all@.len() - i,
    {
        let k = all[i];
        proof {
            reveal(Seq::filter);
            assert(all@.take(i + 1).drop_last() =~= all@.take(i as int));
        }
        if !contains_kind(shared, k) {
            r.push(k);
        }
        i += 1;
    }
    assert(all@.take(all@.len() as int) =~= all@);
    r
}

/// The position of a namespace in the enumeration.
pub open spec fn rank(k: NamespaceKind) -> int {
    match k {
        NamespaceKind::User => 0,
        NamespaceKind::Pid => 1,
        NamespaceKind::Network => 2,
        NamespaceKind::Ipc => 3,
        NamespaceKind::Uts => 4,
        NamespaceKind::Cgroup => 5,
    }
}

/// Default deny: for any set of shared namespaces, the isolated ones are
/// exactly those not shared, each once, in enumeration order.
pub proof fn lemma_unshare_is_complement(shared: Seq<NamespaceKind>)
    ensures
        forall|k: NamespaceKind| unshare_spec(shared).contains(k) <==> !shared.contains(k),
        forall|i: int, j: int|
            0 <= i < j < unshare_spec(shared).len() ==> rank(unshare_spec(shared)[i]) < rank(
                unshare_spec(shared)[j],
            ),
{
    reveal_with_fuel(Seq::filter, 7);
    let e = enumeration();
    assert(e.drop_last().drop_last().drop_last().drop_last().drop_last().drop_last().len() == 0);
    let u = unshare_spec(shared);
    assert forall|k: NamespaceKind| u.contains(k) <==> !shared.contains(k) by {
        if !shared.contains(k) {
            assert(e[rank(k)] == k);
            e.lemma_filter_contains(|k: NamespaceKind| !shared.contains(k), rank(k));
        }
        if u.contains(k) {
            let i = choose|i: int| 0 <= i < u.len() && u[i] == k;
            e.lemma_filter_pred(|k: NamespaceKind| !shared.contains(k), i);
        }
    }
}

} // verus!
