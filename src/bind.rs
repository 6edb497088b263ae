//! Bind specifications (`source:dest`) and shell-style path expansion.
use vstd::prelude::*;

verus! {

/// A bind specification that does not consist of exactly two `:`-separated parts.
#[derive(Debug)]
pub struct BindFormatError {
    /// The specification as it was written.
    pub spec: String,
}

/// `i` is the position of the only `:` in `s`.
pub open spec fn sole_colon_at(s: Seq<char>, i: int) -> bool {
    &&& 0 <= i < s.len()
    &&& s[i] == ':'
    &&& forall|j: int| 0 <= j < s.len() && j != i ==> s[j] != ':'
}

/// The source and destination of a bind specification: the text before and
/// after its only `:`; `None` when it holds no `:` or more than one.
pub open spec fn bind_split(s: Seq<char>) -> Option<(Seq<char>, Seq<char>)> {
    if exists|i: int| sole_colon_at(s, i) {
        let i = choose|i: int| sole_colon_at(s, i);
        Some((s.take(i), s.skip(i + 1)))
    } else {
        None
    }
}

/// A path that shell-style expansion leaves alone: no `$` reference and no leading `~`.
pub open spec fn is_plain_path(p: Seq<char>) -> bool {
    &&& !p.contains('$')
    &&& !(p.len() > 0 && p[0] == '~')
}

/// What any expansion of `raw` satisfies, whatever the environment holds.
pub open spec fn is_expansion_of(raw: Seq<char>, e: Seq<char>) -> bool {
    is_plain_path(raw) ==> e == raw
}

proof fn lemma_sole_colon_unique(s: Seq<char>, i: int, k: int)
    requires
        sole_colon_at(s, i),
        sole_colon_at(s, k),
    ensures
        i == k,
{
}

/// Splits a bind specification on its only `:`.
pub fn normalize_bind(spec: &str) -> (r: Result<(String, String), BindFormatError>)
    ensures
        match r {
            Ok((src, dst)) => bind_split(spec@) == Some((src@, dst@)),
            Err(e) => bind_split(spec@) is None && e.spec@ == spec@,
        },
{
    let n = spec.unicode_len();
    let mut count: usize = 0;
    let mut pos: usize = 0;
    let mut i: usize = 0;
    while i < n
        invariant
            n == spec@.len(),
            i <= n,
            count <= i,
            count == 0 ==> forall|j: int| 0 <= j < i ==> spec@[j] != ':',
            count == 1 ==> sole_colon_at(spec@.take(i as int), pos as int),
            count >= 2 ==> exists|a: int, b: int|
                0 <= a < b < i && spec@[a] == ':' && spec@[b] == ':',
        decreases n - i,
    {
        if spec.get_char(i) == ':' {
            if count == 0 {
                pos = i;
            } else if count == 1 {
                assert(spec@.take(i as int)[pos as int] == ':');
            }
            count = if count < 2 { count + 1 } else { 2 };
        }
        proof {
            let t = spec@.take(i + 1);
            if count == 1 {
                assert forall|j: int| 0 <= j < t.len() && j != pos implies t[j] != ':' by {
                    if j < i {
                        assert(spec@.take(i as int)[j] == t[j]);
                    }
                }
            }
        }
        i += 1;
    }
    if count == 1 {
        assert(spec@.take(n as int) =~= spec@);
        assert(sole_colon_at(spec@, pos as int));
        let src = spec.substring_char(0, pos).to_owned();
        let dst = spec.substring_char(pos + 1, n).to_owned();
        proof {
            let k = choose|k: int| sole_colon_at(spec@, k);
            lemma_sole_colon_unique(spec@, pos as int, k);
            assert(src@ =~= spec@.take(pos as int));
            assert(dst@ =~= spec@.skip(pos + 1));
        }
        Ok((src, dst))
    } else {
        assert forall|k: int| !sole_colon_at(spec@, k) by {
            if sole_colon_at(spec@, k) {
                if count >= 2 {
                    let (a, b) = choose|a: int, b: int|
                        0 <= a < b < n && spec@[a] == ':' && spec@[b] == ':';
                    assert(a != k || b != k);
                }
            }
        }
        Err(BindFormatError { spec: spec.to_owned() })
    }
}

/// Relies on shellexpand::full: it expands a leading `~` to the home directory
/// and `$NAME` / `${NAME}` references from the process environment, and hands
/// back a path holding neither `$` nor a leading `~` as it was; `None` when a
/// referenced variable cannot be read.
#[verifier::external_body]
fn shell_expand(path: &str) -> (r: Option<String>)
    ensures
        r matches Some(e) ==> is_expansion_of(path@, e@),
{
    shellexpand::full(path).ok().map(|e| e.into_owned())
}

/// Shell-style expansion of `~` and environment references; a path that
/// cannot be expanded is kept as it was written.
pub fn expand_path(path: &str) -> (r: String)
    ensures
        is_expansion_of(path@, r@),
{
    match shell_expand(path) {
        Some(e) => e,
        None => path.to_owned(),
    }
}

/// A source and a destination without `:`, joined by one `:`, split back
/// into themselves.
pub proof fn lemma_bind_round_trip(src: Seq<char>, dst: Seq<char>)
    requires
        !src.contains(':'),
        !dst.contains(':'),
    ensures
        bind_split(src + seq![':'] + dst) == Some((src, dst)),
{
    let s = src + seq![':'] + dst;
    let n = src.len() as int;
    assert forall|j: int| 0 <= j < s.len() && j != n implies s[j] != ':' by {
        if j < n {
            assert(s[j] == src[j]);
        } else {
            assert(s[j] == dst[j - n - 1]);
        }
    }
    assert(sole_colon_at(s, n));
    let k = choose|k: int| sole_colon_at(s, k);
    lemma_sole_colon_unique(s, n, k);
    assert(s.take(n) =~= src);
    assert(s.skip(n + 1) =~= dst);
}

/// A specification without a `:`, or with more than one, is malformed.
pub proof fn lemma_bind_needs_one_colon(s: Seq<char>)
    requires
        !s.contains(':') || exists|i: int, j: int|
            0 <= i < j < s.len() && s[i] == ':' && s[j] == ':',
    ensures
        bind_split(s) is None,
{
    assert forall|k: int| !sole_colon_at(s, k) by {
        if sole_colon_at(s, k) {
            assert(s.contains(':'));
            let (i, j) = choose|i: int, j: int| 0 <= i < j < s.len() && s[i] == ':' && s[j] == ':';
            assert(i != k || j != k);
        }
    }
}

} // verus!
