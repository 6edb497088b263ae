//! Shell integration: the supported shells and the hook script for each.
use vstd::prelude::*;
use crate::text::str_equal;

verus! {

/// Hook for bash: defines a function for each enabled command that runs it
/// through `shwrap command exec`.
pub const BASH_HOOK: &'static str = "# shwrap shell integration for bash
__shwrap_wrap_commands() {
    local cmd
    for cmd in $(shwrap command list --simple 2>/dev/null); do
        eval \"${cmd}() { shwrap command exec ${cmd} \\\"\\$@\\\"; }\"
    done
}
__shwrap_wrap_commands
";

/// Hook for zsh, with the same behaviour as the bash one.
pub const ZSH_HOOK: &'static str = "# shwrap shell integration for zsh
__shwrap_wrap_commands() {
    local cmd
    for cmd in ${(f)\"$(shwrap command list --simple 2>/dev/null)\"}; do
        eval \"${cmd}() { shwrap command exec ${cmd} \\\"\\$@\\\"; }\"
    done
}
__shwrap_wrap_commands
";

/// Hook for fish, with the same behaviour as the bash one.
pub const FISH_HOOK: &'static str = "# shwrap shell integration for fish
for cmd in (shwrap command list --simple 2>/dev/null)
    eval \"function $cmd; shwrap command exec $cmd \\$argv; end\"
end
";

/// A shell that `shell-hook get` knows by name.
#[derive(Clone, Copy, Debug, PartialEq, Eq, Structural)]
pub enum Shell {
    Bash,
    Zsh,
    Fish,
    Nushell,
}

pub open spec fn shell_name(s: Shell) -> Seq<char> {
    match s {
        Shell::Bash => "bash"@,
        Shell::Zsh => "zsh"@,
        Shell::Fish => "fish"@,
        Shell::Nushell => "nushell"@,
    }
}

/// The shell with the given (lower-case) name.
pub open spec fn shell_named(s: Seq<char>) -> Option<Shell> {
    if s == "bash"@ {
        Some(Shell::Bash)
    } else if s == "zsh"@ {
        Some(Shell::Zsh)
    } else if s == "fish"@ {
        Some(Shell::Fish)
    } else if s == "nushell"@ {
        Some(Shell::Nushell)
    } else {
        None
    }
}

/// The hook script of a shell; nushell has none.
pub open spec fn hook_of(s: Shell) -> Option<&'static str> {
    match s {
        Shell::Bash => Some(BASH_HOOK),
        Shell::Zsh => Some(ZSH_HOOK),
        Shell::Fish => Some(FISH_HOOK),
        Shell::Nushell => None,
    }
}

/// What `str::to_lowercase` makes of a string.
pub uninterp spec fn lowercase_of(s: Seq<char>) -> Seq<char>;

/// Relies on str::to_lowercase: the Unicode lower-case mapping, which depends
/// on the characters alone.
#[verifier::external_body]
fn lowercase(s: &str) -> (r: String)
    ensures
        r@ == lowercase_of(s@),
{
    s.to_lowercase()
}

impl Shell {
    pub fn to_str(&self) -> (r: &'static str)
        ensures
            r@ == shell_name(*self),
    {
        match self {
            Shell::Bash => "bash",
            Shell::Zsh => "zsh",
            Shell::Fish => "fish",
            Shell::Nushell => "nushell",
        }
    }

    /// The shell named exactly `name`.
    pub fn from_lowercase(name: &str) -> (r: Option<Shell>)
        ensures
            r == shell_named(name@),
    {
        if str_equal(name, "bash") {
            Some(Shell::Bash)
        } else if str_equal(name, "zsh") {
            Some(Shell::Zsh)
        } else if str_equal(name, "fish") {
            Some(Shell::Fish)
        } else if str_equal(name, "nushell") {
            Some(Shell::Nushell)
        } else {
            None
        }
    }

    /// The shell named `s`, in any letter case.
    pub fn from_str(s: &str) -> (r: Option<Shell>)
        ensures
            r == shell_named(lowercase_of(s@)),
    {
        let lower = lowercase(s);
        Shell::from_lowercase(lower.as_str())
    }

    pub fn get_hook(&self) -> (r: Option<&'static str>)
        ensures
            r == hook_of(*self),
    {
        match self {
            Shell::Bash => Some(BASH_HOOK),
            Shell::Zsh => Some(ZSH_HOOK),
            Shell::Fish => Some(FISH_HOOK),
            Shell::Nushell => None,
        }
    }
}

/// The bash hook as a standalone generator.
pub struct BashHook;

impl BashHook {
    pub fn generate(&self) -> (r: String)
        ensures
            r@ == BASH_HOOK@,
    {
        BASH_HOOK.to_owned()
    }
}

} // verus!
