//! The command executor's decision logic: which shell binary runs a resolved
//! command line, and with which arguments. The environment is handed in as an
//! explicit configuration, so the choices are checkable without touching the
//! real process environment; spawning the shell is the caller's business.

use vstd::prelude::*;

verus! {

/// The lowercased form of a text, as `str::to_lowercase` yields it.
pub uninterp spec fn lower_of(s: Seq<char>) -> Seq<char>;

/// Relies on `str::to_lowercase`: the result depends on the characters alone.
#[verifier::external_body]
fn to_lower(s: &str) -> (r: String)
    ensures
        r@ == lower_of(s@),
{
    s.to_lowercase()
}

/// Whether a toggle value enables interactive mode: it does exactly when it
/// reads `true` case-insensitively.
pub fn interactive_enabled(value: &str) -> (r: bool)
    ensures
        r == (lower_of(value@) == "true"@),
{
    let lowered = to_lower(value);
    crate::text::str_eq(lowered.as_str(), "true")
}

/// The environment-driven choices the executor honours: the configured shell
/// binary and the raw interactive-mode toggle, each absent when unset.
pub struct ShellConfig {
    pub shell: Option<String>,
    pub interactive: Option<String>,
}

/// The shell binary that runs commands: the configured one, or the default
/// POSIX shell when none is configured.
pub open spec fn shell_path(cfg: ShellConfig) -> Seq<char> {
    match cfg.shell {
        Some(s) => s@,
        None => "/bin/sh"@,
    }
}

/// Whether the configuration asks for an interactive shell: its toggle is set
/// and reads `true` case-insensitively.
pub open spec fn wants_interactive(cfg: ShellConfig) -> bool {
    match cfg.interactive {
        Some(v) => lower_of(v@) == "true"@,
        None => false,
    }
}

/// The argument list of a shell invocation: `-c` and the command line, with
/// `-i` in front when interactive mode is on.
pub open spec fn invocation_args(interactive: bool, command: Seq<char>) -> Seq<Seq<char>> {
    if interactive {
        seq!["-i"@, "-c"@, command]
    } else {
        seq!["-c"@, command]
    }
}

/// A fully determined child-process invocation: the program to spawn and its
/// arguments, standard streams inherited.
pub struct ShellInvocation {
    pub program: String,
    pub args: Vec<String>,
}

/// Builds the shell invocation that runs `command`: the configured shell (or
/// the default), `-i` when interactive mode is toggled on, then `-c` and the
/// command line.
pub fn build_invocation(cfg: &ShellConfig, command: String) -> (r: ShellInvocation)
    ensures
        r.program@ == shell_path(*cfg),
        r.args.deep_view() == invocation_args(wants_interactive(*cfg), command@),
{
    let program: String = match &cfg.shell {
        Some(s) => s.clone(),
        None => "/bin/sh".to_owned(),
    };
    let interactive = match &cfg.interactive {
        Some(v) => interactive_enabled(v.as_str()),
        None => false,
    };
    let ghost cmd = command@;
    let mut args: Vec<String> = Vec::new();
    if interactive {
        args.push("-i".to_owned());
    }
    args.push("-c".to_owned());
    args.push(command);
    proof {
        assert(args.deep_view() =~~= invocation_args(wants_interactive(*cfg), cmd));
    }
    ShellInvocation { program, args }
}

} // verus!
