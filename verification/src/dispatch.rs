//! Dispatch decisions: which class a request falls in, which scope-key a
//! help request addresses, whether to serve from cache, capture, or hand
//! off to the installer, whether a capture may be cached, and which exit
//! code to report. The caller performs the subprocess work and printing;
//! every decision is made here.

use vstd::prelude::*;

use crate::runtime::strings_view;
use crate::text::{chars_of, str_eq};

verus! {

/// The request classes, decided before any subprocess is spawned.
#[derive(Clone, Copy, Debug, PartialEq, Eq, Structural)]
pub enum RequestKind {
    /// Print static version strings; no subprocess, no cache.
    Version,
    /// Top-level help, cache-aware.
    TopHelp,
    /// Help for a subcommand, cache-aware, output captured.
    SubcommandHelp,
    /// Plain delegation with inherited standard streams; no cache.
    Delegate,
}

/// The token asks for help.
pub open spec fn is_help_flag(a: Seq<char>) -> bool {
    a == "-h"@ || a == "--help"@
}

/// Some argument asks for help.
pub open spec fn any_help_flag(args: Seq<Seq<char>>) -> bool
    decreases args.len(),
{
    if args.len() == 0 {
        false
    } else {
        is_help_flag(args[0]) || any_help_flag(args.skip(1))
    }
}

/// The class of a request: a version query first, then top-level help (an
/// explicit help flag or an empty argument list), then subcommand help (any
/// help flag among the arguments), and plain delegation otherwise.
pub open spec fn classify_spec(help: bool, version: bool, args: Seq<Seq<char>>) -> RequestKind {
    if version {
        RequestKind::Version
    } else if help || args.len() == 0 {
        RequestKind::TopHelp
    } else if any_help_flag(args) {
        RequestKind::SubcommandHelp
    } else {
        RequestKind::Delegate
    }
}

/// The class of the request the arguments describe.
pub fn classify(help: bool, version: bool, args: &Vec<String>) -> (r: RequestKind)
    ensures
        r == classify_spec(help, version, strings_view(args@)),
{
    if version {
        return RequestKind::Version;
    }
    if help || args.len() == 0 {
        return RequestKind::TopHelp;
    }
    let ghost all = strings_view(args@);
    let mut i: usize = 0;
    proof {
        assert(all.skip(0) =~= all);
    }
    while i < args.len()
        invariant
            !help,
            !version,
            i <= args@.len(),
            all == strings_view(args@),
            any_help_flag(all) == any_help_flag(all.skip(i as int)),
        decreases args@.len() - i,
    {
        let ghost rest = all.skip(i as int);
        if str_eq(args[i].as_str(), "-h") || str_eq(args[i].as_str(), "--help") {
            proof {
                assert(rest[0] == all[i as int]);
                assert(is_help_flag(rest[0]));
                assert(rest.len() > 0);
                assert(any_help_flag(rest));
                assert(any_help_flag(all));
            }
            return RequestKind::SubcommandHelp;
        }
        i = i + 1;
        proof {
            assert(rest[0] == all[i - 1]);
            assert(rest.skip(1) =~= all.skip(i as int));
        }
    }
    proof {
        assert(all.skip(i as int) =~= Seq::<Seq<char>>::empty());
        assert(!any_help_flag(all));
    }
    RequestKind::Delegate
}

/// The token is flag-like: it starts with the flag marker.
pub open spec fn is_flag_token(a: Seq<char>) -> bool {
    a.len() > 0 && a[0] == '-'
}

/// The scope-key the arguments address: the first token without a flag
/// marker, or the empty key when there is none.
pub open spec fn scope_key_spec(args: Seq<Seq<char>>) -> Seq<char>
    decreases args.len(),
{
    if args.len() == 0 {
        Seq::empty()
    } else if !is_flag_token(args[0]) {
        args[0]
    } else {
        scope_key_spec(args.skip(1))
    }
}

/// The scope-key of a help request.
pub fn scope_key_of(args: &Vec<String>) -> (r: String)
    ensures
        r@ == scope_key_spec(strings_view(args@)),
{
    let ghost all = strings_view(args@);
    let mut i: usize = 0;
    proof {
        assert(all.skip(0) =~= all);
    }
    while i < args.len()
        invariant
            i <= args@.len(),
            all == strings_view(args@),
            scope_key_spec(all) == scope_key_spec(all.skip(i as int)),
        decreases args@.len() - i,
    {
        let ghost rest = all.skip(i as int);
        let cs = chars_of(args[i].as_str());
        let flagged = cs.len() > 0 && cs[0] == '-';
        proof {
            assert(rest[0] == all[i as int]);
            assert(flagged == is_flag_token(rest[0]));
        }
        if !flagged {
            return args[i].clone();
        }
        i = i + 1;
        proof {
            assert(rest.skip(1) =~= all.skip(i as int));
        }
    }
    proof {
        assert(all.skip(i as int) =~= Seq::<Seq<char>>::empty());
    }
    String::new()
}

/// What a cache-aware help request does next.
pub enum HelpAction {
    /// A cache hit: print this text and stop.
    Serve(String),
    /// A miss without a runtime: hand off to the installer.
    RunInstaller,
    /// A miss with a runtime: invoke the delegated tool and capture.
    Capture,
}

/// The next step of a cache-aware help request: serve a hit; without a
/// runtime, hand off to the installer; otherwise capture from the tool.
pub fn decide_help_request(cached: Option<String>, runtime_available: bool) -> (r: HelpAction)
    ensures
        cached is Some ==> r is Serve && r->Serve_0 == cached->Some_0,
        cached is None && !runtime_available ==> r is RunInstaller,
        cached is None && runtime_available ==> r is Capture,
{
    match cached {
        Some(text) => HelpAction::Serve(text),
        None => {
            if runtime_available {
                HelpAction::Capture
            } else {
                HelpAction::RunInstaller
            }
        },
    }
}

/// Whether a captured help text may be cached: only a successful, non-empty
/// capture is.
pub fn should_cache_capture(success: bool, rebranded: &str) -> (r: bool)
    ensures
        r == (success && rebranded@.len() > 0),
{
    success && !rebranded.is_empty()
}

/// The exit code to report for a finished child process: its own code, or 1
/// when that is indeterminate.
pub fn exit_code_of(status: Option<i32>) -> (r: i32)
    ensures
        status is Some ==> r == status->Some_0,
        status is None ==> r == 1,
{
    match status {
        Some(code) => code,
        None => 1,
    }
}

/// The two static version lines: the delegated tool's pinned version, then
/// the launcher's own.
pub fn version_text() -> (r: String)
    ensures
        r@ == "openclaw 2026.2.1\nchitin 0.1.0\n"@,
{
    "openclaw 2026.2.1\nchitin 0.1.0\n".to_owned()
}

} // verus!
