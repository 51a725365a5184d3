//! The package managers the installer flow can drive, the route the flow
//! takes from the probed state, and the reading of the prompt answers. The
//! prompting and the shell installers themselves — terminal and process
//! I/O — live with the caller.

use vstd::prelude::*;

use crate::runtime::strings_view;
use crate::text::str_eq;

verus! {

/// A package manager the delegated tool can be installed with.
#[derive(Clone, Copy, Debug, PartialEq, Eq, Structural)]
pub enum PackageManager {
    Pnpm,
    Npm,
}

impl PackageManager {
    /// The executable name of this package manager.
    pub fn name(&self) -> (r: &'static str)
        ensures
            *self is Pnpm ==> r@ == "pnpm"@,
            *self is Npm ==> r@ == "npm"@,
    {
        match self {
            PackageManager::Pnpm => "pnpm",
            PackageManager::Npm => "npm",
        }
    }

    /// The command and arguments that install the delegated tool globally
    /// with this package manager.
    pub fn install_openclaw_cmd(&self) -> (r: (&'static str, Vec<String>))
        ensures
            *self is Pnpm ==> r.0@ == "pnpm"@ && strings_view(r.1@) == seq![
                "add"@,
                "-g"@,
                "openclaw@latest"@,
            ],
            *self is Npm ==> r.0@ == "npm"@ && strings_view(r.1@) == seq![
                "install"@,
                "-g"@,
                "openclaw@latest"@,
            ],
    {
        match self {
            PackageManager::Pnpm => {
                let args = vec!["add".to_owned(), "-g".to_owned(), "openclaw@latest".to_owned()];
                proof {
                    assert(strings_view(args@) =~= seq!["add"@, "-g"@, "openclaw@latest"@]);
                }
                ("pnpm", args)
            },
            PackageManager::Npm => {
                let args = vec![
                    "install".to_owned(),
                    "-g".to_owned(),
                    "openclaw@latest".to_owned(),
                ];
                proof {
                    assert(strings_view(args@) =~= seq!["install"@, "-g"@, "openclaw@latest"@]);
                }
                ("npm", args)
            },
        }
    }
}

/// Where the installation flow goes, decided from the terminal and the
/// probed state before any prompt.
pub enum InstallRoute {
    /// Not an interactive terminal: print manual instructions and fail.
    ManualInstructions,
    /// Runtime and a package manager present: offer to install the
    /// delegated tool with this manager.
    InstallTool(PackageManager),
    /// Runtime present without a package manager: ask which one to set up.
    ChoosePackageManager,
    /// No runtime: full setup, manager choice first.
    FullSetup,
}

/// The route of the installation flow: manual instructions outside an
/// interactive terminal; with a runtime and a package manager, an offer to
/// install the tool (pnpm preferred); with a runtime alone, a manager
/// choice; without a runtime, the full setup.
pub fn install_route(interactive: bool, has_node: bool, has_pnpm: bool, has_npm: bool) -> (r:
    InstallRoute)
    ensures
        !interactive ==> r is ManualInstructions,
        interactive && has_node && has_pnpm ==> r is InstallTool && r->InstallTool_0 is Pnpm,
        interactive && has_node && !has_pnpm && has_npm ==> r is InstallTool && r->InstallTool_0
            is Npm,
        interactive && has_node && !has_pnpm && !has_npm ==> r is ChoosePackageManager,
        interactive && !has_node ==> r is FullSetup,
{
    if !interactive {
        InstallRoute::ManualInstructions
    } else if has_node && has_pnpm {
        InstallRoute::InstallTool(PackageManager::Pnpm)
    } else if has_node && has_npm {
        InstallRoute::InstallTool(PackageManager::Npm)
    } else if has_node {
        InstallRoute::ChoosePackageManager
    } else {
        InstallRoute::FullSetup
    }
}

/// The package manager an answer to the selection prompt picks: `2` picks
/// npm; everything else — `1`, an empty answer, or an invalid one —
/// defaults to pnpm. The answer arrives trimmed.
pub fn parse_package_manager_choice(choice: &str) -> (r: PackageManager)
    ensures
        r is Npm <==> choice@ == "2"@,
    {
    if str_eq(choice, "2") {
        PackageManager::Npm
    } else {
        PackageManager::Pnpm
    }
}

/// The value of an answer to a yes/no prompt: `y`/`yes` is yes, `n`/`no` is
/// no, anything else — the empty answer included — is the default. The
/// answer arrives trimmed and lower-cased.
pub fn parse_confirm_choice(choice: &str, default_yes: bool) -> (r: bool)
    ensures
        r == (choice@ == "y"@ || choice@ == "yes"@ || (choice@ != "n"@ && choice@ != "no"@
            && default_yes)),
{
    if str_eq(choice, "y") || str_eq(choice, "yes") {
        true
    } else if str_eq(choice, "n") || str_eq(choice, "no") {
        false
    } else {
        default_yes
    }
}

} // verus!
