//! Runtime detection and entry-point resolution for the delegated tool.
//!
//! The detector probes once, at construction, for the interpreter and the
//! package managers. The entry-point logic computes the fixed, ordered list
//! of well-known installation locations and picks the first that exists;
//! probing the filesystem itself is the caller's part.

use vstd::prelude::*;

use crate::errors::LauncherError;
use crate::text::{chars_of, has_prefix, starts_with_chars};

verus! {

/// Relies on which::which: reports whether an executable of the given name
/// can be found on the search path. The outcome depends on the machine's
/// state, so nothing is promised of it.
#[verifier::external_body]
fn probe_executable(name: &str) -> bool {
    which::which(name).is_ok()
}

/// Availability of the interpreter and the package managers, probed once at
/// construction and held for the instance's lifetime.
pub struct RuntimeDetector {
    /// Whether the interpreter is on the search path.
    pub node_available: bool,
    /// Whether npm is on the search path.
    pub npm_available: bool,
    /// Whether pnpm is on the search path.
    pub pnpm_available: bool,
}

impl RuntimeDetector {
    /// Probes the search path for the interpreter and both package
    /// managers. Nothing is known of the probes' outcomes.
    pub fn new() -> RuntimeDetector {
        RuntimeDetector {
            node_available: probe_executable("node"),
            npm_available: probe_executable("npm"),
            pnpm_available: probe_executable("pnpm"),
        }
    }

    /// A detector with the given probe outcomes.
    pub fn with_flags(node: bool, npm: bool, pnpm: bool) -> (d: RuntimeDetector)
        ensures
            d.node_available == node,
            d.npm_available == npm,
            d.pnpm_available == pnpm,
    {
        RuntimeDetector { node_available: node, npm_available: npm, pnpm_available: pnpm }
    }

    /// Whether the interpreter was found.
    pub fn has_node(&self) -> (r: bool)
        ensures
            r == self.node_available,
    {
        self.node_available
    }

    /// Whether npm was found.
    pub fn has_npm(&self) -> (r: bool)
        ensures
            r == self.npm_available,
    {
        self.npm_available
    }

    /// Whether pnpm was found.
    pub fn has_pnpm(&self) -> (r: bool)
        ensures
            r == self.pnpm_available,
    {
        self.pnpm_available
    }

    /// Whether any package manager was found.
    pub fn has_package_manager(&self) -> (r: bool)
        ensures
            r == (self.npm_available || self.pnpm_available),
    {
        self.npm_available || self.pnpm_available
    }

    /// The preferred package manager: pnpm over npm, none when neither was
    /// found.
    pub fn preferred_package_manager(&self) -> (r: Option<&'static str>)
        ensures
            self.pnpm_available ==> r is Some && r->Some_0@ == "pnpm"@,
            !self.pnpm_available && self.npm_available ==> r is Some && r->Some_0@ == "npm"@,
            !self.pnpm_available && !self.npm_available ==> r is None,
    {
        if self.pnpm_available {
            Some("pnpm")
        } else if self.npm_available {
            Some("npm")
        } else {
            None
        }
    }
}

/// The name prefix a package of the delegated tool carries in the
/// content-addressed store.
pub open spec fn store_entry_prefix() -> Seq<char> {
    "openclaw@"@
}

/// The entry-module path for a matching package in the content-addressed
/// global store under the home directory.
pub open spec fn store_path(home: Seq<char>, entry: Seq<char>) -> Seq<char> {
    home + "/.local/share/pnpm/global/5/.pnpm/"@ + entry + "/node_modules/openclaw/openclaw.mjs"@
}

/// The candidates from the content-addressed store: one per directory entry
/// whose name starts with the package prefix, in the order given.
pub open spec fn store_candidates(home: Seq<char>, entries: Seq<Seq<char>>) -> Seq<Seq<char>>
    decreases entries.len(),
{
    if entries.len() == 0 {
        Seq::empty()
    } else {
        let rest = store_candidates(home, entries.skip(1));
        if has_prefix(entries[0], store_entry_prefix()) {
            seq![store_path(home, entries[0])] + rest
        } else {
            rest
        }
    }
}

/// The fixed candidates searched after the content-addressed store, in
/// priority order: the older flat global layout, the system-wide install,
/// the per-user install, and the prefix-relative path under the home
/// directory.
pub open spec fn fixed_candidates(home: Seq<char>) -> Seq<Seq<char>> {
    seq![
        home + "/.local/share/pnpm/global/5/node_modules/openclaw/openclaw.mjs"@,
        "/usr/lib/node_modules/openclaw/openclaw.mjs"@,
        home + "/.npm-global/lib/node_modules/openclaw/openclaw.mjs"@,
        home + "/node_modules/openclaw/openclaw.mjs"@,
    ]
}

/// Every place the delegated tool's entry module may live, in the order the
/// locator must search them.
pub open spec fn entry_candidates(home: Seq<char>, entries: Seq<Seq<char>>) -> Seq<Seq<char>> {
    store_candidates(home, entries) + fixed_candidates(home)
}

/// The views of a vector of strings.
pub open spec fn strings_view(v: Seq<String>) -> Seq<Seq<char>> {
    Seq::new(v.len(), |i: int| v[i]@)
}

/// `base` extended by `suffix`.
fn concat_str(base: &str, suffix: &str) -> (r: String)
    ensures
        r@ == base@ + suffix@,
{
    let mut r = base.to_owned();
    r.append(suffix);
    r
}

/// The store path for one matching directory entry.
fn store_path_exec(home: &str, entry: &str) -> (r: String)
    ensures
        r@ == store_path(home@, entry@),
{
    let mut r = home.to_owned();
    r.append("/.local/share/pnpm/global/5/.pnpm/");
    r.append(entry);
    r.append("/node_modules/openclaw/openclaw.mjs");
    r
}

/// The ordered candidate paths for the delegated tool's entry module, given
/// the home directory and the names found in the content-addressed store.
pub fn entry_point_candidates(home: &str, store_entries: &Vec<String>) -> (r: Vec<String>)
    ensures
        strings_view(r@) == entry_candidates(home@, strings_view(store_entries@)),
{
    let ghost all = strings_view(store_entries@);
    let prefix = chars_of("openclaw@");
    let mut r: Vec<String> = Vec::new();
    let mut i: usize = 0;
    proof {
        assert(all.skip(0) =~= all);
        assert(strings_view(r@) + store_candidates(home@, all.skip(0)) =~= store_candidates(
            home@,
            all,
        ));
    }
    while i < store_entries.len()
        invariant
            i <= store_entries@.len(),
            all == strings_view(store_entries@),
            prefix@ == store_entry_prefix(),
            store_candidates(home@, all) == strings_view(r@) + store_candidates(
                home@,
                all.skip(i as int),
            ),
        decreases store_entries@.len() - i,
    {
        let ghost rest = all.skip(i as int);
        let ghost pre = strings_view(r@);
        let entry_chars = chars_of(store_entries[i].as_str());
        if starts_with_chars(&entry_chars, &prefix) {
            proof {
                assert(rest[0] == all[i as int]);
            }
            r.push(store_path_exec(home, store_entries[i].as_str()));
            proof {
                assert(strings_view(r@) =~= pre + seq![store_path(home@, rest[0])]);
            }
        } else {
            proof {
                assert(rest[0] == all[i as int]);
            }
        }
        i = i + 1;
        proof {
            assert(rest.skip(1) =~= all.skip(i as int));
            if has_prefix(rest[0], store_entry_prefix()) {
                assert(store_candidates(home@, rest) == seq![store_path(home@, rest[0])]
                    + store_candidates(home@, all.skip(i as int)));
                assert(pre + store_candidates(home@, rest) =~= strings_view(r@)
                    + store_candidates(home@, all.skip(i as int)));
            } else {
                assert(store_candidates(home@, rest) == store_candidates(
                    home@,
                    all.skip(i as int),
                ));
            }
        }
    }
    proof {
        assert(all.skip(i as int) =~= Seq::<Seq<char>>::empty());
        assert(store_candidates(home@, all.skip(i as int)) =~= Seq::<Seq<char>>::empty());
        assert(strings_view(r@) =~= store_candidates(home@, all));
    }
    let ghost store_part = strings_view(r@);
    r.push(concat_str(home, "/.local/share/pnpm/global/5/node_modules/openclaw/openclaw.mjs"));
    r.push("/usr/lib/node_modules/openclaw/openclaw.mjs".to_owned());
    r.push(concat_str(home, "/.npm-global/lib/node_modules/openclaw/openclaw.mjs"));
    r.push(concat_str(home, "/node_modules/openclaw/openclaw.mjs"));
    proof {
        assert(strings_view(r@) =~= store_part + fixed_candidates(home@));
    }
    r
}

/// Index of the first true flag, if any.
pub open spec fn first_true(flags: Seq<bool>) -> Option<int>
    decreases flags.len(),
{
    if flags.len() == 0 {
        None
    } else if flags[0] {
        Some(0)
    } else {
        match first_true(flags.skip(1)) {
            Some(i) => Some(i + 1),
            None => None,
        }
    }
}

/// `first_true` returns the index of the first true flag, or `None` when
/// every flag is false.
pub proof fn lemma_first_true(flags: Seq<bool>)
    ensures
        match first_true(flags) {
            Some(i) => 0 <= i < flags.len() && flags[i] && (forall|k: int| 0 <= k < i ==> !flags[k]),
            None => forall|k: int| 0 <= k < flags.len() ==> !flags[k],
        },
    decreases flags.len(),
{
    if flags.len() == 0 {
    } else if flags[0] {
    } else {
        lemma_first_true(flags.skip(1));
        assert(forall|k: int| 1 <= k < flags.len() ==> flags[k] == flags.skip(1)[k - 1]);
    }
}

/// The first candidate that exists, in search order; the delegated tool
/// counts as uninstalled when none does.
pub fn select_entry_point(candidates: &Vec<String>, exists: &Vec<bool>) -> (r: Result<
    String,
    LauncherError,
>)
    requires
        candidates@.len() == exists@.len(),
    ensures
        match first_true(exists@) {
            Some(i) => r is Ok && r->Ok_0@ == candidates@[i]@,
            None => r is Err && r->Err_0 is NotFound,
        },
{
    let mut i: usize = 0;
    while i < candidates.len()
        invariant
            candidates@.len() == exists@.len(),
            i <= exists@.len(),
            forall|k: int| 0 <= k < i ==> !exists@[k],
        decreases exists@.len() - i,
    {
        if exists[i] {
            proof {
                lemma_find_true_at(exists@, i as int);
            }
            return Ok(candidates[i].clone());
        }
        i = i + 1;
    }
    proof {
        lemma_first_true(exists@);
        if first_true(exists@) is Some {
            let idx = first_true(exists@)->Some_0;
            assert(exists@[idx]);
        }
    }
    Err(LauncherError::NotFound)
}

/// A true flag with none before it is the one `first_true` returns.
proof fn lemma_find_true_at(flags: Seq<bool>, m: int)
    requires
        0 <= m < flags.len(),
        flags[m],
        forall|k: int| 0 <= k < m ==> !flags[k],
    ensures
        first_true(flags) == Some(m),
{
    lemma_first_true(flags);
    match first_true(flags) {
        Some(i) => {
            if i < m {
                assert(flags[i]);
            } else if i > m {
                assert(!flags[m]);
            }
        },
        None => {
            assert(!flags[m]);
        },
    }
}

} // verus!
