//! The project manifest as the picker reads it, the package manager that runs
//! its scripts, and the command list built from the two.

use crate::command_list::{command_order, sort_command_list};
use crate::text::{lex_le, lower_of};
use vstd::prelude::*;

verus! {

/// The fields of a `package.json` manifest. Script and dependency tables are
/// lists of (name, value) pairs, as many as the JSON object has keys.
#[derive(Debug)]
pub struct PackageJson {
    pub name: Option<String>,
    pub version: Option<String>,
    pub description: Option<String>,
    pub author: Option<String>,
    pub scripts: Option<Vec<(String, String)>>,
    pub dependencies: Option<Vec<(String, String)>>,
}

/// Why no command list can be built from a manifest.
#[derive(Debug, Clone, Copy, PartialEq, Eq, Structural)]
pub enum ManifestError {
    /// The manifest has no `scripts` table at all (an empty one is fine).
    MissingScripts,
}

/// No name occurs twice in a table, as in the JSON object it comes from.
pub open spec fn names_unique(table: Seq<(String, String)>) -> bool {
    forall|i: int, j: int|
        0 <= i < j < table.len() ==> #[trigger] table[i].0@ != #[trigger] table[j].0@
}

impl PackageJson {
    /// The script and dependency tables each name an entry once.
    pub open spec fn wf(&self) -> bool {
        &&& (self.scripts matches Some(t) ==> names_unique(t@))
        &&& (self.dependencies matches Some(t) ==> names_unique(t@))
    }
}

/// The command that runs script `name` with the package manager invoked as
/// `prefix`: the two joined by one space.
pub open spec fn prefixed(prefix: Seq<char>, name: Seq<char>) -> Seq<char> {
    prefix + seq![' '] + name
}

/// `prefixed` applied to each name, in order.
pub open spec fn prefixed_all(prefix: Seq<char>, names: Seq<Seq<char>>) -> Seq<Seq<char>> {
    names.map_values(|name: Seq<char>| prefixed(prefix, name))
}

/// Turns the scripts that something declares into commands.
pub trait CommandPrefix {
    /// The declared script names, in table order; `None` where there is no
    /// script table.
    spec fn script_names(&self) -> Option<Seq<Seq<char>>>;

    /// One command per script, `"{prefix} {name}"`, in table order; an error
    /// where there is no script table.
    fn prefix_command(&self, prefix: &str) -> (r: Result<Vec<String>, ManifestError>)
        ensures
            self.script_names() is None ==> r == Err::<Vec<String>, ManifestError>(
                ManifestError::MissingScripts,
            ),
            self.script_names() matches Some(names) ==> r matches Ok(commands)
                && commands.deep_view() == prefixed_all(prefix@, names),
    ;
}

impl CommandPrefix for PackageJson {
    open spec fn script_names(&self) -> Option<Seq<Seq<char>>> {
        match self.scripts {
            None => None,
            Some(table) => Some(table@.map_values(|entry: (String, String)| entry.0@)),
        }
    }

    fn prefix_command(&self, prefix: &str) -> (r: Result<Vec<String>, ManifestError>) {
        match &self.scripts {
            None => Err(ManifestError::MissingScripts),
            Some(table) => {
                let ghost names = table@.map_values(|entry: (String, String)| entry.0@);
                let mut commands: Vec<String> = Vec::new();
                let mut i: usize = 0;
                while i < table.len()
                    invariant
                        i <= table.len(),
                        names == table@.map_values(|entry: (String, String)| entry.0@),
                        commands.deep_view() == prefixed_all(prefix@, names.take(i as int)),
                    decreases table.len() - i,
                {
                    let command = String::from_str(prefix).concat(" ").concat(
                        table[i].0.as_str(),
                    );
                    proof {
                        reveal_strlit(" ");
                        assert(" "@ =~= seq![' ']);
                        assert(names[i as int] == table@[i as int].0@);
                    }
                    assert(command@ == prefixed(prefix@, names[i as int]));
                    let ghost before = commands.deep_view();
                    commands.push(command);
                    assert(commands.deep_view() =~= before.push(command@));
                    assert(prefixed_all(prefix@, names.take(i + 1)) =~= prefixed_all(
                        prefix@,
                        names.take(i as int),
                    ).push(prefixed(prefix@, names[i as int])));
                    i = i + 1;
                }
                assert(names.take(table.len() as int) =~= names);
                Ok(commands)
            },
        }
    }
}

/// Builds the command list of a manifest: every script prefixed with the
/// package manager's invocation, sorted case-insensitively with ties broken
/// by the exact text. A manifest without a script table is an error; an
/// empty table gives an empty list.
pub fn build_command_list(manifest: &PackageJson, prefix: &str) -> (r: Result<
    Vec<String>,
    ManifestError,
>)
    ensures
        manifest.script_names() is None ==> r == Err::<Vec<String>, ManifestError>(
            ManifestError::MissingScripts,
        ),
        manifest.script_names() matches Some(names) ==> r matches Ok(commands)
            && commands.deep_view() == prefixed_all(prefix@, names).sort_by(command_order()),
        r matches Ok(commands) ==> forall|i: int, j: int|
            0 <= i < j < commands.len() ==> lex_le(
                lower_of(#[trigger] commands@[i]@),
                lower_of(#[trigger] commands@[j]@),
            ),
        manifest.wf() ==> (r matches Ok(commands) ==> commands.deep_view().no_duplicates()),
{
    match manifest.prefix_command(prefix) {
        Err(e) => Err(e),
        Ok(commands) => {
            let sorted = sort_command_list(commands);
            proof {
                if manifest.wf() {
                    let table = manifest.scripts->Some_0@;
                    lemma_distinct_commands(table, prefix@);
                    commands.deep_view().lemma_multiset_has_no_duplicates();
                    sorted.deep_view().lemma_multiset_has_no_duplicates_conv();
                }
            }
            Ok(sorted)
        },
    }
}

proof fn lemma_prefixed_injective(prefix: Seq<char>, a: Seq<char>, b: Seq<char>)
    requires
        prefixed(prefix, a) == prefixed(prefix, b),
    ensures
        a == b,
{
    let n = prefix.len() + 1int;
    assert(a =~= prefixed(prefix, a).subrange(n, prefixed(prefix, a).len() as int));
    assert(b =~= prefixed(prefix, b).subrange(n, prefixed(prefix, b).len() as int));
}

/// Distinct script names give distinct commands.
proof fn lemma_distinct_commands(table: Seq<(String, String)>, prefix: Seq<char>)
    requires
        names_unique(table),
    ensures
        prefixed_all(prefix, table.map_values(|entry: (String, String)| entry.0@)).no_duplicates(),
{
    let commands = prefixed_all(prefix, table.map_values(|entry: (String, String)| entry.0@));
    assert forall|i: int, j: int|
        0 <= i < commands.len() && 0 <= j < commands.len() && i != j implies commands[i]
        != commands[j] by {
        if commands[i] == commands[j] {
            lemma_prefixed_injective(prefix, table[i].0@, table[j].0@);
            if i < j {
                assert(table[i].0@ != table[j].0@);
            } else {
                assert(table[j].0@ != table[i].0@);
            }
        }
    }
}

/// The invocation of the package manager that a project uses: yarn where a
/// `yarn.lock` is present, else pnpm where a `pnpm-lock.yml` is, else npm.
pub open spec fn prefix_for(yarn_lock: bool, pnpm_lock: bool) -> Seq<char> {
    if yarn_lock {
        "yarn"@
    } else if pnpm_lock {
        "pnpm run"@
    } else {
        "npm run"@
    }
}

/// The package manager invocation for a project, given which lockfiles it has.
pub fn package_manager_prefix(yarn_lock: bool, pnpm_lock: bool) -> (r: &'static str)
    ensures
        r@ == prefix_for(yarn_lock, pnpm_lock),
{
    if yarn_lock {
        "yarn"
    } else if pnpm_lock {
        "pnpm run"
    } else {
        "npm run"
    }
}

#[verifier::external_type_specification]
#[verifier::external_body]
pub struct ExPath(std::path::Path);

#[verifier::external_type_specification]
#[verifier::external_body]
pub struct ExPathBuf(std::path::PathBuf);

/// Relies on `Path::join`: the path of `name` inside `base`.
#[verifier::external_body]
fn join_path(base: &std::path::Path, name: &str) -> (r: std::path::PathBuf) {
    base.join(name)
}

/// Relies on `Path::exists`: whether something is on disk at `path`. Nothing
/// is known of the answer ahead of the call.
#[verifier::external_body]
fn path_exists(path: &std::path::PathBuf) -> (r: bool) {
    path.exists()
}

/// Whether a file named `name` is present in `base_path`.
fn has_file(base_path: &std::path::Path, name: &str) -> (r: bool) {
    let path = join_path(base_path, name);
    path_exists(&path)
}

/// Whether the project in `base_path` has an npm lockfile (`package-lock.json`).
pub fn is_npm_used(base_path: &std::path::Path) -> (r: bool) {
    has_file(base_path, "package-lock.json")
}

/// Whether the project in `base_path` has a pnpm lockfile (`pnpm-lock.yml`).
pub fn is_pnpm_used(base_path: &std::path::Path) -> (r: bool) {
    has_file(base_path, "pnpm-lock.yml")
}

/// Whether the project in `base_path` has a yarn lockfile (`yarn.lock`).
pub fn is_yarn_used(base_path: &std::path::Path) -> (r: bool) {
    has_file(base_path, "yarn.lock")
}

/// The package manager invocation for the project in `base_path`, from the
/// lockfiles found there: yarn before pnpm before npm.
pub fn get_package_manager_prefix(base_path: &std::path::Path) -> (r: &'static str)
    ensures
        exists|yarn_lock: bool, pnpm_lock: bool| r@ == #[trigger] prefix_for(yarn_lock, pnpm_lock),
{
    let yarn_lock = is_yarn_used(base_path);
    let pnpm_lock = is_pnpm_used(base_path);
    package_manager_prefix(yarn_lock, pnpm_lock)
}

} // verus!
