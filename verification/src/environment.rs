//! Derives the runtime environment of an interpreter from its path.
//!
//! An interpreter lives two levels below the root of its environment, as in
//! `<root>/bin/python`. The tool's executable is its sibling in `<root>/bin`.

use vstd::prelude::*;
use vstd::string::*;
use crate::error::Error;
use crate::text::chars_of;

verus! {

/// The character that separates the components of a path.
pub open spec fn separator() -> char {
    '/'
}

/// The longest prefix of `path` that does not end in a separator.
pub open spec fn trim_separators(path: Seq<char>) -> Seq<char>
    decreases path.len(),
{
    if path.len() > 0 && path.last() == separator() {
        trim_separators(path.drop_last())
    } else {
        path
    }
}

/// The longest prefix of `path` that is empty or ends in a separator.
pub open spec fn trim_name(path: Seq<char>) -> Seq<char>
    decreases path.len(),
{
    if path.len() > 0 && path.last() != separator() {
        trim_name(path.drop_last())
    } else {
        path
    }
}

/// The directory that holds the last component of `path`, without a trailing
/// separator. It is empty where the last component has no named directory
/// above it.
pub open spec fn parent_directory(path: Seq<char>) -> Seq<char> {
    trim_separators(trim_name(trim_separators(path)))
}

/// The root of the environment of the interpreter at `path`: the directory two
/// levels up, where that directory is named.
pub open spec fn environment_root(path: Seq<char>) -> Option<Seq<char>> {
    let root = parent_directory(parent_directory(path));
    if root.len() == 0 {
        None
    } else {
        Some(root)
    }
}

/// The directory of executables inside the environment at `root`.
pub open spec fn executable_directory(root: Seq<char>) -> Seq<char> {
    root + "/bin"@
}

/// The path of the tool's executable inside the environment at `root`.
pub open spec fn tool_executable(root: Seq<char>) -> Seq<char> {
    root + "/bin/tedana"@
}

/// The name of the variable that holds the executable search path.
pub open spec fn search_path_variable() -> Seq<char> {
    "PATH"@
}

/// The search path with `entry` put before what was `inherited`.
pub open spec fn prepended_search_path(entry: Seq<char>, inherited: Seq<char>) -> Seq<char> {
    if inherited.len() == 0 {
        entry
    } else {
        entry + ":"@ + inherited
    }
}

/// The environment-variable override that activates an environment: its
/// directory of executables goes in front of the search path.
#[derive(Debug)]
pub struct Activation {
    pub variable: String,
    pub entry: String,
}

/// What an activation holds.
pub struct ActivationView {
    pub variable: Seq<char>,
    pub entry: Seq<char>,
}

impl View for Activation {
    type V = ActivationView;

    open spec fn view(&self) -> ActivationView {
        ActivationView { variable: self.variable@, entry: self.entry@ }
    }
}

/// The override that activates the environment at `root`.
pub open spec fn activation_of(root: Seq<char>) -> ActivationView {
    ActivationView { variable: search_path_variable(), entry: executable_directory(root) }
}

impl Activation {
    /// The value to give the search path variable, from the value inherited.
    pub fn search_path(&self, inherited: &str) -> (value: String)
        ensures
            value@ == prepended_search_path(self@.entry, inherited@),
    {
        let mut value = self.entry.clone();
        if !inherited.is_empty() {
            value.append(":");
            value.append(inherited);
        }
        value
    }
}

/// A resolved runtime environment.
#[derive(Debug)]
pub struct Environment {
    pub root: String,
    pub executable_dir: String,
    pub tool_path: String,
    pub activation: Activation,
}

/// What an environment holds.
pub struct EnvironmentView {
    pub root: Seq<char>,
    pub executable_dir: Seq<char>,
    pub tool_path: Seq<char>,
    pub activation: ActivationView,
}

impl View for Environment {
    type V = EnvironmentView;

    open spec fn view(&self) -> EnvironmentView {
        EnvironmentView {
            root: self.root@,
            executable_dir: self.executable_dir@,
            tool_path: self.tool_path@,
            activation: self.activation@,
        }
    }
}

/// The environment at `root`: its directory of executables, the tool's
/// executable in there, and the override that activates it.
pub open spec fn environment_at(root: Seq<char>) -> EnvironmentView {
    EnvironmentView {
        root,
        executable_dir: executable_directory(root),
        tool_path: tool_executable(root),
        activation: activation_of(root),
    }
}

/// A resolved environment as the contracts see it.
pub open spec fn resolved_view(resolved: Result<Environment, Error>) -> Result<
    EnvironmentView,
    Error,
> {
    match resolved {
        Ok(environment) => Ok(environment@),
        Err(error) => Err(error),
    }
}

/// The environment of the interpreter at `path`, where it has one.
pub open spec fn resolution(path: Seq<char>) -> Result<EnvironmentView, Error> {
    match environment_root(path) {
        Some(root) => Ok(environment_at(root)),
        None => Err(Error::InvalidEnvironmentLayout),
    }
}

impl Environment {
    /// The environment rooted at the given directory.
    pub fn at(root: &str) -> (environment: Environment)
        ensures
            environment@ == environment_at(root@),
    {
        let mut executable_dir = String::from_str(root);
        executable_dir.append("/bin");
        let mut tool_path = String::from_str(root);
        tool_path.append("/bin/tedana");
        let entry = executable_dir.clone();
        Environment {
            root: String::from_str(root),
            executable_dir,
            tool_path,
            activation: Activation { variable: String::from_str("PATH"), entry },
        }
    }
}

/// The end of `trim_separators` applied to the first `end` characters.
fn separators_end(chars: &Vec<char>, end: usize) -> (k: usize)
    requires
        end <= chars.len(),
    ensures
        k <= end,
        chars@.take(k as int) == trim_separators(chars@.take(end as int)),
{
    let mut k = end;
    while k > 0 && chars[k - 1] == '/'
        invariant
            k <= end <= chars.len(),
            trim_separators(chars@.take(k as int)) == trim_separators(chars@.take(end as int)),
        decreases k,
    {
        assert(chars@.take(k as int).drop_last() =~= chars@.take(k - 1));
        k -= 1;
    }
    k
}

/// The end of `trim_name` applied to the first `end` characters.
fn name_end(chars: &Vec<char>, end: usize) -> (k: usize)
    requires
        end <= chars.len(),
    ensures
        k <= end,
        chars@.take(k as int) == trim_name(chars@.take(end as int)),
{
    let mut k = end;
    while k > 0 && chars[k - 1] != '/'
        invariant
            k <= end <= chars.len(),
            trim_name(chars@.take(k as int)) == trim_name(chars@.take(end as int)),
        decreases k,
    {
        assert(chars@.take(k as int).drop_last() =~= chars@.take(k - 1));
        k -= 1;
    }
    k
}

/// The end of `parent_directory` applied to the first `end` characters.
fn parent_end(chars: &Vec<char>, end: usize) -> (k: usize)
    requires
        end <= chars.len(),
    ensures
        k <= end,
        chars@.take(k as int) == parent_directory(chars@.take(end as int)),
{
    let a = separators_end(chars, end);
    let b = name_end(chars, a);
    separators_end(chars, b)
}

/// Derives the environment of the interpreter at `interpreter_path`.
///
/// Fails with `InvalidEnvironmentLayout` exactly when the path has fewer than
/// two named ancestor directories.
pub fn resolve(interpreter_path: &str) -> (resolved: Result<Environment, Error>)
    ensures
        resolved_view(resolved) == resolution(interpreter_path@),
{
    let chars = chars_of(interpreter_path);
    assert(chars@.take(chars.len() as int) =~= interpreter_path@);
    let bin_end = parent_end(&chars, chars.len());
    let root_end = parent_end(&chars, bin_end);
    if root_end == 0 {
        return Err(Error::InvalidEnvironmentLayout);
    }
    let root = interpreter_path.substring_char(0, root_end);
    Ok(Environment::at(root))
}

} // verus!
