//! Interpreters and virtual environments.
//!
//! An `Interpreter` is an immutable handle to one Python installation. A
//! `PythonEnvironment` is rooted at a venv directory, owns an interpreter,
//! and carries a snapshot of its installed distributions together with the
//! directories a child process needs.
use vstd::prelude::*;
use crate::site::{DistKey, SitePackages};
use crate::version::Version;

verus! {

/// An immutable handle to one Python installation.
pub struct Interpreter {
    /// The interpreter's version.
    pub version: Version,
    /// The path of the interpreter binary: its identity.
    pub sys_executable: String,
    /// The marker environment the interpreter reports, as one opaque value.
    pub markers: String,
    /// The platform tags the interpreter supports, most specific first.
    pub tags: Vec<String>,
}

/// The mathematical content of an [`Interpreter`].
pub ghost struct InterpreterKey {
    pub version: Seq<u64>,
    pub sys_executable: Seq<char>,
    pub markers: Seq<char>,
    pub tags: Seq<Seq<char>>,
}

impl View for Interpreter {
    type V = InterpreterKey;

    open spec fn view(&self) -> InterpreterKey {
        InterpreterKey {
            version: self.version@,
            sys_executable: self.sys_executable@,
            markers: self.markers@,
            tags: self.tags@.map_values(|s: String| s@),
        }
    }
}

/// A virtual environment on disk.
pub struct PythonEnvironment {
    /// The venv directory.
    pub root: String,
    /// The interpreter the environment runs.
    pub interpreter: Interpreter,
    /// What is installed in the environment.
    pub site: SitePackages,
    /// The directory holding the environment's executables.
    pub scripts: String,
    /// The site-packages directories, in search order.
    pub site_dirs: Vec<String>,
}

/// The mathematical content of a [`PythonEnvironment`].
pub ghost struct EnvironmentKey {
    pub root: Seq<char>,
    pub interpreter: InterpreterKey,
    pub site: Seq<DistKey>,
    pub scripts: Seq<char>,
    pub site_dirs: Seq<Seq<char>>,
}

impl View for PythonEnvironment {
    type V = EnvironmentKey;

    open spec fn view(&self) -> EnvironmentKey {
        EnvironmentKey {
            root: self.root@,
            interpreter: self.interpreter@,
            site: self.site@,
            scripts: self.scripts@,
            site_dirs: self.site_dirs@.map_values(|s: String| s@),
        }
    }
}

impl Interpreter {
    /// An exact copy of this handle.
    pub fn duplicate(&self) -> (r: Interpreter)
        ensures
            r@ == self@,
    {
        let r = Interpreter {
            version: self.version.duplicate(),
            sys_executable: self.sys_executable.clone(),
            markers: self.markers.clone(),
            tags: crate::strutil::duplicate_strings(&self.tags),
        };
        proof {
            assert(r@.tags =~= self@.tags);
        }
        r
    }
}

/// A freshly created virtual environment: rooted at `root`, running
/// `interpreter`, with nothing installed yet.
pub fn fresh_environment(
    interpreter: Interpreter,
    root: String,
    scripts: String,
    site_dirs: Vec<String>,
) -> (env: PythonEnvironment)
    ensures
        env@.interpreter == interpreter@,
        env@.root == root@,
        env@.scripts == scripts@,
        env@.site_dirs == site_dirs@.map_values(|s: String| s@),
        env@.site.len() == 0,
{
    PythonEnvironment {
        root,
        interpreter,
        site: SitePackages { dists: Vec::new() },
        scripts,
        site_dirs,
    }
}

} // verus!
