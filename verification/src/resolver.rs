//! Where imports come from: the first-party modules found in the source
//! directories, the standard library, or third-party packages.
use vstd::prelude::*;

use crate::text::{copy_string, lemma_split_nonempty, split_char, split_on, str_eq, views};

verus! {

/// Where an imported module comes from.
#[derive(Debug, Clone, Copy, PartialEq, Eq, Structural)]
pub enum ImportType {
    /// A module of the program being bundled.
    FirstParty,
    /// An installed package.
    ThirdParty,
    /// A module of Python's standard library.
    StandardLibrary,
}

/// Whether `ruff_python_stdlib` lists `module` as a standard-library module of
/// Python `3.minor_version`.
pub uninterp spec fn known_standard_library(minor_version: u8, module: Seq<char>) -> bool;

/// `ruff_python_stdlib::sys::is_known_standard_library`: whether `module` is a
/// top-level standard-library module of Python `3.minor_version`. The crate
/// decides it from a fixed table; this contract only names its answer.
#[verifier::external_body]
pub(crate) fn is_known_standard_library(minor_version: u8, module: &str) -> (r: bool)
    ensures
        r == known_standard_library(minor_version, module@),
{
    ruff_python_stdlib::sys::is_known_standard_library(minor_version, module)
}

/// The first dotted part of a module name.
pub open spec fn root_module(name: Seq<char>) -> Seq<char> {
    split_on(name, '.')[0]
}

/// The first dotted part of a module name.
pub fn root_module_of(name: &str) -> (r: String)
    ensures
        r@ == root_module(name@),
{
    let parts = split_char(name, '.');
    proof {
        lemma_split_nonempty(name@, '.');
        assert(views(parts@)[0] == parts@[0]@);
    }
    copy_string(&parts[0])
}

/// Whether the root of `name` is a standard-library module of Python `3.minor`.
pub fn is_stdlib_module(minor_version: u8, name: &str) -> (r: bool)
    ensures
        r == known_standard_library(minor_version, root_module(name@)),
{
    let root = root_module_of(name);
    is_known_standard_library(minor_version, root.as_str())
}

/// The path recorded for `name` in a table of modules: the first entry of that name.
pub open spec fn lookup_module(entries: Seq<(Seq<char>, Seq<char>)>, name: Seq<char>) -> Option<
    Seq<char>,
>
    decreases entries.len(),
{
    if entries.len() == 0 {
        None
    } else if entries[0].0 == name {
        Some(entries[0].1)
    } else {
        lookup_module(entries.drop_first(), name)
    }
}

pub open spec fn entry_views(es: Seq<(String, String)>) -> Seq<(Seq<char>, Seq<char>)> {
    es.map_values(|e: (String, String)| (e.0@, e.1@))
}

/// The first-party modules of a program (found in its source directories) and
/// the Python version whose standard library is assumed.
pub struct ModuleResolver {
    modules: Vec<(String, String)>,
    python_minor: u8,
}

impl ModuleResolver {
    /// The known modules, as (name, path) pairs in the order they were added.
    pub closed spec fn entries(self) -> Seq<(Seq<char>, Seq<char>)> {
        entry_views(self.modules@)
    }

    /// The minor version of Python 3 that the bundle targets.
    pub closed spec fn minor_version(self) -> u8 {
        self.python_minor
    }

    /// The path of the first-party module `name`, if there is one.
    pub open spec fn resolved(self, name: Seq<char>) -> Option<Seq<char>> {
        lookup_module(self.entries(), name)
    }

    /// Where `name` comes from: first-party if it resolves, else standard
    /// library if its root is a standard-library module, else third-party.
    pub open spec fn classification(self, name: Seq<char>) -> ImportType {
        if self.resolved(name) is Some {
            ImportType::FirstParty
        } else if known_standard_library(self.minor_version(), root_module(name)) {
            ImportType::StandardLibrary
        } else {
            ImportType::ThirdParty
        }
    }

    /// A resolver that knows no first-party module yet.
    pub fn new(python_minor: u8) -> (r: Self)
        ensures
            r.entries() == Seq::<(Seq<char>, Seq<char>)>::empty(),
            r.minor_version() == python_minor,
    {
        let r = ModuleResolver { modules: Vec::new(), python_minor };
        proof {
            assert(r.entries() =~= Seq::<(Seq<char>, Seq<char>)>::empty());
        }
        r
    }

    /// Records that the first-party module `name` lives at `path`.
    pub fn add_module(&mut self, name: String, path: String)
        ensures
            final(self).entries() == old(self).entries().push((name@, path@)),
            final(self).minor_version() == old(self).minor_version(),
    {
        let ghost before = self.modules@;
        self.modules.push((name, path));
        proof {
            assert(entry_views(self.modules@) =~= entry_views(before).push((name@, path@)));
        }
    }

    /// The path of the first-party module `name`, if there is one.
    pub fn resolve_module_path(&self, name: &str) -> (r: Option<String>)
        ensures
            r matches Some(p) ==> self.resolved(name@) == Some(p@),
            r is None ==> self.resolved(name@) is None,
    {
        let mut i: usize = 0;
        proof {
            assert(self.entries().skip(0) =~= self.entries());
        }
        while i < self.modules.len()
            invariant
                i <= self.modules.len(),
                lookup_module(self.entries(), name@) == lookup_module(
                    self.entries().skip(i as int),
                    name@,
                ),
            decreases self.modules.len() - i,
        {
            proof {
                let t = self.entries().skip(i as int);
                assert(t[0] == (self.modules@[i as int].0@, self.modules@[i as int].1@));
                assert(t.drop_first() =~= self.entries().skip(i + 1));
            }
            if str_eq(self.modules[i].0.as_str(), name) {
                return Some(copy_string(&self.modules[i].1));
            }
            i += 1;
        }
        proof {
            assert(self.entries().skip(i as int) =~= Seq::<(Seq<char>, Seq<char>)>::empty());
        }
        None
    }

    /// Where the import `name` comes from.
    pub fn classify_import(&self, name: &str) -> (r: ImportType)
        ensures
            r == self.classification(name@),
    {
        if self.resolve_module_path(name).is_some() {
            ImportType::FirstParty
        } else if is_stdlib_module(self.python_minor, name) {
            ImportType::StandardLibrary
        } else {
            ImportType::ThirdParty
        }
    }
}

} // verus!
