//! The kinds of server that can be run.

use vstd::prelude::*;
use vstd::string::StringExecFns;
use crate::text::str_eq;

verus! {

/// The kind of server, which decides where its program comes from and what
/// the program's file is called.
#[derive(Debug, Clone, Copy, PartialEq, Eq, Structural)]
pub enum JarType {
    Paper,
    Pufferfish,
}

impl Default for JarType {
    fn default() -> (kind: Self)
        ensures
            kind == JarType::Paper,
    {
        JarType::Paper
    }
}

impl JarType {
    /// The name of the kind, in lower case.
    pub open spec fn name(self) -> Seq<char> {
        match self {
            JarType::Paper => "paper"@,
            JarType::Pufferfish => "pufferfish"@,
        }
    }

    /// The kind with the given name. The name is taken as it is, so upper
    /// case does not count.
    pub open spec fn named(name: Seq<char>) -> Option<JarType> {
        if name == "paper"@ {
            Some(JarType::Paper)
        } else if name == "pufferfish"@ {
            Some(JarType::Pufferfish)
        } else {
            None
        }
    }

    /// The name of the kind, in lower case.
    pub fn to_string(&self) -> (name: String)
        ensures
            name@ == self.name(),
    {
        match self {
            JarType::Paper => String::from_str("paper"),
            JarType::Pufferfish => String::from_str("pufferfish"),
        }
    }

    /// The kind with the given name, if there is one.
    pub fn from_name(name: &str) -> (kind: Option<JarType>)
        ensures
            kind == JarType::named(name@),
    {
        if str_eq(name, "paper") {
            Some(JarType::Paper)
        } else if str_eq(name, "pufferfish") {
            Some(JarType::Pufferfish)
        } else {
            None
        }
    }

    /// The name of the file that holds the server's program: the name of the
    /// kind and `.jar`.
    pub fn file_name(&self) -> (name: String)
        ensures
            name@ == self.name() + ".jar"@,
    {
        let mut name = self.to_string();
        name.append(".jar");
        name
    }
}

} // verus!
