//! What the registry's answers hold once they are decoded.

use vstd::prelude::*;
use vstd::string::*;
use crate::config::{format_minecraft, parse_minecraft, MinecraftVersion};
use crate::errors::ErrorKind;
use crate::text::{concat2, concat3};

verus! {

/// The releases that the registry lists for a project.
#[derive(Debug, Clone)]
pub struct ProjectVersionList {
    pub project: String,
    pub versions: Vec<String>,
}

/// The builds of one release.
#[derive(Debug, Clone, Copy, PartialEq, Eq, Structural)]
pub struct PatchList {
    /// The number of the newest build.
    pub latest: u32,
}

impl ProjectVersionList {
    /// The address of the list of releases of `project`.
    pub fn url(project: &str) -> (r: String)
        ensures
            r@ == "https://papermc.io/api/v1/"@ + project@,
    {
        concat2("https://papermc.io/api/v1/", project)
    }

    /// The address of the builds of one release of `project`.
    pub fn patches_url(version: MinecraftVersion, project: &str) -> (r: String)
        ensures
            r@ == "https://papermc.io/api/v1/"@ + project@ + "/"@ + format_minecraft(version),
    {
        let mut r = concat3("https://papermc.io/api/v1/", project, "/");
        let v = version.to_string();
        r.append(v.as_str());
        r
    }

    /// The releases of the list, each read from its text, in the order of
    /// the list. The first text that is no version ends the reading with its
    /// error.
    pub fn releases(&self) -> (r: Result<Vec<MinecraftVersion>, ErrorKind>)
        ensures
            match r {
                Ok(list) => list@.len() == self.versions@.len() && forall|i: int|
                    0 <= i < list@.len() ==> parse_minecraft(#[trigger] self.versions@[i]@) == Ok::<
                        MinecraftVersion,
                        ErrorKind,
                    >(list@[i]),
                Err(e) => exists|i: int|
                    0 <= i < self.versions@.len() && parse_minecraft(
                        #[trigger] self.versions@[i]@,
                    ) == Err::<MinecraftVersion, ErrorKind>(e) && forall|j: int|
                        0 <= j < i ==> parse_minecraft(#[trigger] self.versions@[j]@) is Ok,
            },
    {
        let mut list: Vec<MinecraftVersion> = Vec::new();
        let mut i: usize = 0;
        while i < self.versions.len()
            invariant
                i <= self.versions@.len(),
                list@.len() == i,
                forall|j: int|
                    0 <= j < i ==> parse_minecraft(#[trigger] self.versions@[j]@) == Ok::<
                        MinecraftVersion,
                        ErrorKind,
                    >(list@[j]),
            decreases self.versions@.len() - i,
        {
            match MinecraftVersion::parse(self.versions[i].as_str()) {
                Ok(v) => {
                    list.push(v);
                },
                Err(e) => {
                    assert(parse_minecraft(self.versions@[i as int]@) == Err::<MinecraftVersion, ErrorKind>(e));
                    return Err(e);
                },
            }
            i += 1;
        }
        Ok(list)
    }
}

} // verus!
