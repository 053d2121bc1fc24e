//! Installed-package counts, one entry per package manager found on the host.

use crate::text::{count_line_ends, line_ends};
use vstd::prelude::*;
use vstd::string::*;

verus! {

/// A package manager and the number of packages it reports as installed.
#[derive(Clone, Debug, PartialEq, Eq)]
pub struct PackageManager {
    pub name: String,
    pub packages: usize,
}

impl PackageManager {
    pub fn new(name: &str, packages: usize) -> (pm: Self)
        ensures
            pm.name@ == name@,
            pm.packages == packages,
    {
        PackageManager { name: String::from_str(name), packages }
    }
}

/// What running a package manager's listing command gave.
#[derive(Clone, Debug, PartialEq, Eq)]
pub struct Listing {
    /// The command that was run.
    pub name: String,
    /// What it printed, or nothing where it could not be run.
    pub output: Option<String>,
}

/// The package managers found, in the order in which they were asked.
#[derive(Clone, Debug, PartialEq, Eq)]
pub struct PackageManagers(pub Vec<PackageManager>);

/// The package managers that `listings` tell of, before they are put in a
/// vector: one for each command that ran, with one package for each line
/// it printed.
pub open spec fn found(listings: Seq<Listing>) -> Seq<(Seq<char>, nat)>
    decreases listings.len(),
{
    if listings.len() == 0 {
        Seq::empty()
    } else {
        let earlier = found(listings.drop_last());
        match listings.last().output {
            Some(output) => earlier.push((listings.last().name@, line_ends(output@))),
            None => earlier,
        }
    }
}

impl PackageManagers {
    /// What the managers are, as names and counts.
    pub open spec fn summary(&self) -> Seq<(Seq<char>, nat)> {
        self.0@.map_values(|pm: PackageManager| (pm.name@, pm.packages as nat))
    }

    /// The package managers among `listings` that could be run, each with
    /// the number of lines it printed as its number of packages.
    pub fn get(listings: &Vec<Listing>) -> (managers: Self)
        ensures
            managers.summary() == found(listings@),
    {
        let mut managers: Vec<PackageManager> = Vec::new();
        let mut i: usize = 0;
        while i < listings.len()
            invariant
                i <= listings@.len(),
                managers@.map_values(|pm: PackageManager| (pm.name@, pm.packages as nat)) == found(
                    listings@.take(i as int),
                ),
            decreases listings@.len() - i,
        {
            let ghost before = managers@;
            proof {
                assert(listings@.take(i + 1).drop_last() =~= listings@.take(i as int));
            }
            if let Some(output) = &listings[i].output {
                let pm = PackageManager::new(listings[i].name.as_str(), count_line_ends(output.as_str()));
                managers.push(pm);
                proof {
                    assert(managers@.map_values(|pm: PackageManager| (pm.name@, pm.packages as nat))
                        =~= before.map_values(|pm: PackageManager| (pm.name@, pm.packages as nat)).push(
                        (listings@[i as int].name@, line_ends(output@)),
                    ));
                }
            }
            i += 1;
        }
        proof {
            assert(listings@.take(i as int) =~= listings@);
        }
        PackageManagers(managers)
    }

    /// The managers two by two, as the packages table shows them: one row
    /// for the first and second, one for the third and fourth, and so on.
    /// A last manager without a partner has no row.
    pub fn pairs(&self) -> (rows: Vec<(PackageManager, PackageManager)>)
        ensures
            rows@.len() == self.0@.len() / 2,
            forall|r: int|
                0 <= r < rows@.len() ==> {
                    &&& (#[trigger] rows@[r]).0.name@ == self.0@[2 * r].name@
                    &&& rows@[r].0.packages == self.0@[2 * r].packages
                    &&& rows@[r].1.name@ == self.0@[2 * r + 1].name@
                    &&& rows@[r].1.packages == self.0@[2 * r + 1].packages
                },
    {
        let mut rows: Vec<(PackageManager, PackageManager)> = Vec::new();
        let mut i: usize = 0;
        while i + 1 < self.0.len()
            invariant
                i == 2 * rows@.len(),
                i <= self.0@.len(),
                forall|r: int|
                    0 <= r < rows@.len() ==> {
                        &&& (#[trigger] rows@[r]).0.name@ == self.0@[2 * r].name@
                        &&& rows@[r].0.packages == self.0@[2 * r].packages
                        &&& rows@[r].1.name@ == self.0@[2 * r + 1].name@
                        &&& rows@[r].1.packages == self.0@[2 * r + 1].packages
                    },
            decreases self.0@.len() - i,
        {
            let left = PackageManager::new(self.0[i].name.as_str(), self.0[i].packages);
            let right = PackageManager::new(self.0[i + 1].name.as_str(), self.0[i + 1].packages);
            rows.push((left, right));
            i += 2;
        }
        rows
    }
}

} // verus!
