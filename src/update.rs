use vstd::prelude::*;

use crate::config::{Config, InstalledComponent, record_names};
use crate::registry::{Registry, has_component, index_of};

verus! {

/// How an installed component compares with the catalog.
#[derive(Debug, Clone, Copy, PartialEq, Eq, Structural)]
pub enum UpdateStatus {
    /// The recorded version is the catalog's.
    UpToDate,
    /// The recorded version differs from the catalog's.
    UpdateAvailable,
    /// The name was asked about but nothing of that name is recorded.
    NotInstalled,
    /// The name is recorded but the catalog no longer has it.
    NotInRegistry,
}

/// The comparison for one component name.
#[derive(Debug, Clone)]
pub struct UpdateCheck {
    pub name: String,
    pub installed_version: Option<String>,
    pub registry_version: Option<String>,
    pub status: UpdateStatus,
}

/// The status of a component recorded at `installed` against the catalog.
pub open spec fn status_of(reg: Seq<crate::registry::ComponentInfo>, name: Seq<char>, installed: Seq<char>) -> UpdateStatus {
    if !has_component(reg, name) {
        UpdateStatus::NotInRegistry
    } else if reg[index_of(reg, name)].version@ == installed {
        UpdateStatus::UpToDate
    } else {
        UpdateStatus::UpdateAvailable
    }
}

/// The first record of `records` named `name`.
pub open spec fn first_record(records: Seq<InstalledComponent>, name: Seq<char>) -> int {
    choose|i: int|
        0 <= i < records.len() && records[i].name@ == name && forall|j: int|
            0 <= j < i ==> #[trigger] records[j].name@ != name
}

pub open spec fn view_opt(o: Option<String>) -> Option<Seq<char>> {
    match o {
        Some(s) => Some(s@),
        None => None,
    }
}

impl UpdateCheck {
    /// This is the comparison for `name` in the catalog `reg` against `records`.
    pub open spec fn describes(
        &self,
        reg: Seq<crate::registry::ComponentInfo>,
        records: Seq<InstalledComponent>,
        name: Seq<char>,
    ) -> bool {
        &&& self.name@ == name
        &&& view_opt(self.registry_version) == if has_component(reg, name) {
            Some(reg[index_of(reg, name)].version@)
        } else {
            None
        }
        &&& if record_names(records).contains(name) {
            let rec = records[first_record(records, name)];
            &&& view_opt(self.installed_version) == Some(rec.version@)
            &&& self.status == status_of(reg, name, rec.version@)
        } else {
            &&& self.installed_version is None
            &&& self.status == UpdateStatus::NotInstalled
        }
    }
}

fn check_one(registry: &Registry, config: &Config, name: &str) -> (r: UpdateCheck)
    requires
        registry.wf(),
    ensures
        r.describes(registry@, config.components@, name@),
{
    let registry_version = match registry.get_component(name) {
        Ok(c) => Some(c.version.clone()),
        Err(_) => None,
    };
    match config.installed(name) {
        Some(rec) => {
            let status = match registry.get_component(name) {
                Ok(c) => if c.version == rec.version {
                    UpdateStatus::UpToDate
                } else {
                    UpdateStatus::UpdateAvailable
                },
                Err(_) => UpdateStatus::NotInRegistry,
            };
            proof {
                let i = choose|i: int|
                    0 <= i < config.components@.len() && config.components@[i] == *rec && forall|j: int|
                        0 <= j < i ==> #[trigger] config.components@[j].name@ != name@;
                let f = first_record(config.components@, name@);
                assert(config.components@[f].name@ == name@);
                if f < i {
                    assert(config.components@[f].name@ != name@);
                } else if i < f {
                    assert(config.components@[i].name@ != name@);
                }
            }
            UpdateCheck {
                name: name.to_owned(),
                installed_version: Some(rec.version.clone()),
                registry_version,
                status,
            }
        },
        None => UpdateCheck {
            name: name.to_owned(),
            installed_version: None,
            registry_version,
            status: UpdateStatus::NotInstalled,
        },
    }
}

/// Compares installed components with the catalog, changing nothing. With no
/// names, every install record is compared, in manifest order; otherwise each
/// name given, in the order given.
pub fn check_updates(registry: &Registry, config: &Config, requested: &Vec<String>) -> (r: Vec<
    UpdateCheck,
>)
    requires
        registry.wf(),
    ensures
        requested@.len() == 0 ==> {
            &&& r@.len() == config.components@.len()
            &&& forall|k: int|
                0 <= k < r@.len() ==> #[trigger] r@[k].describes(
                    registry@,
                    config.components@,
                    config.components@[k].name@,
                )
        },
        requested@.len() > 0 ==> {
            &&& r@.len() == requested@.len()
            &&& forall|k: int|
                0 <= k < r@.len() ==> #[trigger] r@[k].describes(
                    registry@,
                    config.components@,
                    requested@[k]@,
                )
        },
{
    let mut out: Vec<UpdateCheck> = Vec::new();
    if requested.len() == 0 {
        let mut i: usize = 0;
        while i < config.components.len()
            invariant
                registry.wf(),
                requested@.len() == 0,
                i <= config.components@.len(),
                out@.len() == i,
                forall|k: int|
                    0 <= k < i ==> #[trigger] out@[k].describes(
                        registry@,
                        config.components@,
                        config.components@[k].name@,
                    ),
            decreases config.components@.len() - i,
        {
            out.push(check_one(registry, config, config.components[i].name.as_str()));
            i = i + 1;
        }
    } else {
        let mut i: usize = 0;
        while i < requested.len()
            invariant
                registry.wf(),
                requested@.len() > 0,
                i <= requested@.len(),
                out@.len() == i,
                forall|k: int|
                    0 <= k < i ==> #[trigger] out@[k].describes(
                        registry@,
                        config.components@,
                        requested@[k]@,
                    ),
            decreases requested@.len() - i,
        {
            out.push(check_one(registry, config, requested[i].as_str()));
            i = i + 1;
        }
    }
    out
}

} // verus!
