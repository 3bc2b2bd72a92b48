//! The configuration document and the records it holds.

use crate::text::is_trimmed;
use vstd::prelude::*;

verus! {

/// A remote source paired with the local directory it was last placed in.
#[derive(Debug)]
pub struct Modpack {
    /// Assigned once, when the record is created.
    pub id: u64,
    pub url: String,
    pub last_path: String,
}

/// What a `Modpack` holds, as plain values.
pub ghost struct ModpackView {
    pub id: u64,
    pub url: Seq<char>,
    pub last_path: Seq<char>,
}

impl View for Modpack {
    type V = ModpackView;

    open spec fn view(&self) -> ModpackView {
        ModpackView { id: self.id, url: self.url@, last_path: self.last_path@ }
    }
}

impl Clone for Modpack {
    fn clone(&self) -> (copy: Self)
        ensures
            copy@ == self@,
    {
        Modpack { id: self.id, url: self.url.clone(), last_path: self.last_path.clone() }
    }
}

/// The whole document: the records in the order they were added, and the id
/// that the next new record receives.
#[derive(Debug)]
pub struct Config {
    pub modpacks: Vec<Modpack>,
    pub next_id: u64,
}

/// What a `Config` holds, as plain values.
pub ghost struct ConfigView {
    pub modpacks: Seq<ModpackView>,
    pub next_id: u64,
}

impl View for Config {
    type V = ConfigView;

    open spec fn view(&self) -> ConfigView {
        ConfigView { modpacks: views(self.modpacks@), next_id: self.next_id }
    }
}

/// The records of `modpacks`, each as plain values, in the same order.
pub open spec fn views(modpacks: Seq<Modpack>) -> Seq<ModpackView> {
    Seq::new(modpacks.len(), |i: int| modpacks[i]@)
}

/// The id that the first modpack of a fresh configuration receives.
pub open spec fn spec_default_next_id() -> u64 {
    1
}

/// The id that the first modpack of a fresh configuration receives.
#[verifier::when_used_as_spec(spec_default_next_id)]
pub fn default_next_id() -> (id: u64)
    ensures
        id == 1,
{
    1
}

impl ConfigView {
    /// The document that stands for a missing, empty or unusable file: no
    /// records, and 1 as the next id.
    pub open spec fn initial() -> ConfigView {
        ConfigView { modpacks: Seq::empty(), next_id: 1 }
    }

    /// Whether a record with this id is present.
    pub open spec fn has_id(self, id: u64) -> bool {
        exists|i: int| 0 <= i < self.modpacks.len() && (#[trigger] self.modpacks[i]).id == id
    }

    /// Whether a record with exactly this path is present.
    pub open spec fn has_path(self, path: Seq<char>) -> bool {
        exists|i: int|
            0 <= i < self.modpacks.len() && (#[trigger] self.modpacks[i]).last_path == path
    }

    /// Every id in use is below the next id, so no new record repeats one.
    pub open spec fn ids_below_next(self) -> bool {
        forall|i: int|
            0 <= i < self.modpacks.len() ==> (#[trigger] self.modpacks[i]).id < self.next_id
    }

    /// No two records share an id.
    pub open spec fn ids_distinct(self) -> bool {
        forall|i: int, j: int|
            0 <= i < j < self.modpacks.len() ==> (#[trigger] self.modpacks[i]).id != (
            #[trigger] self.modpacks[j]).id
    }

    /// No two records share a path.
    pub open spec fn paths_distinct(self) -> bool {
        forall|i: int, j: int|
            0 <= i < j < self.modpacks.len() ==> (#[trigger] self.modpacks[i]).last_path != (
            #[trigger] self.modpacks[j]).last_path
    }

    /// Every URL and path is non-empty and free of surrounding whitespace.
    pub open spec fn fields_clean(self) -> bool {
        forall|i: int|
            0 <= i < self.modpacks.len() ==> {
                let m = #[trigger] self.modpacks[i];
                &&& m.url.len() > 0
                &&& m.last_path.len() > 0
                &&& is_trimmed(m.url)
                &&& is_trimmed(m.last_path)
            }
    }

    /// Whether a record other than the one at `at` has exactly this path.
    pub open spec fn has_path_elsewhere(self, at: int, path: Seq<char>) -> bool {
        exists|j: int|
            0 <= j < self.modpacks.len() && j != at && (#[trigger] self.modpacks[j]).last_path
                == path
    }

    /// What the registry's operations keep true of a document once it holds:
    /// ids are never reused, no two records share a path, and every stored
    /// field has passed validation.
    pub open spec fn wf(self) -> bool {
        &&& self.next_id >= 1
        &&& self.ids_below_next()
        &&& self.ids_distinct()
        &&& self.paths_distinct()
        &&& self.fields_clean()
    }
}

impl Config {
    /// See [`ConfigView::wf`].
    pub open spec fn wf(&self) -> bool {
        self@.wf()
    }
}

impl Default for Config {
    /// The document that stands for a missing, empty or unusable file.
    fn default() -> (config: Config)
        ensures
            config@ == ConfigView::initial(),
            config.wf(),
    {
        let config = Config { modpacks: Vec::new(), next_id: default_next_id() };
        assert(config@.modpacks =~= Seq::empty());
        config
    }
}

} // verus!
