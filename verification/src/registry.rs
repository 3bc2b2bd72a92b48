//! The registry's operations on a configuration document held in memory.
//!
//! Each operation has a mathematical counterpart on [`ConfigView`] that says
//! what the document becomes or why it is left alone; the executable
//! functions are proved to compute exactly that.

use crate::config::{views, Config, ConfigView, Modpack, ModpackView};
use crate::error::{RegistryError, RegistryErrorView};
use crate::laws::{
    lemma_add_keeps_paths_distinct, lemma_add_keeps_wf, lemma_remove_keeps_paths_distinct,
    lemma_remove_keeps_wf, lemma_update_keeps_paths_distinct, lemma_update_keeps_wf,
};
use crate::text::{trim, trimmed};
use vstd::prelude::*;

verus! {

/// The records with the id `id`.
pub open spec fn with_id(id: u64) -> spec_fn(ModpackView) -> bool {
    |m: ModpackView| m.id == id
}

/// The records with any id but `id`.
pub open spec fn without_id(id: u64) -> spec_fn(ModpackView) -> bool {
    |m: ModpackView| m.id != id
}

/// The records with exactly the path `path`.
pub open spec fn with_path(path: Seq<char>) -> spec_fn(ModpackView) -> bool {
    |m: ModpackView| m.last_path == path
}

/// The index of the first record that `wanted` accepts, or the number of
/// records if it accepts none.
pub open spec fn first_match(records: Seq<ModpackView>, wanted: spec_fn(ModpackView) -> bool) -> int
    decreases records.len(),
{
    if records.len() == 0 || wanted(records[0]) {
        0
    } else {
        1 + first_match(records.drop_first(), wanted)
    }
}

/// `first_match` is the one index that is accepted with nothing accepted
/// before it.
pub proof fn lemma_first_match(
    records: Seq<ModpackView>,
    wanted: spec_fn(ModpackView) -> bool,
    at: int,
)
    requires
        0 <= at <= records.len(),
        forall|j: int| 0 <= j < at ==> !wanted(#[trigger] records[j]),
        at < records.len() ==> wanted(records[at]),
    ensures
        first_match(records, wanted) == at,
    decreases records.len(),
{
    if records.len() == 0 || wanted(records[0]) {
    } else {
        let rest = records.drop_first();
        assert forall|j: int| 0 <= j < at - 1 implies !wanted(#[trigger] rest[j]) by {
            assert(rest[j] == records[j + 1]);
        }
        lemma_first_match(rest, wanted, at - 1);
    }
}

/// What `first_match` returns: an index within bounds or the length, with
/// nothing accepted before it, and an accepted record at it if it is an
/// index.
pub proof fn lemma_first_match_found(
    records: Seq<ModpackView>,
    wanted: spec_fn(ModpackView) -> bool,
)
    ensures
        0 <= first_match(records, wanted) <= records.len(),
        forall|j: int| 0 <= j < first_match(records, wanted) ==> !wanted(#[trigger] records[j]),
        first_match(records, wanted) < records.len() ==> wanted(
            records[first_match(records, wanted)],
        ),
    decreases records.len(),
{
    if records.len() == 0 || wanted(records[0]) {
    } else {
        let rest = records.drop_first();
        lemma_first_match_found(rest, wanted);
        assert forall|j: int| 0 <= j < first_match(records, wanted) implies !wanted(
            #[trigger] records[j],
        ) by {
            if j > 0 {
                assert(records[j] == rest[j - 1]);
            }
        }
    }
}

impl ConfigView {
    /// The index of the first record with this id, or the number of records
    /// if there is none.
    pub open spec fn index_of_id(self, id: u64) -> int {
        first_match(self.modpacks, with_id(id))
    }

    /// The index of the first record with this path, or the number of
    /// records if there is none.
    pub open spec fn index_of_path(self, path: Seq<char>) -> int {
        first_match(self.modpacks, with_path(path))
    }

    /// The first record with this id, if there is one.
    pub open spec fn by_id(self, id: u64) -> Result<ModpackView, RegistryErrorView> {
        if self.has_id(id) {
            Ok(self.modpacks[self.index_of_id(id)])
        } else {
            Err(RegistryErrorView::UnknownId(id))
        }
    }

    /// The first record with exactly this path, if there is one.
    pub open spec fn by_path(self, path: Seq<char>) -> Result<ModpackView, RegistryErrorView> {
        if self.has_path(path) {
            Ok(self.modpacks[self.index_of_path(path)])
        } else {
            Err(RegistryErrorView::UnknownPath(path))
        }
    }

    /// The document with one more record at its end, which takes the next id.
    pub open spec fn with_new(self, url: Seq<char>, path: Seq<char>) -> ConfigView {
        ConfigView {
            modpacks: self.modpacks.push(ModpackView { id: self.next_id, url, last_path: path }),
            next_id: (self.next_id + 1) as u64,
        }
    }

    /// What adding a record with this URL and path makes of the document.
    ///
    /// Both are trimmed first. Either being empty then is refused, and so is
    /// a path that a record already has.
    pub open spec fn after_add(self, url: Seq<char>, path: Seq<char>) -> Result<
        ConfigView,
        RegistryErrorView,
    > {
        if trimmed(url).len() == 0 {
            Err(RegistryErrorView::EmptyUrl)
        } else if trimmed(path).len() == 0 {
            Err(RegistryErrorView::EmptyPath)
        } else if self.has_path(trimmed(path)) {
            Err(RegistryErrorView::DuplicatePath(trimmed(path)))
        } else {
            Ok(self.with_new(trimmed(url), trimmed(path)))
        }
    }

    /// `record` with each field that is supplied replaced by its trimming.
    pub open spec fn revised(
        record: ModpackView,
        url: Option<Seq<char>>,
        path: Option<Seq<char>>,
    ) -> ModpackView {
        ModpackView {
            id: record.id,
            url: match url {
                Some(u) => trimmed(u),
                None => record.url,
            },
            last_path: match path {
                Some(p) => trimmed(p),
                None => record.last_path,
            },
        }
    }

    /// What updating the record with this id makes of the document.
    ///
    /// The first record with the id is the one that changes. A supplied
    /// field that is empty once trimmed is refused, and so is a path that,
    /// trimmed, another record has; a record may be given the path it has.
    pub open spec fn after_update(
        self,
        id: u64,
        url: Option<Seq<char>>,
        path: Option<Seq<char>>,
    ) -> Result<ConfigView, RegistryErrorView> {
        if !self.has_id(id) {
            Err(RegistryErrorView::UnknownId(id))
        } else if url is Some && trimmed(url->0).len() == 0 {
            Err(RegistryErrorView::EmptyUrl)
        } else if path is Some && trimmed(path->0).len() == 0 {
            Err(RegistryErrorView::EmptyPath)
        } else if path is Some && self.has_path_elsewhere(
            self.index_of_id(id),
            trimmed(path->0),
        ) {
            Err(RegistryErrorView::DuplicatePath(trimmed(path->0)))
        } else {
            let at = self.index_of_id(id);
            Ok(
                ConfigView {
                    modpacks: self.modpacks.update(
                        at,
                        Self::revised(self.modpacks[at], url, path),
                    ),
                    next_id: self.next_id,
                },
            )
        }
    }

    /// What removing the records with this id makes of the document.
    pub open spec fn after_remove(self, id: u64) -> Result<ConfigView, RegistryErrorView> {
        if self.has_id(id) {
            Ok(
                ConfigView {
                    modpacks: self.modpacks.filter(without_id(id)),
                    next_id: self.next_id,
                },
            )
        } else {
            Err(RegistryErrorView::UnknownId(id))
        }
    }
}

/// A record with the id is present exactly when `index_of_id` is an index.
pub proof fn lemma_has_id(config: ConfigView, id: u64)
    ensures
        config.has_id(id) <==> config.index_of_id(id) < config.modpacks.len(),
        0 <= config.index_of_id(id) <= config.modpacks.len(),
        config.has_id(id) ==> config.modpacks[config.index_of_id(id)].id == id,
{
    lemma_first_match_found(config.modpacks, with_id(id));
    if config.has_id(id) {
        let i = choose|i: int| 0 <= i < config.modpacks.len() && (#[trigger] config.modpacks[i]).id == id;
        assert(with_id(id)(config.modpacks[i]));
    }
}

/// A record with the path is present exactly when `index_of_path` is an
/// index.
pub proof fn lemma_has_path(config: ConfigView, path: Seq<char>)
    ensures
        config.has_path(path) <==> config.index_of_path(path) < config.modpacks.len(),
        0 <= config.index_of_path(path) <= config.modpacks.len(),
        config.has_path(path) ==> config.modpacks[config.index_of_path(path)].last_path == path,
{
    lemma_first_match_found(config.modpacks, with_path(path));
    if config.has_path(path) {
        let i = choose|i: int|
            0 <= i < config.modpacks.len() && (#[trigger] config.modpacks[i]).last_path == path;
        assert(with_path(path)(config.modpacks[i]));
    }
}

/// The text that is supplied, if any, as plain values.
pub open spec fn views_of(text: Option<&str>) -> Option<Seq<char>> {
    match text {
        Some(t) => Some(t@),
        None => None,
    }
}

/// The index of the first record with this id, or the number of records.
fn position_of_id(config: &Config, id: u64) -> (at: usize)
    ensures
        at == config@.index_of_id(id),
        at <= config.modpacks.len(),
        at < config.modpacks.len() <==> config@.has_id(id),
{
    let mut at: usize = 0;
    while at < config.modpacks.len() && config.modpacks[at].id != id
        invariant
            at <= config.modpacks.len(),
            forall|j: int| 0 <= j < at ==> !with_id(id)(#[trigger] config@.modpacks[j]),
        decreases config.modpacks.len() - at,
    {
        at += 1;
    }
    proof {
        lemma_first_match(config@.modpacks, with_id(id), at as int);
        lemma_has_id(config@, id);
    }
    at
}

/// The index of the first record with exactly this path, or the number of
/// records.
fn position_of_path(config: &Config, path: &String) -> (at: usize)
    ensures
        at == config@.index_of_path(path@),
        at <= config.modpacks.len(),
        at < config.modpacks.len() <==> config@.has_path(path@),
{
    let mut at: usize = 0;
    while at < config.modpacks.len() && config.modpacks[at].last_path != *path
        invariant
            at <= config.modpacks.len(),
            forall|j: int| 0 <= j < at ==> !with_path(path@)(#[trigger] config@.modpacks[j]),
        decreases config.modpacks.len() - at,
    {
        at += 1;
    }
    proof {
        lemma_first_match(config@.modpacks, with_path(path@), at as int);
        lemma_has_path(config@, path@);
    }
    at
}

/// Whether a record other than the one at `at` has exactly this path.
fn path_in_use_elsewhere(config: &Config, at: usize, path: &String) -> (in_use: bool)
    ensures
        in_use == config@.has_path_elsewhere(at as int, path@),
{
    let mut j: usize = 0;
    while j < config.modpacks.len()
        invariant
            j <= config.modpacks.len(),
            forall|k: int|
                0 <= k < j && k != at ==> (#[trigger] config@.modpacks[k]).last_path != path@,
        decreases config.modpacks.len() - j,
    {
        if j != at && config.modpacks[j].last_path == *path {
            assert(config@.modpacks[j as int].last_path == path@);
            return true;
        }
        j += 1;
    }
    false
}

/// The first record with this id.
pub fn get_modpack_by_id(config: &Config, id: u64) -> (found: Result<&Modpack, RegistryError>)
    ensures
        match found {
            Ok(record) => config@.by_id(id) == Ok::<ModpackView, RegistryErrorView>(record@),
            Err(error) => config@.by_id(id) == Err::<ModpackView, RegistryErrorView>(error@),
        },
{
    let at = position_of_id(config, id);
    if at < config.modpacks.len() {
        Ok(&config.modpacks[at])
    } else {
        Err(RegistryError::UnknownId(id))
    }
}

/// The first record whose path is exactly `last_path`; nothing is trimmed.
pub fn get_modpack_by_path<'a>(config: &'a Config, last_path: &str) -> (found: Result<
    &'a Modpack,
    RegistryError,
>)
    ensures
        match found {
            Ok(record) => config@.by_path(last_path@) == Ok::<ModpackView, RegistryErrorView>(
                record@,
            ),
            Err(error) => config@.by_path(last_path@) == Err::<ModpackView, RegistryErrorView>(
                error@,
            ),
        },
{
    let wanted = last_path.to_owned();
    let at = position_of_path(config, &wanted);
    if at < config.modpacks.len() {
        Ok(&config.modpacks[at])
    } else {
        Err(RegistryError::UnknownPath(wanted))
    }
}

/// All records, in the order in which they were added.
pub fn list_modpacks(config: &Config) -> (records: &Vec<Modpack>)
    ensures
        views(records@) == config@.modpacks,
{
    &config.modpacks
}

/// The trimmed URL and path of a record that can be added, or why it
/// cannot be.
fn accept_new(config: &Config, url: &str, last_path: &str) -> (accepted: Result<
    (String, String),
    RegistryError,
>)
    ensures
        match accepted {
            Ok((clean_url, clean_path)) => {
                &&& config@.after_add(url@, last_path@) is Ok
                &&& clean_url@ == trimmed(url@)
                &&& clean_path@ == trimmed(last_path@)
            },
            Err(error) => config@.after_add(url@, last_path@) == Err::<
                ConfigView,
                RegistryErrorView,
            >(error@),
        },
{
    let clean_url = trim(url);
    let clean_path = trim(last_path);
    if clean_url.is_empty() {
        return Err(RegistryError::EmptyUrl);
    }
    if clean_path.is_empty() {
        return Err(RegistryError::EmptyPath);
    }
    let clean_path = clean_path.to_owned();
    if position_of_path(config, &clean_path) < config.modpacks.len() {
        return Err(RegistryError::DuplicatePath(clean_path));
    }
    Ok((clean_url.to_owned(), clean_path))
}

/// Whether a record for `url` and `last_path` would be added, and if not,
/// why not; the document is only looked at.
pub fn check_new_modpack(config: &Config, url: &str, last_path: &str) -> (checked: Result<
    (),
    RegistryError,
>)
    ensures
        match checked {
            Ok(()) => config@.after_add(url@, last_path@) is Ok,
            Err(error) => config@.after_add(url@, last_path@) == Err::<
                ConfigView,
                RegistryErrorView,
            >(error@),
        },
{
    match accept_new(config, url, last_path) {
        Ok(_) => Ok(()),
        Err(error) => Err(error),
    }
}

/// Adds a record for `url` and `last_path`, both trimmed, at the end of the
/// document, and returns the id it was given: the document's next id, which
/// then grows by one.
///
/// Nothing changes if either is empty once trimmed, or if a record already
/// has the trimmed path. Where the record is accepted, the next id must have
/// a successor: a document whose next id is `u64::MAX` takes no further
/// record. [`check_new_modpack`] tells beforehand whether it is accepted.
pub fn add_modpack(config: &mut Config, url: &str, last_path: &str) -> (added: Result<
    u64,
    RegistryError,
>)
    requires
        old(config)@.after_add(url@, last_path@) is Ok ==> old(config).next_id < u64::MAX,
    ensures
        match added {
            Ok(id) => {
                &&& old(config)@.after_add(url@, last_path@) == Ok::<
                    ConfigView,
                    RegistryErrorView,
                >(final(config)@)
                &&& id == old(config).next_id
            },
            Err(error) => {
                &&& old(config)@.after_add(url@, last_path@) == Err::<
                    ConfigView,
                    RegistryErrorView,
                >(error@)
                &&& final(config)@ == old(config)@
            },
        },
        old(config).wf() ==> final(config).wf(),
        old(config)@.paths_distinct() ==> final(config)@.paths_distinct(),
{
    let (clean_url, clean_path) = match accept_new(config, url, last_path) {
        Ok(accepted) => accepted,
        Err(error) => {
            return Err(error);
        },
    };
    let id = config.next_id;
    config.next_id = id + 1;
    config.modpacks.push(Modpack { id, url: clean_url, last_path: clean_path });
    proof {
        assert(config@.modpacks =~= old(config)@.with_new(
            trimmed(url@),
            trimmed(last_path@),
        ).modpacks);
        if old(config).wf() {
            lemma_add_keeps_wf(old(config)@, url@, last_path@);
        }
        if old(config)@.paths_distinct() {
            lemma_add_keeps_paths_distinct(old(config)@, url@, last_path@);
        }
    }
    Ok(id)
}

/// Replaces the URL, the path, or both of the first record with this id by
/// the trimmed values supplied; a field that is not supplied stays as it
/// is, and so do the id and every other record.
///
/// Nothing changes if no record has the id, if a supplied field is empty
/// once trimmed, or if another record has the trimmed path.
pub fn update_modpack(
    config: &mut Config,
    id: u64,
    url: Option<&str>,
    last_path: Option<&str>,
) -> (updated: Result<(), RegistryError>)
    ensures
        match updated {
            Ok(()) => old(config)@.after_update(id, views_of(url), views_of(last_path)) == Ok::<
                ConfigView,
                RegistryErrorView,
            >(final(config)@),
            Err(error) => {
                &&& old(config)@.after_update(id, views_of(url), views_of(last_path)) == Err::<
                    ConfigView,
                    RegistryErrorView,
                >(error@)
                &&& final(config)@ == old(config)@
            },
        },
        old(config).wf() ==> final(config).wf(),
        old(config)@.paths_distinct() ==> final(config)@.paths_distinct(),
{
    let at = position_of_id(config, id);
    if at >= config.modpacks.len() {
        return Err(RegistryError::UnknownId(id));
    }
    let clean_url = match url {
        Some(text) => {
            let clean = trim(text);
            if clean.is_empty() {
                return Err(RegistryError::EmptyUrl);
            }
            Some(clean)
        },
        None => None,
    };
    let clean_path = match last_path {
        Some(text) => {
            let clean = trim(text);
            if clean.is_empty() {
                return Err(RegistryError::EmptyPath);
            }
            let clean = clean.to_owned();
            if path_in_use_elsewhere(config, at, &clean) {
                return Err(RegistryError::DuplicatePath(clean));
            }
            Some(clean)
        },
        None => None,
    };
    if let Some(clean) = clean_url {
        config.modpacks[at].url = clean.to_owned();
    }
    if let Some(clean) = clean_path {
        config.modpacks[at].last_path = clean;
    }
    proof {
        assert(config@.modpacks =~= old(config)@.modpacks.update(
            at as int,
            ConfigView::revised(
                old(config)@.modpacks[at as int],
                views_of(url),
                views_of(last_path),
            ),
        ));
        if old(config).wf() {
            lemma_update_keeps_wf(old(config)@, id, views_of(url), views_of(last_path));
        }
        if old(config)@.paths_distinct() {
            lemma_update_keeps_paths_distinct(
                old(config)@,
                id,
                views_of(url),
                views_of(last_path),
            );
        }
    }
    Ok(())
}

/// Filtering a sequence that has grown by one record filters what was
/// there and then keeps or drops the new record.
proof fn lemma_filter_push(
    records: Seq<ModpackView>,
    record: ModpackView,
    keep: spec_fn(ModpackView) -> bool,
)
    ensures
        records.push(record).filter(keep) == if keep(record) {
            records.filter(keep).push(record)
        } else {
            records.filter(keep)
        },
{
    reveal(Seq::filter);
    assert(records.push(record).drop_last() =~= records);
}

/// Removes every record with this id; the others keep their order, and the
/// next id stays as it is.
///
/// Nothing changes if no record has the id.
pub fn remove_modpack(config: &mut Config, id: u64) -> (removed: Result<(), RegistryError>)
    ensures
        match removed {
            Ok(()) => old(config)@.after_remove(id) == Ok::<ConfigView, RegistryErrorView>(
                final(config)@,
            ),
            Err(error) => {
                &&& old(config)@.after_remove(id) == Err::<ConfigView, RegistryErrorView>(error@)
                &&& final(config)@ == old(config)@
            },
        },
        old(config).wf() ==> final(config).wf(),
        old(config)@.paths_distinct() ==> final(config)@.paths_distinct(),
{
    let ghost before = old(config)@.modpacks;
    let ghost keep = without_id(id);
    let ghost mut seen: int = 0;
    let mut at: usize = 0;
    let mut found = false;
    proof {
        reveal(Seq::filter);
        assert(before.take(0).filter(keep) =~= Seq::empty());
    }
    while at < config.modpacks.len()
        invariant
            before == old(config)@.modpacks,
            keep == without_id(id),
            config.next_id == old(config).next_id,
            0 <= seen <= before.len(),
            at <= config.modpacks.len(),
            config.modpacks.len() - at == before.len() - seen,
            config@.modpacks.take(at as int) == before.take(seen).filter(keep),
            config@.modpacks.skip(at as int) == before.skip(seen),
            found <==> exists|j: int| 0 <= j < seen && (#[trigger] before[j]).id == id,
        decreases config.modpacks.len() - at,
    {
        let ghost current = config@.modpacks;
        proof {
            assert(current[at as int] == current.skip(at as int)[0]);
            assert(before.take(seen + 1) =~= before.take(seen).push(before[seen]));
            lemma_filter_push(before.take(seen), before[seen], keep);
        }
        if config.modpacks[at].id == id {
            config.modpacks.remove(at);
            found = true;
            proof {
                assert(config@.modpacks =~= current.remove(at as int));
                assert(config@.modpacks.take(at as int) =~= current.take(at as int));
                assert(config@.modpacks.skip(at as int) =~= current.skip(at as int).skip(1));
                assert(before.skip(seen + 1) =~= before.skip(seen).skip(1));
            }
        } else {
            at += 1;
            proof {
                assert(current.take(at as int) =~= current.take(at - 1).push(current[at - 1]));
                assert(current.skip(at as int) =~= current.skip(at - 1).skip(1));
                assert(before.skip(seen + 1) =~= before.skip(seen).skip(1));
            }
        }
        proof {
            seen = seen + 1;
        }
    }
    proof {
        assert(before.take(seen) =~= before);
        assert(config@.modpacks.take(at as int) =~= config@.modpacks);
    }
    if found {
        proof {
            if old(config).wf() {
                lemma_remove_keeps_wf(old(config)@, id);
            }
            if old(config)@.paths_distinct() {
                lemma_remove_keeps_paths_distinct(old(config)@, id);
            }
        }
        Ok(())
    } else {
        proof {
            assert forall|j: int| 0 <= j < before.len() implies keep(#[trigger] before[j]) by {}
            lemma_filter_all(before, keep);
        }
        Err(RegistryError::UnknownId(id))
    }
}

/// Filtering drops nothing from a sequence whose records are all kept.
pub proof fn lemma_filter_all(records: Seq<ModpackView>, keep: spec_fn(ModpackView) -> bool)
    requires
        forall|j: int| 0 <= j < records.len() ==> keep(#[trigger] records[j]),
    ensures
        records.filter(keep) == records,
    decreases records.len(),
{
    reveal(Seq::filter);
    if records.len() > 0 {
        lemma_filter_all(records.drop_last(), keep);
        assert(records.drop_last().push(records.last()) =~= records);
    }
}

} // verus!
