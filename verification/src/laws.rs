//! What holds of the registry's operations whatever the document and the
//! arguments: how each changes the document, and what all of them keep
//! true of it.

use crate::config::{ConfigView, ModpackView};
use crate::error::RegistryErrorView;
use crate::registry::{lemma_filter_all, lemma_has_id, without_id};
use crate::text::{is_trimmed, lemma_trimmed_is_core, trimmed};
use vstd::prelude::*;

verus! {

/// Filtering keeps records of the sequence in their order: each record of
/// the result stands in the sequence at the index the returned map gives,
/// and these indices grow along the result. The records kept are those that
/// `keep` accepts, all of them.
pub proof fn lemma_filter_embeds(
    records: Seq<ModpackView>,
    keep: spec_fn(ModpackView) -> bool,
) -> (source: Seq<int>)
    ensures
        source.len() == records.filter(keep).len(),
        forall|i: int|
            0 <= i < source.len() ==> 0 <= #[trigger] source[i] < records.len()
                && records[source[i]] == records.filter(keep)[i] && keep(records[source[i]]),
        forall|i: int, j: int|
            0 <= i < j < source.len() ==> #[trigger] source[i] < #[trigger] source[j],
        forall|k: int|
            0 <= k < records.len() && keep(records[k]) ==> exists|i: int|
                0 <= i < source.len() && #[trigger] source[i] == k,
    decreases records.len(),
{
    reveal(Seq::filter);
    if records.len() == 0 {
        Seq::empty()
    } else {
        let front = records.drop_last();
        let inner = lemma_filter_embeds(front, keep);
        let last = records.len() - 1;
        let source = if keep(records.last()) {
            inner.push(last)
        } else {
            inner
        };
        assert forall|k: int| 0 <= k < records.len() && keep(records[k]) implies exists|i: int|
            0 <= i < source.len() && #[trigger] source[i] == k by {
            if k < last {
                assert(front[k] == records[k]);
                let i = choose|i: int| 0 <= i < inner.len() && #[trigger] inner[i] == k;
                assert(source[i] == k);
            } else {
                assert(source[inner.len() as int] == k);
            }
        }
        source
    }
}

/// Adding a record with a URL and a path that are not empty once trimmed,
/// where no record has the trimmed path and the next id is not the largest
/// number there is, succeeds: the document has one record more, the new one
/// at the end with the former next id, the records before it are as they
/// were, and the next id has grown by one.
pub proof fn lemma_add_appends(config: ConfigView, url: Seq<char>, path: Seq<char>)
    requires
        trimmed(url).len() > 0,
        trimmed(path).len() > 0,
        !config.has_path(trimmed(path)),
        config.next_id < u64::MAX,
    ensures
        config.after_add(url, path) is Ok,
        ({
            let after = config.after_add(url, path)->Ok_0;
            &&& after.modpacks.len() == config.modpacks.len() + 1
            &&& after.next_id == config.next_id + 1
            &&& after.modpacks.last().id == config.next_id
            &&& after.modpacks.last().url == trimmed(url)
            &&& after.modpacks.last().last_path == trimmed(path)
            &&& after.modpacks.drop_last() == config.modpacks
        }),
{
    let after = config.after_add(url, path)->Ok_0;
    assert(after.modpacks.drop_last() =~= config.modpacks);
}

/// Adding a record whose trimmed path a record already has is refused as a
/// duplicate, provided the URL and the path are not empty once trimmed
/// (emptiness is reported first).
pub proof fn lemma_add_refuses_duplicate(config: ConfigView, url: Seq<char>, path: Seq<char>)
    requires
        trimmed(url).len() > 0,
        trimmed(path).len() > 0,
        config.has_path(trimmed(path)),
    ensures
        config.after_add(url, path) == Err::<ConfigView, RegistryErrorView>(
            RegistryErrorView::DuplicatePath(trimmed(path)),
        ),
{
}

/// Adding succeeds exactly when the URL and the path are not empty once
/// trimmed and no record has the trimmed path.
pub proof fn lemma_add_accepts(config: ConfigView, url: Seq<char>, path: Seq<char>)
    ensures
        config.after_add(url, path) is Ok <==> trimmed(url).len() > 0 && trimmed(path).len() > 0
            && !config.has_path(trimmed(path)),
{
}

/// Updating a record that exists with neither field supplied changes
/// nothing.
pub proof fn lemma_update_nothing(config: ConfigView, id: u64)
    requires
        config.has_id(id),
    ensures
        config.after_update(id, None, None) == Ok::<ConfigView, RegistryErrorView>(config),
{
    lemma_has_id(config, id);
    let at = config.index_of_id(id);
    assert(config.modpacks.update(at, config.modpacks[at]) =~= config.modpacks);
}

/// An update that succeeds changes one record only, the first with the id:
/// a field that is supplied becomes its trimming, a field that is not
/// supplied stays, and so do the id, the other records, the number of
/// records and the next id.
pub proof fn lemma_update_changes_supplied(
    config: ConfigView,
    id: u64,
    url: Option<Seq<char>>,
    path: Option<Seq<char>>,
)
    requires
        config.after_update(id, url, path) is Ok,
    ensures
        ({
            let after = config.after_update(id, url, path)->Ok_0;
            let at = config.index_of_id(id);
            &&& 0 <= at < config.modpacks.len()
            &&& after.next_id == config.next_id
            &&& after.modpacks.len() == config.modpacks.len()
            &&& forall|j: int|
                0 <= j < config.modpacks.len() && j != at ==> after.modpacks[j]
                    == config.modpacks[j]
            &&& after.modpacks[at].id == id
            &&& url is Some ==> after.modpacks[at].url == trimmed(url->0)
            &&& url is None ==> after.modpacks[at].url == config.modpacks[at].url
            &&& path is Some ==> after.modpacks[at].last_path == trimmed(path->0)
            &&& path is None ==> after.modpacks[at].last_path == config.modpacks[at].last_path
        }),
{
    lemma_has_id(config, id);
}

/// An update succeeds exactly when a record has the id and no supplied
/// field is empty once trimmed.
pub proof fn lemma_update_accepts(
    config: ConfigView,
    id: u64,
    url: Option<Seq<char>>,
    path: Option<Seq<char>>,
)
    ensures
        config.after_update(id, url, path) is Ok <==> config.has_id(id) && (url is Some
            ==> trimmed(url->0).len() > 0) && (path is Some ==> trimmed(path->0).len() > 0
            && !config.has_path_elsewhere(config.index_of_id(id), trimmed(path->0))),
{
}

/// Updating a record to a path that, trimmed, another record has is refused
/// as a duplicate, provided the record exists and no supplied field is empty
/// once trimmed (those are reported first).
pub proof fn lemma_update_refuses_duplicate(
    config: ConfigView,
    id: u64,
    url: Option<Seq<char>>,
    path: Seq<char>,
)
    requires
        config.has_id(id),
        url is Some ==> trimmed(url->0).len() > 0,
        trimmed(path).len() > 0,
        config.has_path_elsewhere(config.index_of_id(id), trimmed(path)),
    ensures
        config.after_update(id, url, Some(path)) == Err::<ConfigView, RegistryErrorView>(
            RegistryErrorView::DuplicatePath(trimmed(path)),
        ),
{
}

/// Updating keeps the paths distinct where they were: it refuses a path
/// that another record has.
pub proof fn lemma_update_keeps_paths_distinct(
    config: ConfigView,
    id: u64,
    url: Option<Seq<char>>,
    path: Option<Seq<char>>,
)
    requires
        config.paths_distinct(),
        config.after_update(id, url, path) is Ok,
    ensures
        (config.after_update(id, url, path)->Ok_0).paths_distinct(),
{
    let after = config.after_update(id, url, path)->Ok_0;
    let at = config.index_of_id(id);
    lemma_update_changes_supplied(config, id, url, path);
    assert forall|i: int, j: int| 0 <= i < j < after.modpacks.len() implies (
    #[trigger] after.modpacks[i]).last_path != (#[trigger] after.modpacks[j]).last_path by {
        assert(config.modpacks[i].last_path != config.modpacks[j].last_path);
        if path is Some {
            if i == at {
                assert(config.modpacks[j].last_path != trimmed(path->0));
            }
            if j == at {
                assert(config.modpacks[i].last_path != trimmed(path->0));
            }
        }
    }
}

/// Removing an id that a record has succeeds, and leaves no record with it:
/// the records with other ids stay, in their order, and the next id stays.
pub proof fn lemma_remove_clears(config: ConfigView, id: u64)
    requires
        config.has_id(id),
    ensures
        config.after_remove(id) is Ok,
        ({
            let after = config.after_remove(id)->Ok_0;
            &&& !after.has_id(id)
            &&& after.next_id == config.next_id
            &&& after.modpacks.len() < config.modpacks.len()
            &&& forall|other: u64|
                other != id ==> (#[trigger] after.has_id(other) <==> config.has_id(other))
        }),
{
    let after = config.after_remove(id)->Ok_0;
    let source = lemma_filter_embeds(config.modpacks, without_id(id));
    if after.has_id(id) {
        let i = choose|i: int| 0 <= i < after.modpacks.len() && (#[trigger] after.modpacks[i]).id == id;
        assert(without_id(id)(config.modpacks[source[i]]));
    }
    assert forall|other: u64| other != id implies (#[trigger] after.has_id(other)
        <==> config.has_id(other)) by {
        if after.has_id(other) {
            let i = choose|i: int|
                0 <= i < after.modpacks.len() && (#[trigger] after.modpacks[i]).id == other;
            assert(config.modpacks[source[i]].id == other);
        }
        if config.has_id(other) {
            let k = choose|k: int|
                0 <= k < config.modpacks.len() && (#[trigger] config.modpacks[k]).id == other;
            assert(without_id(id)(config.modpacks[k]));
            let i = choose|i: int| 0 <= i < source.len() && #[trigger] source[i] == k;
            assert(after.modpacks[i].id == other);
        }
    }
    let k = choose|k: int| 0 <= k < config.modpacks.len() && (#[trigger] config.modpacks[k]).id == id;
    if after.modpacks.len() >= config.modpacks.len() {
        lemma_increasing_onto(source, config.modpacks.len() as int, k);
        let i = choose|i: int| 0 <= i < source.len() && source[i] == k;
        assert(without_id(id)(config.modpacks[source[i]]));
    }
}

/// Indices that grow strictly and stay below `bound` reach every number
/// below `bound` if there are at least `bound` of them.
proof fn lemma_increasing_onto(source: Seq<int>, bound: int, k: int)
    requires
        forall|i: int| 0 <= i < source.len() ==> 0 <= #[trigger] source[i] < bound,
        forall|i: int, j: int|
            0 <= i < j < source.len() ==> #[trigger] source[i] < #[trigger] source[j],
        source.len() >= bound,
        0 <= k < bound,
    ensures
        exists|i: int| 0 <= i < source.len() && source[i] == k,
{
    lemma_increasing_at_least(source, k);
    lemma_increasing_at_most(source, bound, k);
    assert(source[k] == k);
}

/// The `k`-th of strictly growing indices from 0 on is at least `k`.
proof fn lemma_increasing_at_least(source: Seq<int>, k: int)
    requires
        forall|i: int| 0 <= i < source.len() ==> 0 <= #[trigger] source[i],
        forall|i: int, j: int|
            0 <= i < j < source.len() ==> #[trigger] source[i] < #[trigger] source[j],
        0 <= k < source.len(),
    ensures
        source[k] >= k,
    decreases k,
{
    if k > 0 {
        lemma_increasing_at_least(source, k - 1);
        assert(source[k - 1] < source[k]);
    }
}

/// With at least `bound` strictly growing indices below `bound`, the `k`-th
/// is at most `k`.
proof fn lemma_increasing_at_most(source: Seq<int>, bound: int, k: int)
    requires
        forall|i: int| 0 <= i < source.len() ==> #[trigger] source[i] < bound,
        forall|i: int, j: int|
            0 <= i < j < source.len() ==> #[trigger] source[i] < #[trigger] source[j],
        source.len() >= bound,
        0 <= k < bound,
    ensures
        source[k] <= k,
    decreases bound - k,
{
    if k < bound - 1 {
        lemma_increasing_at_most(source, bound, k + 1);
        assert(source[k] < source[k + 1]);
    }
}

/// Removing an id a second time is refused: after a removal that succeeded,
/// no record has the id.
pub proof fn lemma_remove_twice(config: ConfigView, id: u64)
    requires
        config.after_remove(id) is Ok,
    ensures
        (config.after_remove(id)->Ok_0).after_remove(id) == Err::<ConfigView, RegistryErrorView>(
            RegistryErrorView::UnknownId(id),
        ),
{
    lemma_remove_clears(config, id);
}

/// A removal succeeds exactly when a record has the id.
pub proof fn lemma_remove_accepts(config: ConfigView, id: u64)
    ensures
        config.after_remove(id) is Ok <==> config.has_id(id),
{
}

/// Adding keeps a well-formed document well-formed.
pub proof fn lemma_add_keeps_wf(config: ConfigView, url: Seq<char>, path: Seq<char>)
    requires
        config.wf(),
        config.next_id < u64::MAX,
        config.after_add(url, path) is Ok,
    ensures
        (config.after_add(url, path)->Ok_0).wf(),
{
    let after = config.after_add(url, path)->Ok_0;
    let _ = lemma_trimmed_is_core(url);
    let _ = lemma_trimmed_is_core(path);
    lemma_add_keeps_paths_distinct(config, url, path);
    assert forall|i: int| 0 <= i < after.modpacks.len() implies (#[trigger] after.modpacks[i]).id
        < after.next_id by {
        if i < config.modpacks.len() {
            assert(after.modpacks[i] == config.modpacks[i]);
        }
    }
    assert forall|i: int, j: int| 0 <= i < j < after.modpacks.len() implies (
    #[trigger] after.modpacks[i]).id != (#[trigger] after.modpacks[j]).id by {
        assert(after.modpacks[i] == config.modpacks[i]);
        if j < config.modpacks.len() {
            assert(after.modpacks[j] == config.modpacks[j]);
        }
    }
    assert forall|i: int| 0 <= i < after.modpacks.len() implies {
        let m = #[trigger] after.modpacks[i];
        &&& m.url.len() > 0
        &&& m.last_path.len() > 0
        &&& is_trimmed(m.url)
        &&& is_trimmed(m.last_path)
    } by {
        if i < config.modpacks.len() {
            assert(after.modpacks[i] == config.modpacks[i]);
        }
    }
}

/// Adding keeps the paths distinct where they were: it refuses a path that
/// is in use.
pub proof fn lemma_add_keeps_paths_distinct(config: ConfigView, url: Seq<char>, path: Seq<char>)
    requires
        config.paths_distinct(),
        config.after_add(url, path) is Ok,
    ensures
        (config.after_add(url, path)->Ok_0).paths_distinct(),
{
    let after = config.after_add(url, path)->Ok_0;
    assert forall|i: int, j: int| 0 <= i < j < after.modpacks.len() implies (
    #[trigger] after.modpacks[i]).last_path != (#[trigger] after.modpacks[j]).last_path by {
        assert(after.modpacks[i] == config.modpacks[i]);
        if j < config.modpacks.len() {
            assert(after.modpacks[j] == config.modpacks[j]);
        }
    }
}

/// The next id of a well-formed document is in use nowhere in it, so the id
/// of a record that was removed is never given again.
pub proof fn lemma_next_id_is_unused(config: ConfigView)
    requires
        config.ids_below_next(),
    ensures
        !config.has_id(config.next_id),
{
}

/// Updating keeps a well-formed document well-formed.
pub proof fn lemma_update_keeps_wf(
    config: ConfigView,
    id: u64,
    url: Option<Seq<char>>,
    path: Option<Seq<char>>,
)
    requires
        config.wf(),
        config.after_update(id, url, path) is Ok,
    ensures
        (config.after_update(id, url, path)->Ok_0).wf(),
{
    let after = config.after_update(id, url, path)->Ok_0;
    let at = config.index_of_id(id);
    lemma_update_changes_supplied(config, id, url, path);
    lemma_update_keeps_paths_distinct(config, id, url, path);
    if url is Some {
        let _ = lemma_trimmed_is_core(url->0);
    }
    if path is Some {
        let _ = lemma_trimmed_is_core(path->0);
    }
    assert(config.modpacks[at].id == id);
    assert forall|i: int| 0 <= i < after.modpacks.len() implies (#[trigger] after.modpacks[i]).id
        == config.modpacks[i].id by {}
    assert forall|i: int| 0 <= i < after.modpacks.len() implies {
        let m = #[trigger] after.modpacks[i];
        &&& m.url.len() > 0
        &&& m.last_path.len() > 0
        &&& is_trimmed(m.url)
        &&& is_trimmed(m.last_path)
    } by {
        if i != at {
            assert(after.modpacks[i] == config.modpacks[i]);
        } else {
            assert(config.modpacks[at].url.len() > 0);
        }
    }
}

/// Removing keeps a well-formed document well-formed.
pub proof fn lemma_remove_keeps_wf(config: ConfigView, id: u64)
    requires
        config.wf(),
        config.after_remove(id) is Ok,
    ensures
        (config.after_remove(id)->Ok_0).wf(),
{
    let after = config.after_remove(id)->Ok_0;
    let source = lemma_filter_embeds(config.modpacks, without_id(id));
    lemma_remove_keeps_paths_distinct(config, id);
    assert forall|i: int| 0 <= i < after.modpacks.len() implies #[trigger] after.modpacks[i]
        == config.modpacks[source[i]] by {}
    assert forall|i: int, j: int| 0 <= i < j < after.modpacks.len() implies (
    #[trigger] after.modpacks[i]).id != (#[trigger] after.modpacks[j]).id by {
        assert(source[i] < source[j]);
    }
}

/// Removing keeps the paths distinct where they were.
pub proof fn lemma_remove_keeps_paths_distinct(config: ConfigView, id: u64)
    requires
        config.paths_distinct(),
        config.after_remove(id) is Ok,
    ensures
        (config.after_remove(id)->Ok_0).paths_distinct(),
{
    let after = config.after_remove(id)->Ok_0;
    let source = lemma_filter_embeds(config.modpacks, without_id(id));
    assert forall|i: int, j: int| 0 <= i < j < after.modpacks.len() implies (
    #[trigger] after.modpacks[i]).last_path != (#[trigger] after.modpacks[j]).last_path by {
        assert(source[i] < source[j]);
    }
}

/// In a document whose ids are distinct, removing an id removes one record.
pub proof fn lemma_remove_takes_one(config: ConfigView, id: u64)
    requires
        config.ids_distinct(),
        config.has_id(id),
    ensures
        (config.after_remove(id)->Ok_0).modpacks == config.modpacks.remove(config.index_of_id(id)),
{
    lemma_has_id(config, id);
    let at = config.index_of_id(id);
    lemma_filter_removes_only(config.modpacks, without_id(id), at);
}

/// Filtering a sequence in which `keep` refuses the record at `at` and no
/// other takes that one record out.
proof fn lemma_filter_removes_only(
    records: Seq<ModpackView>,
    keep: spec_fn(ModpackView) -> bool,
    at: int,
)
    requires
        0 <= at < records.len(),
        !keep(records[at]),
        forall|j: int| 0 <= j < records.len() && j != at ==> keep(#[trigger] records[j]),
    ensures
        records.filter(keep) == records.remove(at),
    decreases records.len(),
{
    reveal(Seq::filter);
    let front = records.drop_last();
    if at == records.len() - 1 {
        assert forall|j: int| 0 <= j < front.len() implies keep(#[trigger] front[j]) by {
            assert(front[j] == records[j]);
        }
        lemma_filter_all(front, keep);
        assert(records.remove(at) =~= front);
    } else {
        assert forall|j: int| 0 <= j < front.len() && j != at implies keep(#[trigger] front[j]) by {
            assert(front[j] == records[j]);
        }
        lemma_filter_removes_only(front, keep, at);
        assert(front.remove(at).push(records.last()) =~= records.remove(at));
    }
}

} // verus!
