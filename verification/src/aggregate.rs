//! Merging group results into one report and, on request, applying the
//! decided updates back onto the constraint mappings.

use vstd::prelude::*;

use crate::depmap::{
    entries_insert, find_key, has_key, imap_entries, imap_insert, lemma_find_key,
    lemma_has_key_exists,
};
use crate::error::FetchError;
use crate::reconcile::{decision_for, opt_view, DependencyGroup, PackageUpdateData};
use indexmap::IndexMap;

verus! {

/// The ordered pairs of a mapping after every decided update is written
/// over its package's key, first decision first.
pub open spec fn apply_updates(
    entries: Seq<(Seq<char>, Seq<char>)>,
    updates: Seq<Option<PackageUpdateData>>,
) -> Seq<(Seq<char>, Seq<char>)>
    decreases updates.len(),
{
    if updates.len() == 0 {
        entries
    } else {
        let rest = apply_updates(entries, updates.drop_last());
        match updates.last() {
            Some(u) => entries_insert(rest, u.package_name@, u.new_version@),
            None => rest,
        }
    }
}

/// Whether any entry of a group decided an update.
pub open spec fn any_update(updates: Seq<Option<PackageUpdateData>>) -> bool {
    exists|i: int| 0 <= i < updates.len() && updates[i] is Some
}

/// The decided updates among a group's results, in their order.
pub open spec fn somes(updates: Seq<Option<PackageUpdateData>>) -> Seq<PackageUpdateData>
    decreases updates.len(),
{
    if updates.len() == 0 {
        Seq::empty()
    } else {
        let rest = somes(updates.drop_last());
        match updates.last() {
            Some(u) => rest.push(u),
            None => rest,
        }
    }
}

/// Whether some decision of the group names this key.
pub open spec fn decides_key(updates: Seq<Option<PackageUpdateData>>, key: Seq<char>) -> bool {
    exists|i: int|
        0 <= i < updates.len() && #[trigger] updates[i] is Some
            && updates[i]->Some_0.package_name@ == key
}

/// Applying a group's decided updates to a mapping that has a key for every
/// decided package changes no key and keeps the key order; a pair whose key
/// no decision names is left exactly as it was.
pub proof fn lemma_apply_touches_only_decided_keys(
    entries: Seq<(Seq<char>, Seq<char>)>,
    updates: Seq<Option<PackageUpdateData>>,
)
    requires
        forall|i: int|
            (0 <= i < updates.len() && #[trigger] updates[i] is Some) ==> has_key(
                entries,
                updates[i]->Some_0.package_name@,
            ),
    ensures
        apply_updates(entries, updates).len() == entries.len(),
        forall|j: int|
            0 <= j < entries.len() ==> (#[trigger] apply_updates(entries, updates)[j]).0
                == entries[j].0,
        forall|j: int|
            0 <= j < entries.len() && !decides_key(updates, entries[j].0) ==> (
            #[trigger] apply_updates(entries, updates)[j]) == entries[j],
    decreases updates.len(),
{
    if updates.len() > 0 {
        let pre = updates.drop_last();
        assert(forall|i: int|
            0 <= i < pre.len() ==> #[trigger] pre[i] == updates[i]);
        lemma_apply_touches_only_decided_keys(entries, pre);
        let rest = apply_updates(entries, pre);
        let result = apply_updates(entries, updates);
        match updates.last() {
            Some(u) => {
                let key = u.package_name@;
                assert(updates[updates.len() - 1] is Some);
                assert(updates[updates.len() - 1]->Some_0.package_name@ == key);
                assert(has_key(entries, key));
                lemma_has_key_exists(entries, key);
                let w = choose|j: int| 0 <= j < entries.len() && (#[trigger] entries[j]).0 == key;
                assert(rest[w].0 == key);
                lemma_has_key_exists(rest, key);
                assert(has_key(rest, key));
                lemma_find_key(rest, key);
                let fk = find_key(rest, key);
                assert(result == rest.update(fk, (key, u.new_version@)));
                assert(rest[fk].0 == key);
                assert forall|j: int|
                    0 <= j < entries.len() && !decides_key(updates, entries[j].0) implies (
                #[trigger] result[j]) == entries[j] by {
                    assert(!decides_key(pre, entries[j].0)) by {
                        if decides_key(pre, entries[j].0) {
                            let i = choose|i: int|
                                0 <= i < pre.len() && #[trigger] pre[i] is Some
                                    && pre[i]->Some_0.package_name@ == entries[j].0;
                            assert(updates[i] is Some && updates[i]->Some_0.package_name@
                                == entries[j].0);
                        }
                    }
                    assert(rest[j] == entries[j]);
                    assert(entries[j].0 != key);
                    assert(j != fk);
                }
            },
            None => {
                assert forall|j: int|
                    0 <= j < entries.len() && !decides_key(updates, entries[j].0) implies (
                #[trigger] result[j]) == entries[j] by {
                    assert(!decides_key(pre, entries[j].0)) by {
                        if decides_key(pre, entries[j].0) {
                            let i = choose|i: int|
                                0 <= i < pre.len() && #[trigger] pre[i] is Some
                                    && pre[i]->Some_0.package_name@ == entries[j].0;
                            assert(updates[i] is Some && updates[i]->Some_0.package_name@
                                == entries[j].0);
                        }
                    }
                }
            },
        }
    }
}

/// The decisions of one group name only keys of that group's own mapping,
/// so applying them back onto that mapping falls under
/// `lemma_apply_touches_only_decided_keys`.
pub proof fn lemma_decisions_name_group_keys(
    entries: Seq<(Seq<char>, Seq<char>)>,
    outcomes: Seq<Result<String, FetchError>>,
    results: Seq<Option<PackageUpdateData>>,
    group: DependencyGroup,
)
    requires
        outcomes.len() == entries.len(),
        results.len() == entries.len(),
        forall|i: int|
            0 <= i < results.len() ==> opt_view(#[trigger] results[i]) == decision_for(
                entries[i].0,
                entries[i].1,
                outcomes[i],
                group,
            ),
    ensures
        forall|i: int|
            (0 <= i < results.len() && #[trigger] results[i] is Some) ==> has_key(
                entries,
                results[i]->Some_0.package_name@,
            ),
{
    assert forall|i: int|
        (0 <= i < results.len() && #[trigger] results[i] is Some) implies has_key(
        entries,
        results[i]->Some_0.package_name@,
    ) by {
        assert(opt_view(results[i]) == decision_for(entries[i].0, entries[i].1, outcomes[i], group));
        assert(results[i]->Some_0.package_name@ == entries[i].0);
        lemma_has_key_exists(entries, entries[i].0);
    }
}

/// Walks one group's results: reports whether any update was decided and,
/// in apply mode only, writes each decided update's new constraint over its
/// package's key in `dest`. Without apply mode `dest` is left exactly as it
/// was.
pub fn build_updates(
    updates: &Vec<Option<PackageUpdateData>>,
    should_update: bool,
    dest: &mut IndexMap<String, String>,
) -> (did: bool)
    ensures
        did == any_update(updates@),
        should_update ==> imap_entries(*final(dest)) == apply_updates(
            imap_entries(*old(dest)),
            updates@,
        ),
        !should_update ==> imap_entries(*final(dest)) == imap_entries(*old(dest)),
{
    let n = updates.len();
    let mut did: bool = false;
    let mut i: usize = 0;
    while i < n
        invariant
            n == updates@.len(),
            0 <= i <= n,
            did == any_update(updates@.subrange(0, i as int)),
            should_update ==> imap_entries(*dest) == apply_updates(
                imap_entries(*old(dest)),
                updates@.subrange(0, i as int),
            ),
            !should_update ==> imap_entries(*dest) == imap_entries(*old(dest)),
        decreases n - i,
    {
        proof {
            let pre = updates@.subrange(0, i as int);
            let pre1 = updates@.subrange(0, i as int + 1);
            assert(pre1.drop_last() =~= pre);
            assert(pre1.last() == updates@[i as int]);
            assert(any_update(pre1) == (any_update(pre) || updates@[i as int] is Some)) by {
                if any_update(pre) {
                    let j = choose|j: int| 0 <= j < pre.len() && pre[j] is Some;
                    assert(pre1[j] is Some);
                }
                if updates@[i as int] is Some {
                    assert(pre1[i as int] is Some);
                }
                if any_update(pre1) {
                    let j = choose|j: int| 0 <= j < pre1.len() && pre1[j] is Some;
                    if j < i {
                        assert(pre[j] is Some);
                    }
                }
            }
        }
        match &updates[i] {
            Some(u) => {
                if should_update {
                    let _ = imap_insert(dest, u.package_name.clone(), u.new_version.clone());
                }
                did = true;
            },
            None => {},
        }
        i = i + 1;
    }
    proof {
        assert(updates@.subrange(0, n as int) =~= updates@);
    }
    did
}

/// Appends the decided updates of one group to `into`, keeping their order.
fn collect_decided(updates: &Vec<Option<PackageUpdateData>>, into: &mut Vec<PackageUpdateData>)
    ensures
        final(into)@ == old(into)@ + somes(updates@),
{
    let n = updates.len();
    let mut i: usize = 0;
    while i < n
        invariant
            n == updates@.len(),
            0 <= i <= n,
            into@ == old(into)@ + somes(updates@.subrange(0, i as int)),
        decreases n - i,
    {
        proof {
            let pre = updates@.subrange(0, i as int);
            let pre1 = updates@.subrange(0, i as int + 1);
            assert(pre1.drop_last() =~= pre);
            assert(pre1.last() == updates@[i as int]);
        }
        match &updates[i] {
            Some(u) => {
                into.push(u.clone());
            },
            None => {},
        }
        i = i + 1;
        proof {
            assert(into@ =~= old(into)@ + somes(updates@.subrange(0, i as int)));
        }
    }
    proof {
        assert(updates@.subrange(0, n as int) =~= updates@);
        assert(into@ =~= old(into)@ + somes(updates@));
    }
}

/// The final report of one reconciliation run: every decided update in
/// order, runtime group before development group, with the counts of
/// packages examined and lookups failed, and whether any update occurred.
pub struct ReconciliationReport {
    pub updates: Vec<PackageUpdateData>,
    pub packages_examined: usize,
    pub failures: usize,
    pub did_update: bool,
}

/// A group decided an update exactly when it contributes a decision.
proof fn lemma_any_update_somes(updates: Seq<Option<PackageUpdateData>>)
    ensures
        any_update(updates) <==> somes(updates).len() > 0,
    decreases updates.len(),
{
    if updates.len() > 0 {
        lemma_any_update_somes(updates.drop_last());
        let pre = updates.drop_last();
        assert(any_update(updates) == (any_update(pre) || updates.last() is Some)) by {
            if any_update(pre) {
                let j = choose|j: int| 0 <= j < pre.len() && pre[j] is Some;
                assert(updates[j] is Some);
            }
            if updates.last() is Some {
                assert(updates[updates.len() - 1] is Some);
            }
            if any_update(updates) {
                let j = choose|j: int| 0 <= j < updates.len() && updates[j] is Some;
                if j < updates.len() - 1 {
                    assert(pre[j] is Some);
                }
            }
        }
    }
}

/// Merges the two groups' results into the final report, runtime group
/// first, and, in apply mode only, writes the decided updates back onto the
/// two constraint mappings. Without apply mode both mappings are left
/// exactly as they were.
pub fn aggregate(
    dep_updates: &Vec<Option<PackageUpdateData>>,
    dev_dep_updates: &Vec<Option<PackageUpdateData>>,
    dep_failures: usize,
    dev_dep_failures: usize,
    should_update: bool,
    deps: &mut IndexMap<String, String>,
    dev_deps: &mut IndexMap<String, String>,
) -> (r: ReconciliationReport)
    requires
        dep_updates@.len() + dev_dep_updates@.len() <= usize::MAX,
        dep_failures + dev_dep_failures <= usize::MAX,
    ensures
        r.updates@ == somes(dep_updates@) + somes(dev_dep_updates@),
        r.packages_examined == dep_updates@.len() + dev_dep_updates@.len(),
        r.failures == dep_failures + dev_dep_failures,
        r.did_update == (any_update(dep_updates@) || any_update(dev_dep_updates@)),
        r.did_update == (r.updates@.len() > 0),
        should_update ==> imap_entries(*final(deps)) == apply_updates(
            imap_entries(*old(deps)),
            dep_updates@,
        ) && imap_entries(*final(dev_deps)) == apply_updates(
            imap_entries(*old(dev_deps)),
            dev_dep_updates@,
        ),
        !should_update ==> imap_entries(*final(deps)) == imap_entries(*old(deps))
            && imap_entries(*final(dev_deps)) == imap_entries(*old(dev_deps)),
{
    let did_deps = build_updates(dep_updates, should_update, deps);
    let did_dev_deps = build_updates(dev_dep_updates, should_update, dev_deps);
    let mut updates: Vec<PackageUpdateData> = Vec::new();
    collect_decided(dep_updates, &mut updates);
    collect_decided(dev_dep_updates, &mut updates);
    proof {
        lemma_any_update_somes(dep_updates@);
        lemma_any_update_somes(dev_dep_updates@);
    }
    ReconciliationReport {
        updates,
        packages_examined: dep_updates.len() + dev_dep_updates.len(),
        failures: dep_failures + dev_dep_failures,
        did_update: did_deps || did_dev_deps,
    }
}

} // verus!
