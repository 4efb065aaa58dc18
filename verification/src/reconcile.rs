//! Per-package update decisions and the per-group scheduler.
//!
//! A lookup outcome (latest version, or a typed failure) is compared against
//! the declared constraint's base version; any textual difference yields an
//! update decision that keeps the declared marker. A whole dependency group
//! is processed entry by entry, one outcome per entry, in the group's own
//! order; a failed lookup contributes no decision and never aborts the rest.

use vstd::prelude::*;

use crate::constraint::{format_constraint, parse, prefix_chars, spec_prefix, strip_markers};
use crate::depmap::{imap_entries, imap_pairs};
use crate::error::FetchError;
use indexmap::IndexMap;

verus! {

/// The two dependency groups of a manifest.
#[derive(Clone, Copy, Debug, PartialEq, Eq, Structural)]
pub enum DependencyGroup {
    Runtime,
    Development,
}

/// One decided update: a package, its declared constraint, the new
/// constraint that keeps the declared marker around the latest version, and
/// the dependency group the package came from.
pub struct PackageUpdateData {
    pub package_name: String,
    pub old_version: String,
    pub new_version: String,
    pub group: DependencyGroup,
}

/// The mathematical content of an update decision.
pub ghost struct UpdateView {
    pub package_name: Seq<char>,
    pub old_version: Seq<char>,
    pub new_version: Seq<char>,
    pub group: DependencyGroup,
}

impl View for PackageUpdateData {
    type V = UpdateView;

    open spec fn view(&self) -> UpdateView {
        UpdateView {
            package_name: self.package_name@,
            old_version: self.old_version@,
            new_version: self.new_version@,
            group: self.group,
        }
    }
}

impl Clone for PackageUpdateData {
    fn clone(&self) -> (r: Self)
        ensures
            r == *self,
    {
        PackageUpdateData {
            package_name: self.package_name.clone(),
            old_version: self.old_version.clone(),
            new_version: self.new_version.clone(),
            group: self.group,
        }
    }
}

/// The decision owed to one dependency entry, given its lookup outcome: no
/// decision on failure or on an unchanged version; otherwise one decision
/// whose new constraint is the declared marker followed by the latest
/// version.
pub open spec fn decision_for(
    name: Seq<char>,
    declared: Seq<char>,
    outcome: Result<String, FetchError>,
    group: DependencyGroup,
) -> Option<UpdateView> {
    match outcome {
        Ok(latest) => {
            if latest@ == strip_markers(declared) {
                None
            } else {
                Some(
                    UpdateView {
                        package_name: name,
                        old_version: declared,
                        new_version: prefix_chars(spec_prefix(declared)) + latest@,
                        group: group,
                    },
                )
            }
        },
        Err(_) => None,
    }
}

/// The view of a possible decision.
pub open spec fn opt_view(r: Option<PackageUpdateData>) -> Option<UpdateView> {
    match r {
        Some(u) => Some(u@),
        None => None,
    }
}

/// Decides whether one package needs an update.
///
/// `version` is the declared constraint, `fetched` the outcome of the
/// registry lookup for `package_name`. A fetched version is compared to the
/// parsed base version by plain string inequality: any textual difference
/// counts as an update.
pub fn compare_package_version(
    version: String,
    package_name: String,
    fetched: Result<String, FetchError>,
    group: DependencyGroup,
) -> (r: Option<PackageUpdateData>)
    ensures
        opt_view(r) == decision_for(package_name@, version@, fetched, group),
{
    match fetched {
        Ok(latest) => {
            let parsed = parse(version.as_str());
            if latest == parsed.base_version {
                None
            } else {
                let new_version = format_constraint(parsed.prefix, latest.as_str());
                Some(
                    PackageUpdateData { package_name, old_version: version, new_version, group },
                )
            }
        },
        Err(_) => None,
    }
}

/// Decides every entry of one dependency group.
///
/// `outcomes` carries one lookup outcome per entry, in the group's own
/// order; the result holds one possible decision per entry, in that same
/// order. A failure leaves its entry without a decision and touches no
/// other entry.
pub fn process_dependencies(
    deps: &IndexMap<String, String>,
    outcomes: &Vec<Result<String, FetchError>>,
    group: DependencyGroup,
) -> (r: Vec<Option<PackageUpdateData>>)
    requires
        outcomes@.len() == imap_entries(*deps).len(),
    ensures
        r@.len() == imap_entries(*deps).len(),
        forall|i: int|
            0 <= i < r@.len() ==> opt_view(#[trigger] r@[i]) == decision_for(
                imap_entries(*deps)[i].0,
                imap_entries(*deps)[i].1,
                outcomes@[i],
                group,
            ),
{
    let pairs = imap_pairs(deps);
    let n = pairs.len();
    let mut updates: Vec<Option<PackageUpdateData>> = Vec::new();
    let mut i: usize = 0;
    while i < n
        invariant
            n == pairs@.len(),
            n == imap_entries(*deps).len(),
            n == outcomes@.len(),
            0 <= i <= n,
            updates@.len() == i,
            forall|k: int|
                0 <= k < pairs@.len() ==> (#[trigger] pairs@[k]).0@ == imap_entries(*deps)[k].0
                    && pairs@[k].1@ == imap_entries(*deps)[k].1,
            forall|k: int|
                0 <= k < i ==> opt_view(#[trigger] updates@[k]) == decision_for(
                    imap_entries(*deps)[k].0,
                    imap_entries(*deps)[k].1,
                    outcomes@[k],
                    group,
                ),
        decreases n - i,
    {
        let entry = &pairs[i];
        let outcome: Result<String, FetchError> = match &outcomes[i] {
            Ok(latest) => Ok(latest.clone()),
            Err(e) => Err(*e),
        };
        let update = compare_package_version(entry.1.clone(), entry.0.clone(), outcome, group);
        updates.push(update);
        i = i + 1;
    }
    updates
}

/// The warnings a group's outcomes owe: each failed entry's package name
/// and reason, in the group's own order.
pub open spec fn spec_warnings(
    entries: Seq<(Seq<char>, Seq<char>)>,
    outcomes: Seq<Result<String, FetchError>>,
) -> Seq<(Seq<char>, FetchError)>
    decreases outcomes.len(),
{
    if outcomes.len() == 0 {
        Seq::empty()
    } else {
        let rest = spec_warnings(entries.drop_last(), outcomes.drop_last());
        match outcomes.last() {
            Err(e) => rest.push((entries.last().0, e)),
            Ok(_) => rest,
        }
    }
}

/// Collects one group's warnings: the package and the typed reason of each
/// failed lookup, in the group's own order. Failures are reported this way
/// and never abort the batch.
pub fn collect_warnings(
    deps: &IndexMap<String, String>,
    outcomes: &Vec<Result<String, FetchError>>,
) -> (r: Vec<(String, FetchError)>)
    requires
        outcomes@.len() == imap_entries(*deps).len(),
    ensures
        r@.len() == spec_warnings(imap_entries(*deps), outcomes@).len(),
        forall|i: int|
            0 <= i < r@.len() ==> (#[trigger] r@[i]).0@ == spec_warnings(
                imap_entries(*deps),
                outcomes@,
            )[i].0 && r@[i].1 == spec_warnings(imap_entries(*deps), outcomes@)[i].1,
{
    let pairs = imap_pairs(deps);
    let n = pairs.len();
    let mut warnings: Vec<(String, FetchError)> = Vec::new();
    let mut i: usize = 0;
    while i < n
        invariant
            n == pairs@.len(),
            n == imap_entries(*deps).len(),
            n == outcomes@.len(),
            0 <= i <= n,
            forall|k: int|
                0 <= k < pairs@.len() ==> (#[trigger] pairs@[k]).0@ == imap_entries(*deps)[k].0
                    && pairs@[k].1@ == imap_entries(*deps)[k].1,
            warnings@.len() == spec_warnings(
                imap_entries(*deps).subrange(0, i as int),
                outcomes@.subrange(0, i as int),
            ).len(),
            forall|k: int|
                0 <= k < warnings@.len() ==> (#[trigger] warnings@[k]).0@ == spec_warnings(
                    imap_entries(*deps).subrange(0, i as int),
                    outcomes@.subrange(0, i as int),
                )[k].0 && warnings@[k].1 == spec_warnings(
                    imap_entries(*deps).subrange(0, i as int),
                    outcomes@.subrange(0, i as int),
                )[k].1,
        decreases n - i,
    {
        proof {
            let epre = imap_entries(*deps).subrange(0, i as int);
            let epre1 = imap_entries(*deps).subrange(0, i as int + 1);
            let opre = outcomes@.subrange(0, i as int);
            let opre1 = outcomes@.subrange(0, i as int + 1);
            assert(epre1.drop_last() =~= epre);
            assert(opre1.drop_last() =~= opre);
            assert(epre1.last() == imap_entries(*deps)[i as int]);
            assert(opre1.last() == outcomes@[i as int]);
        }
        match &outcomes[i] {
            Err(e) => {
                let entry = &pairs[i];
                warnings.push((entry.0.clone(), *e));
            },
            Ok(_) => {},
        }
        i = i + 1;
    }
    proof {
        assert(imap_entries(*deps).subrange(0, n as int) =~= imap_entries(*deps));
        assert(outcomes@.subrange(0, n as int) =~= outcomes@);
    }
    warnings
}

/// A group owes exactly as many warnings as it had failures.
pub proof fn lemma_warnings_count(
    entries: Seq<(Seq<char>, Seq<char>)>,
    outcomes: Seq<Result<String, FetchError>>,
)
    ensures
        spec_warnings(entries, outcomes).len() == count_errs(outcomes),
    decreases outcomes.len(),
{
    if outcomes.len() > 0 {
        lemma_warnings_count(entries.drop_last(), outcomes.drop_last());
    }
}

/// How many outcomes of a group are failures.
pub open spec fn count_errs(outcomes: Seq<Result<String, FetchError>>) -> int
    decreases outcomes.len(),
{
    if outcomes.len() == 0 {
        0
    } else {
        count_errs(outcomes.drop_last()) + if outcomes.last() is Err {
            1int
        } else {
            0int
        }
    }
}

/// Counts the failed lookups of one group, for the report's warning count.
pub fn count_failures(outcomes: &Vec<Result<String, FetchError>>) -> (r: usize)
    ensures
        r == count_errs(outcomes@),
{
    proof {
        lemma_count_errs_bounds(outcomes@);
    }
    let n = outcomes.len();
    let mut count: usize = 0;
    let mut i: usize = 0;
    while i < n
        invariant
            n == outcomes@.len(),
            0 <= i <= n,
            count == count_errs(outcomes@.subrange(0, i as int)),
            count <= i,
        decreases n - i,
    {
        proof {
            let pre = outcomes@.subrange(0, i as int);
            let pre1 = outcomes@.subrange(0, i as int + 1);
            assert(pre1.drop_last() =~= pre);
            assert(pre1.last() == outcomes@[i as int]);
        }
        if outcomes[i].is_err() {
            count = count + 1;
        }
        i = i + 1;
    }
    proof {
        assert(outcomes@.subrange(0, n as int) =~= outcomes@);
    }
    count
}

impl PackageUpdateData {
    /// The report line for this update: the package, then its old and new
    /// constraints.
    pub fn summary_line(&self) -> (r: String)
        ensures
            r@ == self.package_name@ + "     "@ + self.old_version@ + " => "@
                + self.new_version@,
    {
        let r = self
            .package_name
            .clone()
            .concat("     ")
            .concat(self.old_version.as_str())
            .concat(" => ")
            .concat(self.new_version.as_str());
        proof {
            assert(r@ =~= self.package_name@ + "     "@ + self.old_version@ + " => "@
                + self.new_version@);
        }
        r
    }
}

/// An entry whose fetched latest version equals its parsed base version
/// yields no update decision.
pub proof fn lemma_up_to_date_no_decision(
    name: Seq<char>,
    declared: Seq<char>,
    latest: String,
    group: DependencyGroup,
)
    requires
        latest@ == strip_markers(declared),
    ensures
        decision_for(name, declared, Ok(latest), group) is None,
{
}

/// An entry whose fetched latest version differs from its parsed base
/// version yields exactly one update decision, whose new constraint is the
/// declared marker followed by the latest version.
pub proof fn lemma_changed_version_decision(
    name: Seq<char>,
    declared: Seq<char>,
    latest: String,
    group: DependencyGroup,
)
    requires
        latest@ != strip_markers(declared),
    ensures
        decision_for(name, declared, Ok(latest), group) == Some(
            UpdateView {
                package_name: name,
                old_version: declared,
                new_version: prefix_chars(spec_prefix(declared)) + latest@,
                group: group,
            },
        ),
{
}

/// Outcomes that are all successes carry no failure.
proof fn lemma_count_errs_zero(outcomes: Seq<Result<String, FetchError>>)
    requires
        forall|i: int| 0 <= i < outcomes.len() ==> (#[trigger] outcomes[i]) is Ok,
    ensures
        count_errs(outcomes) == 0,
    decreases outcomes.len(),
{
    if outcomes.len() > 0 {
        lemma_count_errs_zero(outcomes.drop_last());
    }
}

/// A single failing lookup among the entries of a group is isolated: that
/// entry alone is left without a decision, every other entry's decision is
/// the one its own successful outcome owes it, and exactly one failure is
/// counted for the report.
pub proof fn lemma_single_failure_isolation(
    entries: Seq<(Seq<char>, Seq<char>)>,
    outcomes: Seq<Result<String, FetchError>>,
    results: Seq<Option<PackageUpdateData>>,
    f: int,
    group: DependencyGroup,
)
    requires
        outcomes.len() == entries.len(),
        results.len() == entries.len(),
        forall|i: int|
            0 <= i < results.len() ==> opt_view(#[trigger] results[i]) == decision_for(
                entries[i].0,
                entries[i].1,
                outcomes[i],
                group,
            ),
        0 <= f < outcomes.len(),
        outcomes[f] is Err,
        forall|i: int| 0 <= i < outcomes.len() && i != f ==> (#[trigger] outcomes[i]) is Ok,
    ensures
        results[f] is None,
        forall|i: int|
            0 <= i < results.len() && i != f ==> opt_view(#[trigger] results[i]) == decision_for(
                entries[i].0,
                entries[i].1,
                Ok(outcomes[i]->Ok_0),
                group,
            ),
        count_errs(outcomes) == 1,
        spec_warnings(entries, outcomes).len() == 1,
{
    lemma_count_errs_single(outcomes, f);
    lemma_warnings_count(entries, outcomes);
}

/// Exactly one failure among the outcomes counts as exactly one.
proof fn lemma_count_errs_single(outcomes: Seq<Result<String, FetchError>>, f: int)
    requires
        0 <= f < outcomes.len(),
        outcomes[f] is Err,
        forall|i: int| 0 <= i < outcomes.len() && i != f ==> (#[trigger] outcomes[i]) is Ok,
    ensures
        count_errs(outcomes) == 1,
    decreases outcomes.len(),
{
    if f == outcomes.len() - 1 {
        lemma_count_errs_zero(outcomes.drop_last());
    } else {
        lemma_count_errs_single(outcomes.drop_last(), f);
    }
}

/// A failure count never exceeds the number of outcomes.
proof fn lemma_count_errs_bounds(outcomes: Seq<Result<String, FetchError>>)
    ensures
        0 <= count_errs(outcomes) <= outcomes.len(),
    decreases outcomes.len(),
{
    if outcomes.len() > 0 {
        lemma_count_errs_bounds(outcomes.drop_last());
    }
}

} // verus!
