//! The health report of a service, put together from the outcome of its
//! checks.

use crate::error::FallError;
use crate::names::NameMap;
use crate::trace::text_of;
use vstd::prelude::*;

verus! {

/// Whether a part of the service works.
#[derive(Clone, Copy, Debug, PartialEq, Eq)]
pub enum HealthStatus {
    UP,
    DOWN,
}

/// The health of one part of the service: its status and, where it is
/// down, the text of the error that its check ended in.
#[derive(Debug)]
pub struct HealthItem {
    pub status: HealthStatus,
    pub err: Option<String>,
}

/// The health of the service: its status and the health of each part that
/// was checked, by the name of the part.
pub struct Health {
    pub status: HealthStatus,
    pub err: Option<String>,
    pub detail: NameMap<HealthItem>,
}

/// Whether `item` reports `outcome`: up after a check that passed, down
/// with the text of the error after one that failed.
pub open spec fn reports(outcome: Result<(), FallError>, item: HealthItem) -> bool {
    match outcome {
        Ok(_) => item.status == HealthStatus::UP && item.err is None,
        Err(e) => item.status == HealthStatus::DOWN && text_of(item.err) == Some(e.message()),
    }
}

/// The names of the checks, in order.
pub open spec fn check_names(outcomes: Seq<(String, Result<(), FallError>)>) -> Seq<Seq<char>> {
    Seq::new(outcomes.len(), |i: int| outcomes[i].0@)
}

/// Whether the error of a failed check holds the number of an HTTP status.
pub open spec fn outcome_wf(entry: (String, Result<(), FallError>)) -> bool {
    entry.1 matches Err(e) ==> e.wf()
}

/// Whether no check after the one at place `i` has the name of that check.
pub open spec fn last_of_name(names: Seq<Seq<char>>, i: int) -> bool {
    forall|j: int| i < j < names.len() ==> names[j] != names[i]
}

impl Health {
    /// The names in the report are distinct.
    pub open spec fn wf(&self) -> bool {
        self.detail.wf()
    }

    /// The report of a service of which nothing was checked yet: it is up.
    pub fn new() -> (r: Self)
        ensures
            r.wf(),
            r.status == HealthStatus::UP,
            r.err is None,
            r.detail.map() == Map::<Seq<char>, HealthItem>::empty(),
    {
        Health { status: HealthStatus::UP, err: None, detail: NameMap::new() }
    }
}

/// Enters the outcome of the check named `name` into the report, in place
/// of an earlier outcome under that name. A check that failed brings the
/// whole service down; one that passed leaves the status as it is.
pub fn modify_health(re: Result<(), FallError>, name: String, health: &mut Health)
    requires
        old(health).wf(),
        re matches Err(e) ==> e.wf(),
    ensures
        final(health).wf(),
        final(health).detail.map().dom().contains(name@),
        reports(re, final(health).detail.map()[name@]),
        final(health).detail.map() == old(health).detail.map().insert(
            name@,
            final(health).detail.map()[name@],
        ),
        final(health).status == if re is Ok {
            old(health).status
        } else {
            HealthStatus::DOWN
        },
        final(health).err == old(health).err,
{
    let item = match &re {
        Ok(_) => HealthItem { status: HealthStatus::UP, err: None },
        Err(e) => HealthItem { status: HealthStatus::DOWN, err: Some(e.to_string()) },
    };
    let ok = re.is_ok();
    health.detail.insert(name, item);
    if !ok {
        health.status = HealthStatus::DOWN;
    }
}

/// The report for the outcomes of all checks, entered in order: the
/// service is up exactly if every check passed, and each name stands with
/// the outcome of the last check of that name.
pub fn endpoint_health(outcomes: Vec<(String, Result<(), FallError>)>) -> (r: Health)
    requires
        forall|i: int| 0 <= i < outcomes@.len() ==> outcome_wf(#[trigger] outcomes@[i]),
    ensures
        r.wf(),
        r.err is None,
        r.status == HealthStatus::UP <==> forall|i: int|
            0 <= i < outcomes@.len() ==> (#[trigger] outcomes@[i]).1 is Ok,
        forall|name: Seq<char>|
            r.detail.map().dom().contains(name) <==> check_names(outcomes@).contains(name),
        forall|i: int|
            0 <= i < outcomes@.len() && last_of_name(check_names(outcomes@), i) ==> reports(
                (#[trigger] outcomes@[i]).1,
                r.detail.map()[check_names(outcomes@)[i]],
            ),
{
    let mut health = Health::new();
    let mut outcomes = outcomes;
    let ghost all = outcomes@;
    let ghost names = check_names(all);
    let n: usize = outcomes.len();
    let mut rest: Vec<(String, Result<(), FallError>)> = Vec::new();
    while outcomes.len() > 0
        invariant
            outcomes@.len() + rest@.len() == all.len(),
            forall|i: int| 0 <= i < outcomes@.len() ==> outcomes@[i] == all[i],
            forall|i: int|
                0 <= i < rest@.len() ==> #[trigger] rest@[i] == all[all.len() - 1 - i],
        decreases outcomes@.len(),
    {
        let last = outcomes.pop();
        match last {
            Some(entry) => {
                rest.push(entry);
            },
            None => {},
        }
    }
    let mut k: usize = 0;
    while rest.len() > 0
        invariant
            names == check_names(all),
            n == all.len(),
            k + rest@.len() == all.len(),
            forall|i: int|
                0 <= i < rest@.len() ==> #[trigger] rest@[i] == all[all.len() - 1 - i],
            forall|i: int| 0 <= i < all.len() ==> outcome_wf(#[trigger] all[i]),
            health.wf(),
            health.err is None,
            health.status == HealthStatus::UP <==> forall|i: int|
                0 <= i < k ==> (#[trigger] all[i]).1 is Ok,
            forall|name: Seq<char>|
                health.detail.map().dom().contains(name) <==> names.take(k as int).contains(
                    name,
                ),
            forall|i: int|
                0 <= i < k && last_of_name(names.take(k as int), i) ==> reports(
                    (#[trigger] all[i]).1,
                    health.detail.map()[names[i]],
                ),
        decreases rest@.len(),
    {
        let ghost before = health.detail.map();
        let next = rest.pop();
        match next {
            Some(entry) => {
                assert(entry == all[k as int]);
                assert(outcome_wf(all[k as int]));
                let ghost name = entry.0@;
                assert(name == names[k as int]);
                modify_health(entry.1, entry.0, &mut health);
                proof {
                    let after = health.detail.map();
                    assert(names.take(k + 1) =~= names.take(k as int).push(name));
                    assert forall|key: Seq<char>|
                        after.dom().contains(key) <==> names.take(k + 1).contains(key) by {
                        if names.take(k as int).contains(key) {
                            let j = names.take(k as int).index_of(key);
                            assert(names.take(k + 1)[j] == key);
                        }
                        if names.take(k + 1).contains(key) && key != name {
                            let j = names.take(k + 1).index_of(key);
                            assert(names.take(k as int)[j] == key);
                        }
                        if key == name {
                            assert(names.take(k + 1)[k as int] == key);
                        }
                    }
                    assert forall|i: int|
                        0 <= i < k + 1 && last_of_name(names.take(k + 1), i) implies reports(
                        (#[trigger] all[i]).1,
                        after[names[i]],
                    ) by {
                        if i < k {
                            assert(names.take(k + 1)[k as int] != names.take(k + 1)[i]);
                            assert forall|j: int| i < j < k implies names.take(k as int)[j]
                                != names.take(k as int)[i] by {
                                assert(names.take(k + 1)[j] != names.take(k + 1)[i]);
                            }
                            assert(last_of_name(names.take(k as int), i));
                            assert(after[names[i]] == before[names[i]]);
                        }
                    }
                }
                k = k + 1;
            },
            None => {},
        }
    }
    proof {
        assert(names.take(k as int) =~= names);
    }
    health
}

} // verus!
