//! Which rule a charge reading selects, and when a selected rule fires.
//!
//! The rules of a discharging battery are kept in ascending order of their
//! thresholds. A reading selects the first rule whose threshold lies above
//! it. A selected rule fires unless it is the one that fired last; seeing
//! the battery charge forgets which one that was.

use vstd::prelude::*;
use crate::config::{Action, ActionView};
use crate::fraction::Fraction;

verus! {

/// What each of the given rules holds.
pub open spec fn views(actions: Seq<Action>) -> Seq<ActionView> {
    actions.map_values(|a: Action| a@)
}

/// The thresholds of the given rules.
pub open spec fn thresholds(actions: Seq<ActionView>) -> Seq<nat> {
    actions.map_values(|a: ActionView| a.threshold)
}

/// Whether no number of the sequence is followed by a lower one.
pub open spec fn ascending(keys: Seq<nat>) -> bool {
    forall|i: int, j: int| 0 <= i <= j < keys.len() ==> keys[i] <= keys[j]
}

/// `sorted` with `action` put in behind the last rule that it does not go
/// below: after the rules with a lower threshold and after those with the
/// same one.
pub open spec fn insert_sorted(sorted: Seq<ActionView>, action: ActionView) -> Seq<ActionView>
    decreases sorted.len(),
{
    if sorted.len() == 0 || sorted.last().threshold <= action.threshold {
        sorted.push(action)
    } else {
        insert_sorted(sorted.drop_last(), action).push(sorted.last())
    }
}

/// The given rules in ascending order of their thresholds. Rules with the
/// same threshold stay in the order in which they were given.
pub open spec fn sort_by_threshold(actions: Seq<ActionView>) -> Seq<ActionView>
    decreases actions.len(),
{
    if actions.len() == 0 {
        Seq::empty()
    } else {
        insert_sorted(sort_by_threshold(actions.drop_last()), actions.last())
    }
}

/// Whether `index` is the first of the thresholds that lies above `charge`.
pub open spec fn is_first_match(thresholds: Seq<nat>, charge: nat, index: int) -> bool {
    &&& 0 <= index < thresholds.len()
    &&& charge < thresholds[index]
    &&& forall|j: int| 0 <= j < index ==> !(charge < thresholds[j])
}

/// The index of the first threshold that lies above `charge`, if there is
/// one.
pub open spec fn first_match(thresholds: Seq<nat>, charge: nat) -> Option<int> {
    if exists|index: int| is_first_match(thresholds, charge, index) {
        Some(choose|index: int| is_first_match(thresholds, charge, index))
    } else {
        None
    }
}

/// There is at most one first match.
pub proof fn lemma_first_match_is(thresholds: Seq<nat>, charge: nat, index: int)
    requires
        is_first_match(thresholds, charge, index),
    ensures
        first_match(thresholds, charge) == Some(index),
{
    let chosen = choose|k: int| is_first_match(thresholds, charge, k);
    assert(is_first_match(thresholds, charge, chosen));
    if chosen < index {
        assert(!(charge < thresholds[chosen]));
    } else if index < chosen {
        assert(!(charge < thresholds[index]));
    }
}

/// Where nothing matches, no threshold lies above the charge; where
/// something does, the match is the least such index.
pub proof fn lemma_first_match_least(thresholds: Seq<nat>, charge: nat)
    ensures
        match first_match(thresholds, charge) {
            Some(index) => is_first_match(thresholds, charge, index),
            None => forall|j: int| 0 <= j < thresholds.len() ==> !(charge < thresholds[j]),
        },
{
    if first_match(thresholds, charge) is None {
        assert forall|j: int| 0 <= j < thresholds.len() implies !(charge < thresholds[j]) by {
            if charge < thresholds[j] {
                lemma_least_exists(thresholds, charge, j);
            }
        }
    }
}

proof fn lemma_least_exists(thresholds: Seq<nat>, charge: nat, hit: int)
    requires
        0 <= hit < thresholds.len(),
        charge < thresholds[hit],
    ensures
        exists|index: int| is_first_match(thresholds, charge, index),
    decreases hit,
{
    if exists|j: int| 0 <= j < hit && charge < thresholds[j] {
        let j = choose|j: int| 0 <= j < hit && charge < thresholds[j];
        lemma_least_exists(thresholds, charge, j);
    } else {
        assert(is_first_match(thresholds, charge, hit));
    }
}

/// In ascending thresholds the match is the most severe rule that applies:
/// every rule before it has a threshold at or below the charge, every rule
/// from it on a threshold above the charge.
pub proof fn lemma_match_splits_ascending(thresholds: Seq<nat>, charge: nat, index: int)
    requires
        ascending(thresholds),
        first_match(thresholds, charge) == Some(index),
    ensures
        0 <= index < thresholds.len(),
        forall|j: int| 0 <= j < index ==> thresholds[j] <= charge,
        forall|j: int| index <= j < thresholds.len() ==> charge < thresholds[j],
        forall|j: int|
            0 <= j < thresholds.len() && charge < thresholds[j] ==> thresholds[index]
                <= thresholds[j],
{
    lemma_first_match_least(thresholds, charge);
}

proof fn lemma_insert_at(sorted: Seq<ActionView>, action: ActionView, at: int)
    requires
        0 <= at <= sorted.len(),
        forall|j: int| at <= j < sorted.len() ==> action.threshold < sorted[j].threshold,
        at == 0 || sorted[at - 1].threshold <= action.threshold,
    ensures
        insert_sorted(sorted, action) == sorted.insert(at, action),
    decreases sorted.len() - at,
{
    if at == sorted.len() {
        assert(sorted.push(action) =~= sorted.insert(at, action));
    } else {
        assert(action.threshold < sorted.last().threshold);
        lemma_insert_at(sorted.drop_last(), action, at);
        assert(sorted.drop_last().insert(at, action).push(sorted.last()) =~= sorted.insert(
            at,
            action,
        ));
    }
}

/// Putting a rule into ascending rules leaves them ascending, and adds the
/// rule and nothing else.
pub proof fn lemma_insert_sorted(sorted: Seq<ActionView>, action: ActionView)
    ensures
        insert_sorted(sorted, action).len() == sorted.len() + 1,
        insert_sorted(sorted, action).to_multiset() == sorted.to_multiset().insert(action),
        ascending(thresholds(sorted)) ==> ascending(thresholds(insert_sorted(sorted, action))),
    decreases sorted.len(),
{
    broadcast use vstd::seq_lib::to_multiset_build;

    let out = insert_sorted(sorted, action);
    if sorted.len() == 0 || sorted.last().threshold <= action.threshold {
        if ascending(thresholds(sorted)) {
            assert forall|i: int, j: int| 0 <= i <= j < out.len() implies thresholds(out)[i]
                <= thresholds(out)[j] by {
                if j < sorted.len() {
                    assert(thresholds(sorted)[i] <= thresholds(sorted)[j]);
                } else if i < sorted.len() {
                    assert(thresholds(sorted)[i] <= thresholds(sorted)[sorted.len() - 1]);
                }
            }
        }
    } else {
        let front = sorted.drop_last();
        lemma_insert_sorted(front, action);
        let inner = insert_sorted(front, action);
        assert(sorted == front.push(sorted.last()));
        assert(out.to_multiset() =~= sorted.to_multiset().insert(action));
        if ascending(thresholds(sorted)) {
            assert forall|i: int, j: int| 0 <= i <= j < front.len() implies thresholds(front)[i]
                <= thresholds(front)[j] by {
                assert(thresholds(sorted)[i] <= thresholds(sorted)[j]);
            }
            assert(ascending(thresholds(inner)));
            lemma_bounded_by(front, action, sorted.last().threshold);
            assert forall|i: int| 0 <= i < front.len() implies front[i].threshold
                <= sorted.last().threshold by {
                assert(thresholds(sorted)[i] <= thresholds(sorted)[sorted.len() - 1]);
            }
            assert forall|i: int, j: int| 0 <= i <= j < out.len() implies thresholds(out)[i]
                <= thresholds(out)[j] by {
                if j < inner.len() {
                    assert(thresholds(inner)[i] <= thresholds(inner)[j]);
                } else if i < inner.len() {
                    assert(inner[i].threshold <= sorted.last().threshold);
                }
            }
        }
    }
}

proof fn lemma_bounded_by(sorted: Seq<ActionView>, action: ActionView, bound: nat)
    requires
        action.threshold <= bound,
    ensures
        (forall|i: int| 0 <= i < sorted.len() ==> sorted[i].threshold <= bound) ==> forall|i: int|
            0 <= i < insert_sorted(sorted, action).len() ==> #[trigger] insert_sorted(
                sorted,
                action,
            )[i].threshold <= bound,
    decreases sorted.len(),
{
    if !(sorted.len() == 0 || sorted.last().threshold <= action.threshold) {
        lemma_bounded_by(sorted.drop_last(), action, bound);
        if forall|i: int| 0 <= i < sorted.len() ==> sorted[i].threshold <= bound {
            let inner = insert_sorted(sorted.drop_last(), action);
            assert forall|i: int| 0 <= i < sorted.drop_last().len() implies sorted.drop_last()[i].threshold
                <= bound by {
                assert(sorted.drop_last()[i] == sorted[i]);
            }
            assert forall|i: int| 0 <= i < insert_sorted(sorted, action).len() implies #[trigger] insert_sorted(
                sorted,
                action,
            )[i].threshold <= bound by {
                if i < inner.len() {
                    assert(insert_sorted(sorted, action)[i] == inner[i]);
                } else {
                    assert(insert_sorted(sorted, action)[i] == sorted.last());
                }
            }
        }
    }
}

/// Sorting rules by their thresholds gives the same rules, in ascending
/// order.
pub proof fn lemma_sort_by_threshold(actions: Seq<ActionView>)
    ensures
        sort_by_threshold(actions).len() == actions.len(),
        sort_by_threshold(actions).to_multiset() == actions.to_multiset(),
        ascending(thresholds(sort_by_threshold(actions))),
    decreases actions.len(),
{
    broadcast use vstd::seq_lib::to_multiset_build;

    if actions.len() > 0 {
        lemma_sort_by_threshold(actions.drop_last());
        lemma_insert_sorted(sort_by_threshold(actions.drop_last()), actions.last());
        assert(actions == actions.drop_last().push(actions.last()));
    } else {
        assert(actions =~= Seq::empty());
    }
}

/// The rules of a discharging battery, in ascending order of their
/// thresholds.
pub struct ActionSet {
    actions: Vec<Action>,
}

impl View for ActionSet {
    type V = Seq<ActionView>;

    closed spec fn view(&self) -> Seq<ActionView> {
        views(self.actions@)
    }
}

impl ActionSet {
    #[verifier::type_invariant]
    spec fn in_order(self) -> bool {
        ascending(thresholds(views(self.actions@)))
    }

    /// Orders the given rules by their thresholds. Rules with the same
    /// threshold stay in the order in which they were given, so the one
    /// configured first is the one that is selected.
    pub fn new(actions: Vec<Action>) -> (set: ActionSet)
        ensures
            set@ == sort_by_threshold(views(actions@)),
            set@.to_multiset() == views(actions@).to_multiset(),
            ascending(thresholds(set@)),
    {
        let ghost given = views(actions@);
        let mut rest = actions;
        let mut sorted: Vec<Action> = Vec::new();
        let ghost mut done: int = 0;
        assert(given.take(0) =~= Seq::empty());
        while rest.len() > 0
            invariant
                0 <= done <= given.len(),
                views(rest@) == given.skip(done),
                views(sorted@) == sort_by_threshold(given.take(done)),
            decreases rest.len(),
        {
            proof {
                assert(views(rest@).len() == rest@.len());
                assert(views(rest@)[0] == rest@[0]@);
                assert(given.skip(done)[0] == given[done]);
            }
            let ghost unsorted = rest@;
            let action = rest.remove(0);
            let mut at: usize = sorted.len();
            while at > 0 && action.percentage.lt(&sorted[at - 1].percentage)
                invariant
                    at <= sorted.len(),
                    forall|j: int|
                        at <= j < sorted.len() ==> action@.threshold < views(
                            sorted@,
                        )[j].threshold,
                decreases at,
            {
                at -= 1;
            }
            proof {
                let before = given.take(done);
                let after = given.take(done + 1);
                assert(action@ == given[done]);
                assert(after.drop_last() == before);
                assert(after.last() == action@);
                lemma_insert_at(views(sorted@), action@, at as int);
                assert(views(sorted@.insert(at as int, action)) =~= views(sorted@).insert(
                    at as int,
                    action@,
                ));
                assert(views(rest@) =~= views(unsorted).skip(1));
                assert(views(rest@) =~= given.skip(done + 1));
                done = done + 1;
            }
            sorted.insert(at, action);
        }
        proof {
            assert(given.take(done) == given);
            lemma_sort_by_threshold(given);
        }
        ActionSet { actions: sorted }
    }

    /// The number of rules.
    pub fn len(&self) -> (n: usize)
        ensures
            n == self@.len(),
    {
        self.actions.len()
    }

    /// The rule at `index`, counted from the lowest threshold.
    pub fn get(&self, index: usize) -> (action: Option<&Action>)
        ensures
            ascending(thresholds(self@)),
            match action {
                Some(action) => index < self@.len() && action@ == self@[index as int],
                None => index >= self@.len(),
            },
    {
        proof {
            use_type_invariant(self);
        }
        if index < self.actions.len() {
            Some(&self.actions[index])
        } else {
            None
        }
    }

    /// The first rule whose threshold lies above `charge`: of the rules that
    /// apply, the one with the lowest threshold.
    pub fn first_match(&self, charge: &Fraction) -> (found: Option<usize>)
        ensures
            ascending(thresholds(self@)),
            match found {
                Some(index) => first_match(thresholds(self@), charge.key()) == Some(index as int),
                None => first_match(thresholds(self@), charge.key()) is None,
            },
    {
        proof {
            use_type_invariant(self);
        }
        let mut index: usize = 0;
        while index < self.actions.len()
            invariant
                index <= self.actions.len(),
                ascending(thresholds(views(self.actions@))),
                forall|j: int|
                    0 <= j < index ==> !(charge.key() < thresholds(views(self.actions@))[j]),
            decreases self.actions.len() - index,
        {
            if self.actions[index].exceeds_threshold(charge) {
                proof {
                    assert(thresholds(views(self.actions@))[index as int]
                        == self.actions@[index as int]@.threshold);
                    lemma_first_match_is(
                        thresholds(views(self.actions@)),
                        charge.key(),
                        index as int,
                    );
                }
                return Some(index);
            }
            assert(thresholds(views(self.actions@))[index as int]
                == self.actions@[index as int]@.threshold);
            index += 1;
        }
        proof {
            assert forall|k: int|
                !is_first_match(thresholds(views(self.actions@)), charge.key(), k) by {}
        }
        None
    }
}

/// What the watchdog reads of the battery at one tick.
#[derive(Clone, Copy, Debug)]
pub struct BatterySample {
    pub charge: Fraction,
    pub is_charging: bool,
}

/// What a tick asks for.
#[derive(Clone, Copy, Debug, PartialEq, Eq, Structural)]
pub enum Decision {
    /// Nothing happens.
    Idle,
    /// The rule at this index of the ordered rules fires.
    Fire(usize),
    /// The battery went back on AC power after a rule had fired: the rule
    /// for that, if one is configured, fires.
    Reconnected,
}

/// The rule that a discharging tick fires, if any, and the rule that counts
/// as fired last after it. A match that fired last does not fire again; no
/// match leaves things as they were.
pub open spec fn discharge_step(last: Option<usize>, thresholds: Seq<nat>, charge: nat) -> (
    Option<usize>,
    Option<usize>,
) {
    match first_match(thresholds, charge) {
        Some(index) => if last == Some(index as usize) {
            (last, None)
        } else {
            (Some(index as usize), Some(index as usize))
        },
        None => (last, None),
    }
}

/// One tick: the rule that counts as fired last after it, and what it asks
/// for. A charging battery forgets the rule that fired last and evaluates
/// no threshold: going back on AC power is told whatever the charge is, also
/// where the rule for it has a threshold that the charge has not reached.
pub open spec fn step(
    last: Option<usize>,
    thresholds: Seq<nat>,
    charge: nat,
    is_charging: bool,
) -> (Option<usize>, Decision) {
    if is_charging {
        (
            None,
            if last is Some {
                Decision::Reconnected
            } else {
                Decision::Idle
            },
        )
    } else {
        let (next, fired) = discharge_step(last, thresholds, charge);
        (
            next,
            match fired {
                Some(index) => Decision::Fire(index),
                None => Decision::Idle,
            },
        )
    }
}

/// Looks for the rule that applies to the charge of a discharging battery.
/// Returns its index if it has to fire now, and remembers it in
/// `last_action_index`.
pub fn match_actions(
    actions: &ActionSet,
    charge_value: &Fraction,
    last_action_index: &mut Option<usize>,
) -> (fired: Option<usize>)
    ensures
        (*final(last_action_index), fired) == discharge_step(
            *old(last_action_index),
            thresholds(actions@),
            charge_value.key(),
        ),
        fired matches Some(index) ==> is_first_match(
            thresholds(actions@),
            charge_value.key(),
            index as int,
        ),
{
    proof {
        lemma_first_match_least(thresholds(actions@), charge_value.key());
    }
    match actions.first_match(charge_value) {
        Some(index) => {
            let already = match *last_action_index {
                Some(last) => last == index,
                None => false,
            };
            if already {
                None
            } else {
                *last_action_index = Some(index);
                Some(index)
            }
        },
        None => None,
    }
}

/// The state of the watchdog: the rule that fired at the last discharging
/// tick and has not been superseded since.
#[derive(Debug)]
pub struct ThresholdMatcher {
    last_fired: Option<usize>,
}

impl View for ThresholdMatcher {
    type V = Option<usize>;

    closed spec fn view(&self) -> Option<usize> {
        self.last_fired
    }
}

impl ThresholdMatcher {
    /// A matcher for which no rule has fired yet.
    pub fn new() -> (matcher: ThresholdMatcher)
        ensures
            matcher@ is None,
    {
        ThresholdMatcher { last_fired: None }
    }

    /// The index of the rule that fired last, if one did since the battery
    /// was last seen charging.
    pub fn last_fired(&self) -> (last: Option<usize>)
        ensures
            last == self@,
    {
        self.last_fired
    }

    /// Takes one reading and says what has to happen.
    pub fn tick(&mut self, actions: &ActionSet, sample: &BatterySample) -> (decision: Decision)
        ensures
            (final(self)@, decision) == step(
                old(self)@,
                thresholds(actions@),
                sample.charge.key(),
                sample.is_charging,
            ),
            decision matches Decision::Fire(index) ==> !sample.is_charging && is_first_match(
                thresholds(actions@),
                sample.charge.key(),
                index as int,
            ),
    {
        if sample.is_charging {
            let fired_before = self.last_fired.is_some();
            self.last_fired = None;
            if fired_before {
                Decision::Reconnected
            } else {
                Decision::Idle
            }
        } else {
            let mut last = self.last_fired;
            let fired = match_actions(actions, &sample.charge, &mut last);
            self.last_fired = last;
            match fired {
                Some(index) => Decision::Fire(index),
                None => Decision::Idle,
            }
        }
    }
}

/// Two discharging ticks in a row that select the same rule fire it at the
/// first of them only, whatever fired before.
pub proof fn lemma_same_match_fires_once(
    last: Option<usize>,
    thresholds: Seq<nat>,
    first: nat,
    second: nat,
)
    requires
        first_match(thresholds, first) is Some,
        first_match(thresholds, second) == first_match(thresholds, first),
    ensures
        ({
            let (after_first, _) = step(last, thresholds, first, false);
            let (after_second, decision) = step(after_first, thresholds, second, false);
            &&& after_first == Some(first_match(thresholds, first)->0 as usize)
            &&& after_second == after_first
            &&& decision == Decision::Idle
        }),
{
    lemma_first_match_least(thresholds, first);
}

/// A discharging tick that selects another rule than the one that fired last
/// fires the selected rule.
pub proof fn lemma_changed_match_fires(
    last: Option<usize>,
    thresholds: Seq<nat>,
    charge: nat,
    index: usize,
)
    requires
        first_match(thresholds, charge) == Some(index as int),
        last != Some(index),
    ensures
        step(last, thresholds, charge, false) == (Some(index), Decision::Fire(index)),
{
}

/// Seeing the battery charge forgets the rule that fired last: the next
/// discharging tick that selects a rule fires it, also if it is the rule that
/// had fired before.
pub proof fn lemma_charging_rearms(
    last: Option<usize>,
    thresholds: Seq<nat>,
    while_charging: nat,
    charge: nat,
    index: usize,
)
    requires
        first_match(thresholds, charge) == Some(index as int),
    ensures
        ({
            let (rearmed, _) = step(last, thresholds, while_charging, true);
            &&& rearmed is None
            &&& step(rearmed, thresholds, charge, false) == (Some(index), Decision::Fire(index))
        }),
{
}

/// What a charging tick asks for and leaves behind does not depend on the
/// charge.
pub proof fn lemma_charging_ignores_charge(
    last: Option<usize>,
    thresholds: Seq<nat>,
    one: nat,
    other: nat,
)
    ensures
        step(last, thresholds, one, true) == step(last, thresholds, other, true),
{
}

/// The rule fires on AC power at most once: a charging tick asks for it only
/// if a rule had fired since the battery was last seen charging.
pub proof fn lemma_reconnect_once(
    last: Option<usize>,
    thresholds: Seq<nat>,
    first: nat,
    second: nat,
)
    ensures
        ({
            let (after_first, decision) = step(last, thresholds, first, true);
            &&& decision == Decision::Reconnected <==> last is Some
            &&& step(after_first, thresholds, second, true) == (None::<usize>, Decision::Idle)
        }),
{
}

/// While the battery discharges and no rule fires, the rule that fired last
/// stays remembered: a charge that rose above every threshold and falls back
/// to the same rule does not fire it again.
pub proof fn lemma_rise_without_charging_keeps_state(
    thresholds: Seq<nat>,
    high: nat,
    low: nat,
    index: usize,
)
    requires
        first_match(thresholds, high) is None,
        first_match(thresholds, low) == Some(index as int),
    ensures
        ({
            let (after_rise, risen) = step(Some(index), thresholds, high, false);
            &&& after_rise == Some(index)
            &&& risen == Decision::Idle
            &&& step(after_rise, thresholds, low, false) == (Some(index), Decision::Idle)
        }),
{
}


} // verus!
