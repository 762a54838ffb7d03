//! Cooldowns of command buttons: after a command is started its button
//! cools down for a while; once the command has finished, the rest of the
//! cooldown runs thirty times faster.

use vstd::prelude::*;
use std::collections::HashMap;
use crate::keyed::{views_of, KeyedList};

verus! {

broadcast use vstd::std_specs::hash::group_hash_axioms;

/// Length of a cooldown, in milliseconds.
pub const COOLDOWN_LENGTH: u32 = 45000;

/// How much faster a cooldown runs once its command has finished.
pub const FINISHED_SPEEDUP: u32 = 30;

/// Remaining cooldowns by button, the buttons whose command has finished,
/// and the button of each running invocation.
pub struct CooldownTimers {
    cooldown_times: KeyedList<u32>,
    cooldowns_finishing: Vec<String>,
    invocation_buttons: HashMap<u64, String>,
}

/// How much a button's cooldown goes down in one step.
pub open spec fn step_of(finishing: Seq<Seq<char>>, button: Seq<char>, decrement: u32) -> int {
    if finishing.contains(button) {
        FINISHED_SPEEDUP * decrement
    } else {
        decrement as int
    }
}

/// Whether some cooling button's command has finished (only then is a step
/// sped up).
pub open spec fn some_cooling_finished(times: Map<Seq<char>, u32>, finishing: Seq<Seq<char>>) -> bool {
    exists|b: Seq<char>| #[trigger] times.contains_key(b) && finishing.contains(b)
}

/// Whether a step ends a button's cooldown by overshooting it.
pub open spec fn overshoots(times: Map<Seq<char>, u32>, finishing: Seq<Seq<char>>, button: Seq<char>, decrement: u32) -> bool {
    times.contains_key(button) && step_of(finishing, button, decrement) > times[button]
}

/// The cooldowns after one step: each goes down by its step, and those
/// that reach zero are gone.
pub open spec fn times_after_step(times: Map<Seq<char>, u32>, finishing: Seq<Seq<char>>, decrement: u32) -> Map<Seq<char>, u32> {
    Map::new(
        |b: Seq<char>| times.contains_key(b) && times[b] > step_of(finishing, b, decrement),
        |b: Seq<char>| (times[b] - step_of(finishing, b, decrement)) as u32,
    )
}

/// The finishing buttons after one step: those whose cooldown the step
/// overshot are no longer listed.
pub open spec fn finishing_after_step(
    times: Map<Seq<char>, u32>,
    finishing: Seq<Seq<char>>,
    decrement: u32,
    remaining: Seq<Seq<char>>,
) -> Seq<Seq<char>>
    decreases remaining.len(),
{
    if remaining.len() == 0 {
        remaining
    } else if overshoots(times, finishing, remaining.last(), decrement) {
        finishing_after_step(times, finishing, decrement, remaining.drop_last())
    } else {
        finishing_after_step(times, finishing, decrement, remaining.drop_last()).push(remaining.last())
    }
}

impl CooldownTimers {
    /// Remaining cooldown of each cooling button.
    pub closed spec fn times(&self) -> Map<Seq<char>, u32> {
        self.cooldown_times@
    }

    /// Buttons whose command has finished, while they cool down.
    pub closed spec fn finishing(&self) -> Seq<Seq<char>> {
        views_of(self.cooldowns_finishing@)
    }

    /// The button of each running invocation.
    pub closed spec fn invocations(&self) -> Map<u64, Seq<char>> {
        self.invocation_buttons@.map_values(|b: String| b@)
    }

    /// No cooldowns.
    pub fn new() -> (t: CooldownTimers)
        ensures
            t.times() == Map::<Seq<char>, u32>::empty(),
            t.finishing() == Seq::<Seq<char>>::empty(),
            t.invocations() == Map::<u64, Seq<char>>::empty(),
    {
        let t = CooldownTimers {
            cooldown_times: KeyedList::new(),
            cooldowns_finishing: Vec::new(),
            invocation_buttons: HashMap::new(),
        };
        assert(t.finishing() =~= Seq::<Seq<char>>::empty());
        assert(t.invocations() =~= Map::<u64, Seq<char>>::empty());
        t
    }

    /// Starts the full cooldown of a button for an invocation.
    pub fn start_cooldown(&mut self, button_identifier: &str, invocation_id: u64)
        ensures
            final(self).times() == old(self).times().insert(button_identifier@, COOLDOWN_LENGTH),
            final(self).invocations() == old(self).invocations().insert(invocation_id, button_identifier@),
            final(self).finishing() == old(self).finishing(),
    {
        self.cooldown_times.insert(button_identifier.to_string(), COOLDOWN_LENGTH);
        let ghost before = self.invocation_buttons@;
        let button = button_identifier.to_string();
        self.invocation_buttons.insert(invocation_id, button);
        proof {
            assert(self.invocations() =~= before.map_values(|b: String| b@).insert(invocation_id, button_identifier@));
        }
    }

    /// Marks the cooldown of an invocation's button as finishing; nothing
    /// happens for an invocation this table does not know.
    pub fn finish_cooldown(&mut self, invocation_id: u64)
        ensures
            final(self).invocations() == old(self).invocations().remove(invocation_id),
            final(self).times() == old(self).times(),
            old(self).invocations().contains_key(invocation_id) ==> final(self).finishing() == old(
                self,
            ).finishing().push(old(self).invocations()[invocation_id]),
            !old(self).invocations().contains_key(invocation_id) ==> final(self).finishing() == old(self).finishing(),
    {
        let ghost before = self.invocation_buttons@;
        let removed = self.invocation_buttons.remove(&invocation_id);
        proof {
            assert(self.invocations() =~= before.map_values(|b: String| b@).remove(invocation_id));
        }
        match removed {
            Some(button) => {
                let ghost prev = self.cooldowns_finishing@;
                self.cooldowns_finishing.push(button);
                assert(self.finishing() =~= views_of(prev).push(before[invocation_id]@));
            },
            None => {},
        }
    }

    /// Remaining cooldown of a button; 0 when it is not cooling down.
    pub fn cooldown_of(&self, button_identifier: &str) -> (r: u32)
        ensures
            r == (if self.times().contains_key(button_identifier@) {
                self.times()[button_identifier@]
            } else {
                0
            }),
    {
        match self.cooldown_times.get(button_identifier) {
            Some(t) => *t,
            None => 0,
        }
    }

    /// Whether every cooldown is over.
    pub fn all_finished(&self) -> (r: bool)
        ensures
            r == (self.times().dom().len() == 0),
    {
        let n = self.cooldown_times.len();
        proof {
            self.cooldown_times.lemma_view_len();
        }
        n == 0
    }

    /// Advances every cooldown by `cooldown_decrement` milliseconds (thirty
    /// times that for finished commands) and drops those that are over;
    /// gives the number of cooldowns still running.
    pub fn update_cooldowns(&mut self, cooldown_decrement: u32) -> (remaining: usize)
        requires
            some_cooling_finished(old(self).times(), old(self).finishing()) ==> cooldown_decrement <= u32::MAX
                / FINISHED_SPEEDUP,
        ensures
            final(self).times() == times_after_step(old(self).times(), old(self).finishing(), cooldown_decrement),
            final(self).finishing() == finishing_after_step(
                old(self).times(),
                old(self).finishing(),
                cooldown_decrement,
                old(self).finishing(),
            ),
            final(self).invocations() == old(self).invocations(),
            remaining == final(self).times().dom().len(),
    {
        let ghost times0 = self.times();
        let ghost finishing0 = self.finishing();
        let n = self.cooldown_times.len();
        let mut updated: KeyedList<u32> = KeyedList::new();
        let mut i: usize = 0;
        while i < n
            invariant
                n == self.cooldown_times.keys().len(),
                self.cooldown_times.consistent(),
                self.cooldown_times@ == times0,
                views_of(self.cooldowns_finishing@) == finishing0,
                some_cooling_finished(times0, finishing0) ==> cooldown_decrement <= u32::MAX / FINISHED_SPEEDUP,
                i <= n,
                forall|b: Seq<char>| #[trigger] updated@.contains_key(b) ==> exists|j: int| 0 <= j < i && self.cooldown_times.keys()[j] == b,
                forall|j: int| 0 <= j < i ==> (#[trigger] updated@.contains_key(self.cooldown_times.keys()[j])
                    <==> times_after_step(times0, finishing0, cooldown_decrement).contains_key(self.cooldown_times.keys()[j])),
                forall|b: Seq<char>| #[trigger] updated@.contains_key(b) ==> updated@[b] == times_after_step(times0, finishing0, cooldown_decrement)[b],
            decreases n - i,
        {
            let button = self.cooldown_times.key_at(i);
            let time = *self.cooldown_times.value_at(i);
            let ghost b = button@;
            proof {
                assert(times0[b] == time);
                assert(times0.contains_key(b));
            }
            let finishing = crate::config_editor::contains_text(&self.cooldowns_finishing, button.as_str());
            proof {
                if finishing {
                    assert(times0.contains_key(b) && finishing0.contains(b));
                }
            }
            let step: u32 = if finishing { FINISHED_SPEEDUP * cooldown_decrement } else { cooldown_decrement };
            assert(step == step_of(finishing0, b, cooldown_decrement));
            if step < time {
                updated.insert(button.clone(), time - step);
            }
            proof {
                assert forall|b2: Seq<char>| #[trigger] updated@.contains_key(b2) implies exists|j: int| 0 <= j < i + 1 && self.cooldown_times.keys()[j] == b2 by {
                    if b2 == b {
                        assert(self.cooldown_times.keys()[i as int] == b2);
                    }
                }
                assert forall|j: int| 0 <= j < i + 1 implies (#[trigger] updated@.contains_key(self.cooldown_times.keys()[j])
                    <==> times_after_step(times0, finishing0, cooldown_decrement).contains_key(self.cooldown_times.keys()[j])) by {
                    if j < i && self.cooldown_times.keys()[j] == b {
                        crate::keyed::lemma_sorted_unique(self.cooldown_times.keys(), j, i as int);
                    }
                }
            }
            i = i + 1;
        }
        proof {
            assert forall|b: Seq<char>| #![auto] updated@.contains_key(b) == times_after_step(times0, finishing0, cooldown_decrement).contains_key(b) by {
                if times0.contains_key(b) {
                    let j = self.cooldown_times.keys().index_of(b);
                    assert(self.cooldown_times.keys()[j] == b);
                }
            }
            assert(updated@ =~= times_after_step(times0, finishing0, cooldown_decrement));
        }
        let mut kept: Vec<String> = Vec::new();
        let mut k: usize = 0;
        while k < self.cooldowns_finishing.len()
            invariant
                k <= self.cooldowns_finishing.len(),
                views_of(self.cooldowns_finishing@) == finishing0,
                self.cooldown_times@ == times0,
                some_cooling_finished(times0, finishing0) ==> cooldown_decrement <= u32::MAX / FINISHED_SPEEDUP,
                views_of(kept@) == finishing_after_step(times0, finishing0, cooldown_decrement, finishing0.take(k as int)),
            decreases self.cooldowns_finishing.len() - k,
        {
            let button = &self.cooldowns_finishing[k];
            assert(finishing0.take(k + 1).drop_last() =~= finishing0.take(k as int));
            assert(finishing0[k as int] == button@);
            let ghost prev = kept@;
            let overshot = match self.cooldown_times.get(button.as_str()) {
                Some(t) => {
                    assert(finishing0.contains(button@));
                    assert(times0.contains_key(button@));
                    FINISHED_SPEEDUP * cooldown_decrement > *t
                },
                None => false,
            };
            if !overshot {
                kept.push(button.clone());
                assert(views_of(kept@) =~= views_of(prev).push(button@));
            }
            k = k + 1;
        }
        assert(finishing0.take(finishing0.len() as int) =~= finishing0);
        self.cooldown_times = updated;
        self.cooldowns_finishing = kept;
        let remaining = self.cooldown_times.len();
        proof {
            self.cooldown_times.lemma_view_len();
        }
        remaining
    }
}

/// A step never starts a cooldown nor lengthens one: every cooldown left
/// after a step was running before, and is shorter by at least the plain
/// decrement.
pub proof fn law_cooldowns_only_shrink(times: Map<Seq<char>, u32>, finishing: Seq<Seq<char>>, decrement: u32, button: Seq<char>)
    ensures
        times_after_step(times, finishing, decrement).contains_key(button) ==> {
            &&& times.contains_key(button)
            &&& times_after_step(times, finishing, decrement)[button] + decrement <= times[button]
        },
        times.contains_key(button) && times[button] <= decrement ==> !times_after_step(times, finishing, decrement).contains_key(button),
{
}

} // verus!
