//! The hints of the exercise that the learner is on, given out one at a time.

use crate::progress::Exercise;
use crate::text::same_text;
use vstd::prelude::*;

verus! {

/// Which exercise hints are given for, and how many of them have been given.
pub struct HintView {
    pub current: Option<Exercise>,
    pub shown: nat,
}

impl HintView {
    /// The hints that are left.
    pub open spec fn left(self) -> Seq<&'static str> {
        match self.current {
            Some(exercise) => exercise.hints@.skip(self.shown as int),
            None => seq![],
        }
    }

    /// The tracker once the learner is on `exercise`. A learner who was on it
    /// already keeps their place among its hints.
    pub open spec fn on(self, exercise: Exercise) -> HintView {
        if self.current matches Some(current) && current.name@ == exercise.name@ {
            self
        } else {
            HintView { current: Some(exercise), shown: 0 }
        }
    }

    /// The tracker once the next hint has been asked for.
    pub open spec fn after_hint(self) -> HintView {
        if self.left().len() > 0 {
            HintView { shown: self.shown + 1, ..self }
        } else {
            self
        }
    }

    /// The answer to asking for the next hint.
    pub open spec fn hint(self) -> Option<&'static str> {
        if self.left().len() > 0 {
            Some(self.left()[0])
        } else {
            None
        }
    }
}

/// Gives out the hints of the exercise that the learner is on, in order and each
/// of them once.
#[derive(Debug)]
pub struct HintTracker {
    current: Option<&'static Exercise>,
    shown: usize,
}

impl View for HintTracker {
    type V = HintView;

    closed spec fn view(&self) -> HintView {
        HintView {
            current: match self.current {
                Some(exercise) => Some(*exercise),
                None => None,
            },
            shown: self.shown as nat,
        }
    }
}

impl HintTracker {
    #[verifier::type_invariant]
    spec fn well_formed(self) -> bool {
        match self.current {
            Some(exercise) => self.shown <= exercise.hints@.len(),
            None => self.shown == 0,
        }
    }

    /// A tracker with nothing to hint about.
    pub fn new() -> (tracker: Self)
        ensures
            tracker@ == (HintView { current: None, shown: 0 }),
    {
        HintTracker { current: None, shown: 0 }
    }

    /// Puts the learner on `exercise`.
    pub fn set_current_exercise(&mut self, exercise: &'static Exercise)
        ensures
            final(self)@ == old(self)@.on(*exercise),
    {
        let kept = match self.current {
            Some(current) => same_text(current.name, exercise.name),
            None => false,
        };
        if !kept {
            *self = HintTracker { current: Some(exercise), shown: 0 };
        }
    }

    /// Leaves nothing to hint about.
    pub fn clear(&mut self)
        ensures
            final(self)@ == (HintView { current: None, shown: 0 }),
    {
        *self = HintTracker { current: None, shown: 0 };
    }

    /// The next hint, unless there is none left or nothing to hint about.
    pub fn next_hint(&mut self) -> (hint: Option<&'static str>)
        ensures
            hint == old(self)@.hint(),
            final(self)@ == old(self)@.after_hint(),
            old(self)@.current matches Some(exercise) ==> old(self)@.shown
                <= exercise.hints@.len(),
    {
        proof {
            use_type_invariant(&*self);
        }
        match self.current {
            Some(exercise) => {
                if self.shown < exercise.hints.len() {
                    let hint = exercise.hints[self.shown];
                    *self = HintTracker { current: Some(exercise), shown: self.shown + 1 };
                    Some(hint)
                } else {
                    None
                }
            },
            None => None,
        }
    }
}

impl Default for HintTracker {
    fn default() -> (tracker: Self)
        ensures
            tracker@ == (HintView { current: None, shown: 0 }),
    {
        HintTracker::new()
    }
}

/// The tracker once `asked` hints have been asked for.
pub open spec fn after_hints(view: HintView, asked: nat) -> HintView
    decreases asked,
{
    if asked == 0 {
        view
    } else {
        after_hints(view, (asked - 1) as nat).after_hint()
    }
}

/// Hints come in order, each of them once. Then there are none, however often the
/// learner asks.
pub proof fn hints_come_in_order(view: HintView, exercise: Exercise, asked: nat)
    requires
        view.current == Some(exercise),
        view.shown == 0,
    ensures
        after_hints(view, asked).current == view.current,
        after_hints(view, asked).shown == if asked < exercise.hints@.len() {
            asked
        } else {
            exercise.hints@.len()
        },
        after_hints(view, asked).hint() == if asked < exercise.hints@.len() {
            Some(exercise.hints@[asked as int])
        } else {
            None
        },
    decreases asked,
{
    if asked > 0 {
        hints_come_in_order(view, exercise, (asked - 1) as nat);
    }
}

/// An exercise that the learner was not on before starts with its first hint.
pub proof fn a_new_exercise_offers_its_first_hint(view: HintView, exercise: Exercise)
    requires
        view.current matches Some(current) ==> current.name@ != exercise.name@,
        exercise.hints@.len() > 0,
    ensures
        view.on(exercise).hint() == Some(exercise.hints@[0]),
{
}

/// Being put on the same exercise again, as every failing save does, takes no hint
/// back and gives none away.
pub proof fn the_same_exercise_keeps_its_hints(view: HintView, exercise: Exercise, asked: nat)
    ensures
        view.on(exercise).on(exercise) == view.on(exercise),
        after_hints(view.on(exercise), asked).on(exercise) == after_hints(
            view.on(exercise),
            asked,
        ),
    decreases asked,
{
    if asked > 0 {
        the_same_exercise_keeps_its_hints(view, exercise, (asked - 1) as nat);
    }
}

/// The next hint is the first that has not been given, and giving it uses up that one
/// and no other. Where there is none, asking changes nothing.
pub proof fn asking_uses_up_one_hint(tracker: &mut HintTracker, hint: Option<&'static str>)
    requires
        call_ensures(HintTracker::next_hint, (tracker,), hint),
    ensures
        final(tracker)@.current == old(tracker)@.current,
        if old(tracker)@.current is Some && old(tracker)@.shown < old(
            tracker,
        )@.current->0.hints@.len() {
            &&& hint == Some(old(tracker)@.current->0.hints@[old(tracker)@.shown as int])
            &&& final(tracker)@.shown == old(tracker)@.shown + 1
        } else {
            &&& hint is None
            &&& final(tracker)@.shown == old(tracker)@.shown
        },
{
}

/// A learner who comes to an exercise has all of its hints before them. One who is on
/// it already keeps their place.
pub proof fn only_another_exercise_starts_its_hints_anew(
    tracker: &mut HintTracker,
    exercise: &'static Exercise,
)
    requires
        call_ensures(HintTracker::set_current_exercise, (tracker, exercise), ()),
    ensures
        if old(tracker)@.current is Some && old(tracker)@.current->0.name@ == exercise.name@ {
            &&& final(tracker)@.current == old(tracker)@.current
            &&& final(tracker)@.shown == old(tracker)@.shown
        } else {
            &&& final(tracker)@.current == Some(*exercise)
            &&& final(tracker)@.shown == 0
        },
{
}

/// A learner who is put on an exercise and asks again and again is given its hints one
/// after the other, and then none.
pub proof fn all_hints_are_given_in_order(
    seeded: &mut HintTracker,
    exercise: &'static Exercise,
    asked: Seq<&mut HintTracker>,
    given: Seq<Option<&'static str>>,
    count: int,
)
    requires
        call_ensures(HintTracker::new, (), *old(seeded)),
        call_ensures(HintTracker::set_current_exercise, (seeded, exercise), ()),
        given.len() == asked.len(),
        forall|i: int|
            0 <= i < asked.len() ==> call_ensures(
                HintTracker::next_hint,
                (#[trigger] asked[i],),
                given[i],
            ),
        forall|i: int|
            0 <= i < asked.len() ==> *(#[trigger] asked[i]) == if i == 0 {
                *final(seeded)
            } else {
                *final(asked[i - 1])
            },
        0 <= count <= asked.len(),
    ensures
        forall|i: int|
            0 <= i < count ==> #[trigger] given[i] == if i < exercise.hints@.len() {
                Some(exercise.hints@[i])
            } else {
                None
            },
        ({
            let tracker = if count == 0 {
                *final(seeded)
            } else {
                *final(asked[count - 1])
            };
            &&& tracker@.current == Some(*exercise)
            &&& tracker@.shown == if count < exercise.hints@.len() {
                count
            } else {
                exercise.hints@.len() as int
            }
        }),
    decreases count,
{
    if count > 0 {
        all_hints_are_given_in_order(seeded, exercise, asked, given, count - 1);
        assert(*asked[count - 1] == if count == 1 {
            *final(seeded)
        } else {
            *final(asked[count - 2])
        });
    }
}

/// A tracker that is new, or has been cleared, has no hint to give.
pub proof fn nothing_is_hinted_about_no_exercise(
    fresh: HintTracker,
    default: HintTracker,
    cleared: &mut HintTracker,
    asked: &mut HintTracker,
    hint: Option<&'static str>,
)
    requires
        call_ensures(HintTracker::new, (), fresh),
        call_ensures(HintTracker::default, (), default),
        call_ensures(HintTracker::clear, (cleared,), ()),
        *old(asked) == fresh || *old(asked) == default || *old(asked) == *final(cleared),
        call_ensures(HintTracker::next_hint, (asked,), hint),
    ensures
        hint is None,
        final(asked)@.current is None,
{
}

} // verus!
