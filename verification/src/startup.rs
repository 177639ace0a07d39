//! What is settled when the program starts: how it prints, and which modules it
//! runs in which order.

use crate::progress::Module;
use crate::text::same_text;
use vstd::prelude::*;

verus! {

/// True if one of `args` is `--plain`.
pub open spec fn asks_for_plain(args: Seq<String>) -> bool {
    exists|i: int| 0 <= i < args.len() && (#[trigger] args[i])@ == "--plain"@
}

/// Plain mode is on where the arguments ask for it, and wherever standard output is
/// no terminal, since nothing can be drawn there.
pub fn plain_mode(args: &Vec<String>, stdout_is_terminal: bool) -> (plain: bool)
    ensures
        plain == (asks_for_plain(args@) || !stdout_is_terminal),
{
    let mut i: usize = 0;
    while i < args.len()
        invariant
            i <= args.len(),
            forall|j: int| 0 <= j < i ==> (#[trigger] args@[j])@ != "--plain"@,
        decreases args.len() - i,
    {
        if same_text(args[i].as_str(), "--plain") {
            return true;
        }
        i = i + 1;
    }
    !stdout_is_terminal
}

/// How many exercises `modules` hold together.
pub open spec fn exercise_count(modules: Seq<Module>) -> nat
    decreases modules.len(),
{
    if modules.len() == 0 {
        0
    } else {
        exercise_count(modules.drop_last()) + modules.last().exercises@.len()
    }
}

/// How many exercises `modules` hold together.
pub fn total_exercises(modules: &[Module]) -> (total: usize)
    requires
        exercise_count(modules@) <= usize::MAX,
    ensures
        total == exercise_count(modules@),
{
    let mut total: usize = 0;
    let mut i: usize = 0;
    while i < modules.len()
        invariant
            i <= modules.len(),
            exercise_count(modules@) <= usize::MAX,
            total == exercise_count(modules@.take(i as int)),
        decreases modules.len() - i,
    {
        proof {
            assert(modules@.take(i + 1).drop_last() == modules@.take(i as int));
            fewer_modules_hold_fewer_exercises(modules@, i + 1);
        }
        total = total + modules[i].exercises.len();
        i = i + 1;
    }
    assert(modules@.take(i as int) == modules@);
    total
}

proof fn fewer_modules_hold_fewer_exercises(modules: Seq<Module>, count: int)
    requires
        0 <= count <= modules.len(),
    ensures
        exercise_count(modules.take(count)) <= exercise_count(modules),
    decreases modules.len(),
{
    if count < modules.len() {
        assert(modules.drop_last().take(count) == modules.take(count));
        fewer_modules_hold_fewer_exercises(modules.drop_last(), count);
    } else {
        assert(modules.take(count) == modules);
    }
}

/// The name of the module that comes after the one at `index`, unless that is the
/// last.
pub fn next_module_name(modules: &[Module], index: usize) -> (name: Option<&'static str>)
    requires
        index < modules@.len(),
    ensures
        name == if index + 1 < modules@.len() {
            Some(modules@[index + 1].name)
        } else {
            None
        },
{
    if modules.len() - index > 1 {
        Some(modules[index + 1].name)
    } else {
        None
    }
}

/// Plain mode is on if and only if one of the arguments is `--plain` or standard output
/// is no terminal.
pub proof fn plain_mode_has_two_reasons(args: &Vec<String>, stdout_is_terminal: bool, plain: bool)
    requires
        call_ensures(plain_mode, (args, stdout_is_terminal), plain),
    ensures
        !stdout_is_terminal ==> plain,
        stdout_is_terminal ==> (plain <==> exists|i: int|
            0 <= i < args@.len() && (#[trigger] args@[i])@ == "--plain"@),
{
}

proof fn exercise_counts_add_up(left: Seq<Module>, right: Seq<Module>)
    ensures
        exercise_count(left + right) == exercise_count(left) + exercise_count(right),
    decreases right.len(),
{
    if right.len() == 0 {
        assert(left + right =~= left);
    } else {
        exercise_counts_add_up(left, right.drop_last());
        assert((left + right).drop_last() =~= left + right.drop_last());
    }
}

/// One module counts for as many exercises as it has, none counts for nothing, and the
/// exercises of two groups of modules add up.
pub proof fn totals_add_up(
    left: &[Module],
    right: &[Module],
    both: &[Module],
    left_total: usize,
    right_total: usize,
    total: usize,
)
    requires
        both@ == left@ + right@,
        call_ensures(total_exercises, (left,), left_total),
        call_ensures(total_exercises, (right,), right_total),
        call_ensures(total_exercises, (both,), total),
    ensures
        total == left_total + right_total,
        left@.len() == 0 ==> left_total == 0,
        left@.len() == 1 ==> left_total == left@[0].exercises@.len(),
{
    exercise_counts_add_up(left@, right@);
    if left@.len() == 1 {
        assert(left@.drop_last() =~= seq![]);
        assert(exercise_count(left@.drop_last()) == 0);
    }
}

/// The module that comes after one is its neighbour to the right, and only the last
/// module has none.
pub proof fn modules_follow_each_other(
    modules: &[Module],
    index: usize,
    name: Option<&'static str>,
)
    requires
        index < modules@.len(),
        call_ensures(next_module_name, (modules, index), name),
    ensures
        name is None <==> index == modules@.len() - 1,
        name matches Some(next) ==> next == modules@[index + 1].name,
{
}

} // verus!
