//! Debounce and stale-run primitives for the file watcher. They know nothing of
//! the filesystem: a change is a `()` on a channel, and a test run is a token.

use crate::channel::{Answer, heard, hung_up, recv, recv_timeout};
use std::sync::mpsc::{Receiver, RecvError, RecvTimeoutError};
use std::time::Duration;
use vstd::prelude::*;

verus! {

/// Tracks which generation of file changes is current, so that a run started
/// for an older generation can tell that it has been superseded and that its
/// result should be discarded rather than displayed.
///
/// Its view is the number of the current generation; zero means that no change
/// has settled yet.
pub struct Debouncer {
    generation: u64,
}

impl View for Debouncer {
    type V = nat;

    closed spec fn view(&self) -> nat {
        self.generation as nat
    }
}

impl Debouncer {
    /// A debouncer that has seen no change.
    pub fn new() -> (debouncer: Self)
        ensures
            debouncer@ == 0,
    {
        Debouncer { generation: 0 }
    }

    /// Call when a settled file change is observed. Starts the next generation
    /// and returns the token that identifies it.
    pub fn bump(&mut self) -> (token: u64)
        requires
            old(self)@ < u64::MAX,
        ensures
            final(self)@ == old(self)@ + 1,
            token == final(self)@,
    {
        self.generation = self.generation + 1;
        self.generation
    }

    /// True if `token` is still the most recent generation.
    pub fn is_current(&self, token: u64) -> (current: bool)
        ensures
            current == (self@ == token),
            self@ <= u64::MAX,
    {
        self.generation == token
    }
}

impl Default for Debouncer {
    fn default() -> (debouncer: Self)
        ensures
            debouncer@ == 0,
    {
        Debouncer::new()
    }
}

/// The generation that a debouncer is in after `bumps` further settled changes.
pub open spec fn generation_after(generation: nat, bumps: nat) -> nat
    decreases bumps,
{
    if bumps == 0 {
        generation
    } else {
        generation_after(generation, (bumps - 1) as nat) + 1
    }
}

/// A token stays current until the next change settles, and is never current
/// again after that.
pub proof fn token_is_current_until_superseded(token: nat, bumps: nat)
    ensures
        generation_after(token, bumps) == token <==> bumps == 0,
{
    generation_after_counts_bumps(token, bumps);
}

/// Every settled change starts one generation, so no two changes share a token.
pub proof fn generation_after_counts_bumps(generation: nat, bumps: nat)
    ensures
        generation_after(generation, bumps) == generation + bumps,
    decreases bumps,
{
    if bumps > 0 {
        generation_after_counts_bumps(generation, (bumps - 1) as nat);
    }
}

/// What waiting for quiet comes to, given what the channel answered: first to a
/// wait without a limit, and then to each wait of one quiet period.
///
/// A hang-up before any event is an error. Once an event has been seen, further
/// events keep the wait going, and the first silence or hang-up settles it. A
/// burst of `u64::MAX` further events settles it too.
pub open spec fn quiet_outcome(
    first: Result<(), RecvError>,
    later: Seq<Result<(), RecvTimeoutError>>,
    outcome: Result<(), RecvTimeoutError>,
) -> bool {
    match first {
        Err(_) => {
            &&& later.len() == 0
            &&& outcome == Err::<(), RecvTimeoutError>(RecvTimeoutError::Disconnected)
        },
        Ok(_) => {
            &&& outcome == Ok::<(), RecvTimeoutError>(())
            &&& later.len() > 0
            &&& forall|i: int| 0 <= i < later.len() - 1 ==> (#[trigger] later[i]) is Ok
            &&& later.last() is Err || later.len() == u64::MAX
        },
    }
}

/// What the answer to the first, unlimited wait comes to: an event opens the
/// quiet period, and a hang-up ends the whole wait with an error.
pub fn after_first_wait(received: Result<(), RecvError>) -> (opened: Result<(), RecvTimeoutError>)
    ensures
        opened == match received {
            Ok(_) => Ok::<(), RecvTimeoutError>(()),
            Err(_) => Err::<(), RecvTimeoutError>(RecvTimeoutError::Disconnected),
        },
{
    match received {
        Ok(()) => Ok(()),
        Err(_) => Err(RecvTimeoutError::Disconnected),
    }
}

/// True if the answer to a wait of one quiet period settles the wait. Silence
/// does, and so does a hang-up: either way no more events are coming and it is
/// safe to act. Another event does not.
pub fn settles(received: Result<(), RecvTimeoutError>) -> (settled: bool)
    ensures
        settled == (received is Err),
{
    match received {
        Ok(()) => false,
        Err(RecvTimeoutError::Timeout) => true,
        Err(RecvTimeoutError::Disconnected) => true,
    }
}

/// The answers to the waits that make up one wait for quiet: `first` to a wait without
/// a limit, and then `later`, one by one, each to a wait of one quiet period.
pub open spec fn conversation(
    quiet_period: Duration,
    first: Result<(), RecvError>,
    later: Seq<Result<(), RecvTimeoutError>>,
) -> Seq<Answer> {
    seq![Answer::Unlimited(first)] + Seq::new(
        later.len(),
        |i: int| Answer::Within(quiet_period, later[i]),
    )
}

/// True if a receiver that had answered `before` has answered `after` once it has been
/// waited on for quiet, with the given outcome.
///
/// The answers in between are those of one conversation, all of it and nothing else,
/// and the outcome is what they come to. On a channel that had hung up already it is an
/// error.
pub open spec fn waited(
    before: Seq<Answer>,
    quiet_period: Duration,
    after: Seq<Answer>,
    outcome: Result<(), RecvTimeoutError>,
) -> bool {
    &&& exists|first: Result<(), RecvError>, later: Seq<Result<(), RecvTimeoutError>>| #[trigger]
        quiet_outcome(first, later, outcome) && after == before + conversation(
            quiet_period,
            first,
            later,
        )
    &&& hung_up(before) ==> outcome == Err::<(), RecvTimeoutError>(RecvTimeoutError::Disconnected)
}

/// Blocks until `rx` has been silent for `quiet_period`, draining and coalescing
/// any events that arrive in the meantime, so that several rapid saves settle
/// into a single trigger instead of one per event.
///
/// How long it blocks, and what the channel answers meanwhile, is up to the senders
/// and the clock. Whatever that is, the receiver is waited on once without a limit, and
/// then for one quiet period after the other until it is silent or has hung up (or has
/// handed over more events than can be counted), and no further. The outcome is the one
/// that `quiet_outcome` gives for its answers. The receiver is borrowed exclusively, so
/// that nobody else takes its events meanwhile.
pub fn wait_for_quiet(rx: &mut Receiver<()>, quiet_period: Duration) -> (outcome: Result<
    (),
    RecvTimeoutError,
>)
    ensures
        waited(heard(*old(rx)), quiet_period, heard(*final(rx)), outcome),
{
    let ghost before = heard(*rx);
    let first = recv(rx);
    let ghost mut later: Seq<Result<(), RecvTimeoutError>> = Seq::empty();
    assert(heard(*rx) == before + conversation(quiet_period, first, later));
    let opened = after_first_wait(first);
    if opened.is_err() {
        assert(quiet_outcome(first, later, opened));
        return opened;
    }
    let mut remaining: u64 = u64::MAX;
    while remaining > 0
        invariant
            first is Ok,
            before == heard(*old(rx)),
            !hung_up(before),
            heard(*rx) == before + conversation(quiet_period, first, later),
            later.len() + remaining == u64::MAX,
            forall|i: int| 0 <= i < later.len() ==> (#[trigger] later[i]) is Ok,
        decreases remaining,
    {
        let received = recv_timeout(rx, quiet_period);
        proof {
            later = later.push(received);
        }
        assert(heard(*rx) == before + conversation(quiet_period, first, later));
        if settles(received) {
            assert(quiet_outcome(first, later, Ok(())));
            return Ok(());
        }
        remaining = remaining - 1;
    }
    assert(quiet_outcome(first, later, Ok(())));
    Ok(())
}

/// What a receiver that had answered `before` has answered since.
pub open spec fn since(before: Seq<Answer>, after: Seq<Answer>) -> Seq<Answer> {
    after.subrange(before.len() as int, after.len() as int)
}

proof fn the_new_answers(
    before: Seq<Answer>,
    quiet_period: Duration,
    after: Seq<Answer>,
    outcome: Result<(), RecvTimeoutError>,
) -> (answers: (Result<(), RecvError>, Seq<Result<(), RecvTimeoutError>>))
    requires
        waited(before, quiet_period, after, outcome),
    ensures
        quiet_outcome(answers.0, answers.1, outcome),
        after == before + since(before, after),
        since(before, after) == conversation(quiet_period, answers.0, answers.1),
{
    let (first, later): (Result<(), RecvError>, Seq<Result<(), RecvTimeoutError>>) = choose|
        first: Result<(), RecvError>,
        later: Seq<Result<(), RecvTimeoutError>>,
    | #[trigger]
        quiet_outcome(first, later, outcome) && after == before + conversation(
            quiet_period,
            first,
            later,
        );
    assert(since(before, after) =~= conversation(quiet_period, first, later));
    (first, later)
}

/// A wait for quiet asks the receiver without a limit first, so that a silence before
/// any event does not count. After that it asks for whole quiet periods only.
pub proof fn a_wait_opens_with_the_first_event(
    before: Seq<Answer>,
    quiet_period: Duration,
    after: Seq<Answer>,
    outcome: Result<(), RecvTimeoutError>,
)
    requires
        waited(before, quiet_period, after, outcome),
    ensures
        before.is_prefix_of(after),
        since(before, after).len() > 0,
        since(before, after)[0] is Unlimited,
        forall|i: int|
            1 <= i < since(before, after).len() ==> ((#[trigger] since(before, after)[i]) matches
                Answer::Within(limit, _) && limit == quiet_period),
        outcome is Ok ==> since(before, after)[0].is_event(),
{
    let (first, later) = the_new_answers(before, quiet_period, after, outcome);
}

/// A wait that settles takes one burst and nothing after it: every answer but the last
/// hands over an event, and the last is the silence or the hang-up that ends the burst.
/// Left out is a burst too long to be counted.
pub proof fn a_wait_takes_one_burst(
    before: Seq<Answer>,
    quiet_period: Duration,
    after: Seq<Answer>,
    outcome: Result<(), RecvTimeoutError>,
)
    requires
        waited(before, quiet_period, after, outcome),
        outcome is Ok,
        since(before, after).len() <= u64::MAX,
    ensures
        since(before, after).len() > 1,
        forall|i: int|
            0 <= i < since(before, after).len() - 1 ==> (#[trigger] since(
                before,
                after,
            )[i]).is_event(),
        !since(before, after).last().is_event(),
{
    let (first, later) = the_new_answers(before, quiet_period, after, outcome);
    let answers = conversation(quiet_period, first, later);
    assert forall|i: int| 0 <= i < answers.len() - 1 implies (#[trigger] answers[i]).is_event() by {
        if i > 0 {
            assert(later[i - 1] is Ok);
        }
    }
}

/// However many events follow the first one within the quiet period, they settle
/// together, once and without an error, as soon as the channel falls silent or
/// hangs up.
pub proof fn a_burst_settles_once(
    before: Seq<Answer>,
    quiet_period: Duration,
    first: Result<(), RecvError>,
    later: Seq<Result<(), RecvTimeoutError>>,
    outcome: Result<(), RecvTimeoutError>,
)
    requires
        !hung_up(before),
        first is Ok,
        later.len() > 0,
        forall|i: int| 0 <= i < later.len() - 1 ==> (#[trigger] later[i]) is Ok,
        later.last() is Err,
    ensures
        waited(before, quiet_period, before + conversation(quiet_period, first, later), outcome)
            <==> outcome == Ok::<(), RecvTimeoutError>(()),
{
    let after = before + conversation(quiet_period, first, later);
    assert(quiet_outcome(first, later, Ok(())));
    if waited(before, quiet_period, after, outcome) {
        only_an_early_hang_up_fails(before, quiet_period, after, outcome);
        assert(since(before, after) =~= conversation(quiet_period, first, later));
    }
}

/// The wait fails exactly where the channel hangs up before any event. Nothing is taken
/// then, and it never fails for want of time.
pub proof fn only_an_early_hang_up_fails(
    before: Seq<Answer>,
    quiet_period: Duration,
    after: Seq<Answer>,
    outcome: Result<(), RecvTimeoutError>,
)
    requires
        waited(before, quiet_period, after, outcome),
    ensures
        outcome is Err <==> since(before, after)[0].is_hang_up(),
        outcome is Err <==> events_taken(since(before, after)) == 0,
        outcome is Err ==> since(before, after).len() == 1,
        outcome != Err::<(), RecvTimeoutError>(RecvTimeoutError::Timeout),
{
    let (first, later) = the_new_answers(before, quiet_period, after, outcome);
    let answers = since(before, after);
    if first is Ok {
        an_event_counts(answers, 0);
    } else {
        assert(answers.drop_last() =~= seq![]);
        assert(events_taken(answers.drop_last()) == 0);
    }
}

/// How many events the answers handed over.
pub open spec fn events_taken(answers: Seq<Answer>) -> nat
    decreases answers.len(),
{
    if answers.len() == 0 {
        0
    } else {
        events_taken(answers.drop_last()) + if answers.last().is_event() {
            1nat
        } else {
            0nat
        }
    }
}

proof fn an_event_counts(answers: Seq<Answer>, index: int)
    requires
        0 <= index < answers.len(),
        answers[index].is_event(),
    ensures
        events_taken(answers) > 0,
    decreases answers.len(),
{
    if index < answers.len() - 1 {
        an_event_counts(answers.drop_last(), index);
    }
}

proof fn events_only_count_whole(answers: Seq<Answer>)
    requires
        forall|i: int| 0 <= i < answers.len() ==> (#[trigger] answers[i]).is_event(),
    ensures
        events_taken(answers) == answers.len(),
    decreases answers.len(),
{
    if answers.len() > 0 {
        events_only_count_whole(answers.drop_last());
    }
}

/// True if `answers` are those of a channel that holds `queued` events and has no
/// sender left: the events come out one after the other, and then every wait finds
/// that the channel has hung up.
pub open spec fn drains(queued: nat, answers: Seq<Answer>) -> bool {
    forall|i: int|
        0 <= i < answers.len() ==> if i < queued {
            (#[trigger] answers[i]).is_event()
        } else {
            answers[i].is_hang_up()
        }
}

/// Whatever the quiet period, the events that a channel without senders still holds
/// make one trigger if there are any, and none otherwise. The wait takes all of them and
/// finds that the channel has hung up, so that another wait fails. Left out are more
/// events than can be counted.
pub proof fn queued_events_make_one_trigger(
    queued: nat,
    before: Seq<Answer>,
    quiet_period: Duration,
    after: Seq<Answer>,
    outcome: Result<(), RecvTimeoutError>,
    next_quiet_period: Duration,
    finally: Seq<Answer>,
    next_outcome: Result<(), RecvTimeoutError>,
)
    requires
        queued <= u64::MAX,
        drains(queued, since(before, after)),
        waited(before, quiet_period, after, outcome),
        waited(after, next_quiet_period, finally, next_outcome),
    ensures
        outcome is Ok <==> queued >= 1,
        events_taken(since(before, after)) == queued,
        hung_up(after),
        next_outcome == Err::<(), RecvTimeoutError>(RecvTimeoutError::Disconnected),
{
    let (first, later) = the_new_answers(before, quiet_period, after, outcome);
    let answers = since(before, after);
    assert(answers[0].is_event() <==> queued > 0);
    assert(answers.len() == queued + 1) by {
        if answers.len() > queued + 1 {
            assert(!answers[queued as int].is_event());
            assert(later[queued - 1] is Ok);
        }
        if answers.len() < queued + 1 {
            assert(answers.last() == answers[answers.len() - 1]);
            assert(answers[answers.len() - 1].is_event());
        }
    }
    assert(answers.last() == answers[queued as int]);
    assert(after[after.len() - 1] == answers.last());
    events_only_count_whole(answers.drop_last());
}

/// The token that a settled change is given is current from then on, and not before,
/// and the next change takes that away for good. Tokens count the changes.
pub proof fn only_the_latest_token_is_current(
    fresh: Debouncer,
    earlier: &mut Debouncer,
    earlier_token: u64,
    later: &mut Debouncer,
    later_token: u64,
    token: u64,
    current_before: bool,
    current_between: bool,
    current_after: bool,
)
    requires
        call_ensures(Debouncer::new, (), fresh) || call_ensures(Debouncer::default, (), fresh),
        call_ensures(Debouncer::bump, (earlier,), earlier_token),
        *old(later) == *final(earlier),
        call_ensures(Debouncer::bump, (later,), later_token),
        call_ensures(Debouncer::is_current, (&*old(earlier), token), current_before),
        call_ensures(Debouncer::is_current, (&*old(later), token), current_between),
        call_ensures(Debouncer::is_current, (&*final(later), token), current_after),
    ensures
        *old(earlier) == fresh ==> earlier_token == 1,
        later_token == earlier_token + 1,
        current_before <==> token + 1 == earlier_token,
        current_between <==> token == earlier_token,
        current_after <==> token == later_token,
{
}

/// A wait for quiet asks the receiver once without a limit. If that gives no event, the
/// channel has hung up, and the wait fails. If it gives one, the receiver is asked for
/// one quiet period after the other: each answer but the last is an event, the last is
/// none, and the wait succeeds. Left out is a burst too long to be counted.
pub proof fn quiet_is_a_whole_period_without_events(
    rx: &mut Receiver<()>,
    quiet_period: Duration,
    outcome: Result<(), RecvTimeoutError>,
)
    requires
        call_ensures(wait_for_quiet, (rx, quiet_period), outcome),
        heard(*final(rx)).len() - heard(*old(rx)).len() <= u64::MAX,
    ensures
        ({
            let before = heard(*old(rx));
            let after = heard(*final(rx));
            let first = before.len() as int;
            let last = after.len() - 1;
            &&& before.len() < after.len()
            &&& after.take(first) == before
            &&& match after[first] {
                Answer::Unlimited(Ok(_)) => {
                    &&& outcome is Ok
                    &&& first < last
                    &&& after[last] matches Answer::Within(limit, Err(_)) && limit == quiet_period
                    &&& forall|i: int|
                        first < i < last ==> ((#[trigger] after[i]) matches Answer::Within(
                            limit,
                            Ok(_),
                        ) && limit == quiet_period)
                },
                Answer::Unlimited(Err(_)) => {
                    &&& outcome matches Err(error) && error is Disconnected
                    &&& first == last
                },
                Answer::Within(_, _) => false,
            }
        }),
        (exists|i: int|
            0 <= i < heard(*old(rx)).len() && (#[trigger] heard(*old(rx))[i] matches Answer::Within(
                _,
                Err(RecvTimeoutError::Disconnected),
            ) || heard(*old(rx))[i] matches Answer::Unlimited(Err(_)))) ==> outcome is Err,
{
    let before = heard(*old(rx));
    let after = heard(*final(rx));
    let (first, later) = the_new_answers(before, quiet_period, after, outcome);
    let answers = conversation(quiet_period, first, later);
    assert(after =~= before + answers);
    assert(after.take(before.len() as int) =~= before);
    assert(after[before.len() as int] == answers[0]);
    if first is Ok {
        assert(after[after.len() - 1] == answers[answers.len() - 1]);
        assert forall|i: int| before.len() < i < after.len() - 1 implies ((#[trigger] after[i])
            matches Answer::Within(limit, Ok(_)) && limit == quiet_period) by {
            assert(after[i] == answers[i - before.len()]);
            assert(later[i - before.len() - 1] is Ok);
        }
    }
}

/// What a single answer of the channel is taken for.
pub proof fn only_an_event_goes_on(
    first: Result<(), RecvError>,
    opened: Result<(), RecvTimeoutError>,
    later: Result<(), RecvTimeoutError>,
    settled: bool,
)
    requires
        call_ensures(after_first_wait, (first,), opened),
        call_ensures(settles, (later,), settled),
    ensures
        opened is Ok <==> first is Ok,
        opened matches Err(error) ==> error is Disconnected,
        settled <==> later is Err,
{
}

} // verus!
