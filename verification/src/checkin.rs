//! Check-ins and the sweep: what becomes of a switch when its owner reports
//! in, and when nobody does.

use crate::notifiers::{action_views, Action, ActionView, Notifier};
use crate::stores::{due, lists, sound, views, Store, StoreError};
use crate::switch::{Switch, SwitchView};
use crate::time::{earliest, horizon, whole_secs, Span, Timestamp};
use vstd::prelude::*;

verus! {

/// How a check-in ended.
#[derive(Clone, Copy, Debug, PartialEq, Eq)]
pub enum Status {
    /// A deadline was given: the switch is armed with it.
    Created,
    /// No deadline was given and the switch was there: it is disarmed.
    Disarmed,
    /// No deadline was given and there was no such switch.
    NotFound,
}

impl Status {
    /// The HTTP status that says the same.
    pub fn code(&self) -> (r: u16)
        ensures
            r == match *self {
                Status::Created => 201u16,
                Status::Disarmed => 200u16,
                Status::NotFound => 404u16,
            },
    {
        match self {
            Status::Created => 201,
            Status::Disarmed => 200,
            Status::NotFound => 404,
        }
    }
}

/// The length of a span that may be missing.
pub open spec fn length(span: Option<Span>) -> Option<int> {
    match span {
        Some(span) => Some(span@),
        None => None,
    }
}

/// What a check-in at `now` says of the switch it finds: nothing to report, late
/// (`Some(None)`), or early by so many seconds. A late switch is reported only where the
/// check-in arms no new one. Early is a check-in before the window starts; the seconds are
/// counted from the second of `now` to the second in which the window starts.
pub open spec fn verdict(s: SwitchView, now: int, checkin_only: bool) -> Option<Option<u64>> {
    if s.deadline < now {
        if checkin_only {
            Some(None)
        } else {
            None
        }
    } else if s.deadline == now {
        None
    } else {
        match s.window_start {
            Some(start) => if now < start {
                Some(Some((whole_secs(start) - whole_secs(now)) as u64))
            } else {
                None
            },
            None => None,
        }
    }
}

/// What is to be done about a verdict on the switch called `name`.
pub open spec fn alert<N: Notifier>(
    notifier: &N,
    name: Seq<char>,
    verdict: Option<Option<u64>>,
) -> Seq<ActionView> {
    match verdict {
        Some(early) => notifier.actions(name, early),
        None => Seq::empty(),
    }
}

/// What is to be done about the switch that a check-in at `now` found.
pub fn notify_on_switch<N: Notifier>(
    s: &Switch,
    notifier: &N,
    checkin_only: bool,
    now: Timestamp,
) -> (r: Vec<Action>)
    ensures
        action_views(r@) == alert(notifier, s@.name, verdict(s@, now@, checkin_only)),
{
    let deadline = s.deadline();
    if deadline.is_before(&now) {
        if checkin_only {
            notifier.notify(s.name().clone(), None)
        } else {
            let none: Vec<Action> = Vec::new();
            assert(action_views(none@) =~= Seq::<ActionView>::empty());
            none
        }
    } else if deadline.is_same(&now) {
        let none: Vec<Action> = Vec::new();
        assert(action_views(none@) =~= Seq::<ActionView>::empty());
        none
    } else {
        match s.window_start() {
            Some(start) => {
                if now.is_before(&start) {
                    let secs = (start.secs() - now.secs()) as u64;
                    notifier.notify(s.name().clone(), Some(secs))
                } else {
                    let none: Vec<Action> = Vec::new();
                    assert(action_views(none@) =~= Seq::<ActionView>::empty());
                    none
                }
            },
            None => {
                let none: Vec<Action> = Vec::new();
                assert(action_views(none@) =~= Seq::<ActionView>::empty());
                none
            },
        }
    }
}

/// Whether a switch can be armed at `now` with a deadline `deadline` away and a window
/// that opens `window` before the deadline: both instants must be ones that can be held.
pub open spec fn armable(now: int, deadline: int, window: Option<int>) -> bool {
    &&& now + deadline < horizon()
    &&& window matches Some(before) ==> earliest() <= now + deadline - before
}

/// The switch that is armed at `now`.
pub open spec fn armed(name: Seq<char>, now: int, deadline: int, window: Option<int>) -> SwitchView {
    SwitchView {
        name,
        deadline: now + deadline,
        window_start: match window {
            Some(before) => Some(now + deadline - before),
            None => None,
        },
    }
}

/// The window never starts after the deadline: a switch that is armed at an instant that
/// can be held, with spans that are not negative, is well formed.
pub proof fn lemma_armed_well_formed(
    name: Seq<char>,
    now: int,
    deadline: int,
    window: Option<int>,
)
    requires
        earliest() <= now,
        0 <= deadline,
        window matches Some(before) ==> 0 <= before,
        armable(now, deadline, window),
    ensures
        armed(name, now, deadline, window).well_formed(),
        armed(name, now, deadline, window).window_start matches Some(start) ==> start <= armed(
            name,
            now,
            deadline,
            window,
        ).deadline,
{
}

/// Arms a switch at `now`, where that can be done.
pub fn rearm(name: String, now: Timestamp, deadline: Span, window: Option<Span>) -> (r: Option<
    Switch,
>)
    ensures
        r is Some <==> armable(now@, deadline@, length(window)),
        r matches Some(s) ==> s@ == armed(name@, now@, deadline@, length(window)) && s@.well_formed(),
{
    let _ = deadline.secs();
    match now.checked_add(deadline) {
        Some(new_deadline) => match window {
            Some(before) => {
                let _ = before.secs();
                match new_deadline.checked_sub(before) {
                    Some(start) => Switch::new(name, new_deadline, Some(start)),
                    None => None,
                }
            },
            None => Switch::new(name, new_deadline, None),
        },
        None => None,
    }
}

/// How a check-in ends, given whether the switch was there and whether a deadline came
/// with it.
pub open spec fn outcome(present: bool, rearms: bool) -> Status {
    if rearms {
        Status::Created
    } else if present {
        Status::Disarmed
    } else {
        Status::NotFound
    }
}

/// What is to be done about the switch that a check-in found, if it found one.
pub open spec fn reported<N: Notifier>(
    notifier: &N,
    existing: Option<SwitchView>,
    now: int,
    checkin_only: bool,
) -> Seq<ActionView> {
    match existing {
        Some(s) => alert(notifier, s.name, verdict(s, now, checkin_only)),
        None => Seq::empty(),
    }
}

/// What a check-in comes to, once the switch of that name has been taken from the store.
pub struct Decision {
    /// How the check-in ends if the store accepts what is to be written.
    pub status: Status,
    /// The switch to put into the store, where the check-in arms one.
    pub write: Option<Switch>,
    /// What is to be done about the switch that was found.
    pub actions: Vec<Action>,
}

/// Decides a check-in at `now` for the switch called `name`: `existing` is what the store
/// held under that name, `deadline` how far away the new deadline is, if the switch is to
/// be armed again, and `window` how long before that deadline its window opens.
pub fn decide<N: Notifier>(
    existing: Option<Switch>,
    name: String,
    deadline: Option<Span>,
    window: Option<Span>,
    now: Timestamp,
    notifier: &N,
) -> (r: Decision)
    requires
        deadline matches Some(away) ==> armable(now@, away@, length(window)),
    ensures
        r.status == outcome(existing is Some, deadline is Some),
        match deadline {
            Some(away) => r.write matches Some(s) && s@ == armed(
                name@,
                now@,
                away@,
                length(window),
            ) && s@.well_formed(),
            None => r.write is None,
        },
        action_views(r.actions@) == reported(
            notifier,
            match existing {
                Some(s) => Some(s@),
                None => None,
            },
            now@,
            deadline is None,
        ),
{
    let checkin_only = deadline.is_none();
    let (present, actions) = match &existing {
        Some(s) => (true, notify_on_switch(s, notifier, checkin_only, now)),
        None => {
            let none: Vec<Action> = Vec::new();
            assert(action_views(none@) =~= Seq::<ActionView>::empty());
            (false, none)
        },
    };
    match deadline {
        Some(away) => Decision {
            status: Status::Created,
            write: rearm(name, now, away, window),
            actions,
        },
        None => Decision {
            status: if present {
                Status::Disarmed
            } else {
                Status::NotFound
            },
            write: None,
            actions,
        },
    }
}

/// A check-in without a deadline for a switch that is not there is not found and changes
/// nothing, however often it comes: the store holds what it held, and nothing is to be
/// done.
pub proof fn lemma_absent_disarm<N: Notifier>(
    notifier: &N,
    contents: Map<Seq<char>, SwitchView>,
    name: Seq<char>,
    now: int,
)
    requires
        !contents.contains_key(name),
    ensures
        outcome(contents.contains_key(name), false) == Status::NotFound,
        contents.remove(name) == contents,
        reported(notifier, held(contents, name), now, true) == Seq::<ActionView>::empty(),
{
    assert(contents.remove(name) =~= contents);
}

/// What a check-in did.
pub struct Reply {
    /// How the check-in ended, or why the store failed it.
    pub outcome: Result<Status, StoreError>,
    /// What is to be done about the switch that was found.
    pub actions: Vec<Action>,
}

/// What the store holds under `name`, if anything.
pub open spec fn held(contents: Map<Seq<char>, SwitchView>, name: Seq<char>) -> Option<
    SwitchView,
> {
    if contents.contains_key(name) {
        Some(contents[name])
    } else {
        None
    }
}

/// Handles a check-in at `now` for the switch called `name`. The switch is taken from the
/// store and judged against `now`. With a `deadline` a new switch of that name is armed,
/// whether or not there was one; without, the switch stays disarmed.
///
/// Where the store fails the take, nothing has happened. Where it fails the insert, the
/// switch that was taken is gone and has been judged.
pub fn store_handle<S: Store, N: Notifier>(
    store: &mut S,
    name: String,
    deadline: Option<Span>,
    window: Option<Span>,
    now: Timestamp,
    notifier: &N,
) -> (r: Reply)
    requires
        deadline matches Some(away) ==> armable(now@, away@, length(window)),
    ensures
        match r.outcome {
            Ok(status) => {
                &&& status == outcome(old(store)@.contains_key(name@), deadline is Some)
                &&& final(store)@ == match deadline {
                    Some(away) => old(store)@.insert(
                        name@,
                        armed(name@, now@, away@, length(window)),
                    ),
                    None => old(store)@.remove(name@),
                }
                &&& action_views(r.actions@) == reported(
                    notifier,
                    held(old(store)@, name@),
                    now@,
                    deadline is None,
                )
            },
            Err(_) => {
                ||| final(store)@ == old(store)@ && r.actions@.len() == 0
                ||| {
                    &&& deadline is Some
                    &&& final(store)@ == old(store)@.remove(name@)
                    &&& action_views(r.actions@) == reported(
                        notifier,
                        held(old(store)@, name@),
                        now@,
                        false,
                    )
                }
            },
        },
        deadline is None && !old(store)@.contains_key(name@) && r.outcome is Ok ==> {
            &&& r.outcome == Ok::<Status, StoreError>(Status::NotFound)
            &&& final(store)@ == old(store)@
            &&& r.actions@.len() == 0
        },
        sound(final(store)@),
        old(store).dependable() ==> r.outcome is Ok,
        final(store).dependable() == old(store).dependable(),
{
    let existing = match store.take(name.as_str()) {
        Ok(existing) => existing,
        Err(error) => {
            return Reply { outcome: Err(error), actions: Vec::new() };
        },
    };
    assert(old(store)@.contains_key(name@) || old(store)@.remove(name@) =~= old(store)@);
    let decision = decide(existing, name, deadline, window, now, notifier);
    let outcome = match decision.write {
        Some(s) => match store.insert(s) {
            Ok(()) => {
                assert(store@ =~= old(store)@.insert(s@.name, s@));
                Ok(decision.status)
            },
            Err(error) => Err(error),
        },
        None => Ok(decision.status),
    };
    Reply { outcome, actions: decision.actions }
}

/// What is to be done about switches that are late, the first switch's actions first.
pub open spec fn late_alerts<N: Notifier>(notifier: &N, late: Seq<SwitchView>) -> Seq<ActionView>
    decreases late.len(),
{
    if late.len() == 0 {
        Seq::empty()
    } else {
        late_alerts(notifier, late.drop_last()) + notifier.actions(late.last().name, None)
    }
}

/// Says what is to be done about switches that are late: each is reported once.
pub fn notify_late<N: Notifier>(late: &Vec<Switch>, notifier: &N) -> (r: Vec<Action>)
    ensures
        action_views(r@) == late_alerts(notifier, views(late@)),
{
    let mut list: Vec<Action> = Vec::new();
    let mut i: usize = 0;
    while i < late.len()
        invariant
            i <= late@.len(),
            action_views(list@) == late_alerts(notifier, views(late@).take(i as int)),
        decreases late@.len() - i,
    {
        let mut more = notifier.notify(late[i].name().clone(), None);
        let ghost listed = list@;
        let ghost added = more@;
        list.append(&mut more);
        proof {
            let upto = views(late@).take(i + 1);
            assert(upto.drop_last() =~= views(late@).take(i as int));
            assert(upto.last() == late@[i as int]@);
            assert(action_views(list@) =~= action_views(listed) + action_views(added));
        }
        i += 1;
    }
    assert(views(late@).take(i as int) =~= views(late@));
    list
}

/// What one sweep did.
pub struct Sweep {
    /// The switches that were late, which have left the store.
    pub expired: Vec<Switch>,
    /// What is to be done about them.
    pub actions: Vec<Action>,
}

/// Sweeps the store at `now`: every switch whose deadline is `now` or earlier leaves the
/// store and is reported late, once. Where the store fails, nothing has happened.
pub fn store_check_notify<S: Store, N: Notifier>(store: &mut S, notifier: &N, now: Timestamp) -> (r:
    Result<Sweep, StoreError>)
    ensures
        match r {
            Ok(sweep) => {
                &&& final(store)@ == old(store)@.remove_keys(due(old(store)@, now@))
                &&& lists(old(store)@.restrict(due(old(store)@, now@)), views(sweep.expired@))
                &&& action_views(sweep.actions@) == late_alerts(notifier, views(sweep.expired@))
            },
            Err(_) => final(store)@ == old(store)@,
        },
        sound(final(store)@),
        old(store).dependable() ==> r is Ok,
        final(store).dependable() == old(store).dependable(),
{
    match store.expired(now) {
        Ok(expired) => {
            let actions = notify_late(&expired, notifier);
            Ok(Sweep { expired, actions })
        },
        Err(error) => Err(error),
    }
}

} // verus!
