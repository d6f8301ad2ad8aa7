//! Notifiers: what is to be done when a switch is checked into early or
//! misses its deadline.
//!
//! A notifier does nothing by itself. It says what is to be done, as a list
//! of actions, and the process around the library carries them out.

use crate::text::{decimal, digits};
use vstd::prelude::*;

pub mod command;
pub mod sentry;

pub use self::command::Command as CommandNotifier;
pub use self::sentry::SentryNotifier;

verus! {

/// One name with its value: a variable of the environment, or a tag.
#[derive(Clone, Debug, PartialEq, Eq)]
pub struct Pair {
    pub key: String,
    pub value: String,
}

/// A pair, as the contracts speak of it.
pub struct PairView {
    pub key: Seq<char>,
    pub value: Seq<char>,
}

impl View for Pair {
    type V = PairView;

    open spec fn view(&self) -> PairView {
        PairView { key: self.key@, value: self.value@ }
    }
}

/// The pairs of a list, each as the contracts speak of it.
pub open spec fn pair_views(pairs: Seq<Pair>) -> Seq<PairView> {
    Seq::new(pairs.len(), |i: int| pairs[i]@)
}

/// The texts of a list, each as a sequence of characters.
pub open spec fn texts(words: Seq<String>) -> Seq<Seq<char>> {
    Seq::new(words.len(), |i: int| words[i]@)
}

/// Something that a notifier wants done.
#[derive(Clone, Debug, PartialEq, Eq)]
pub enum Action {
    /// Write a line to the log.
    Log { line: String },
    /// Start a program with these arguments and these variables added to its environment.
    Run { program: String, args: Vec<String>, env: Vec<Pair> },
    /// Submit an event to the error tracker behind `dsn`.
    Report {
        dsn: String,
        fingerprint: String,
        message: String,
        logger: String,
        tags: Vec<Pair>,
    },
}

/// An action, as the contracts speak of it.
pub enum ActionView {
    Log { line: Seq<char> },
    Run { program: Seq<char>, args: Seq<Seq<char>>, env: Seq<PairView> },
    Report {
        dsn: Seq<char>,
        fingerprint: Seq<char>,
        message: Seq<char>,
        logger: Seq<char>,
        tags: Seq<PairView>,
    },
}

impl View for Action {
    type V = ActionView;

    open spec fn view(&self) -> ActionView {
        match *self {
            Action::Log { line } => ActionView::Log { line: line@ },
            Action::Run { program, args, env } => ActionView::Run {
                program: program@,
                args: texts(args@),
                env: pair_views(env@),
            },
            Action::Report { dsn, fingerprint, message, logger, tags } => ActionView::Report {
                dsn: dsn@,
                fingerprint: fingerprint@,
                message: message@,
                logger: logger@,
                tags: pair_views(tags@),
            },
        }
    }
}

/// The actions of a list, each as the contracts speak of it.
pub open spec fn action_views(actions: Seq<Action>) -> Seq<ActionView> {
    Seq::new(actions.len(), |i: int| actions[i]@)
}

/// Something that can be told of a switch that was checked into early, or that is late.
pub trait Notifier {
    /// What is to be done about the switch called `name`: it was checked into `early`
    /// seconds before its window, or, where `early` is none, it missed its deadline. A
    /// notifier that does not say what it wants done wants nothing done.
    open spec fn actions(&self, name: Seq<char>, early: Option<u64>) -> Seq<ActionView> {
        Seq::empty()
    }

    /// Says what is to be done about the switch called `name`.
    fn notify(&self, name: String, early: Option<u64>) -> (r: Vec<Action>)
        ensures
            action_views(r@) == self.actions(name@, early),
    ;
}

/// The line that the log notifier writes.
pub open spec fn log_line(name: Seq<char>, early: Option<u64>) -> Seq<char> {
    match early {
        Some(secs) => "notify early: name="@ + name + ", early="@ + digits(secs as nat) + "s"@,
        None => "notify late: name="@ + name,
    }
}

/// The notifier that writes to the log.
pub struct LogNotifier {}

impl Notifier for LogNotifier {
    open spec fn actions(&self, name: Seq<char>, early: Option<u64>) -> Seq<ActionView> {
        seq![ActionView::Log { line: log_line(name, early) }]
    }

    fn notify(&self, name: String, early: Option<u64>) -> (r: Vec<Action>) {
        let line = match early {
            Some(secs) => {
                let mut line = String::from_str("notify early: name=");
                line.append(name.as_str());
                line.append(", early=");
                line.append(decimal(secs).as_str());
                line.append("s");
                line
            },
            None => {
                let mut line = String::from_str("notify late: name=");
                line.append(name.as_str());
                line
            },
        };
        let mut list: Vec<Action> = Vec::new();
        list.push(Action::Log { line });
        assert(action_views(list@) =~= self.actions(name@, early));
        list
    }
}

/// Any one of the notifiers of this library.
pub enum Notifiers {
    Log(LogNotifier),
    Command(CommandNotifier),
    Sentry(SentryNotifier),
}

impl Notifier for Notifiers {
    open spec fn actions(&self, name: Seq<char>, early: Option<u64>) -> Seq<ActionView> {
        match *self {
            Notifiers::Log(notifier) => notifier.actions(name, early),
            Notifiers::Command(notifier) => notifier.actions(name, early),
            Notifiers::Sentry(notifier) => notifier.actions(name, early),
        }
    }

    fn notify(&self, name: String, early: Option<u64>) -> (r: Vec<Action>) {
        match self {
            Notifiers::Log(notifier) => notifier.notify(name, early),
            Notifiers::Command(notifier) => notifier.notify(name, early),
            Notifiers::Sentry(notifier) => notifier.notify(name, early),
        }
    }
}

/// What a row of notifiers wants done, the first notifier's actions first.
pub open spec fn fan_out<N: Notifier>(
    notifiers: Seq<N>,
    name: Seq<char>,
    early: Option<u64>,
) -> Seq<ActionView>
    decreases notifiers.len(),
{
    if notifiers.len() == 0 {
        Seq::empty()
    } else {
        fan_out(notifiers.drop_last(), name, early) + notifiers.last().actions(name, early)
    }
}

/// A row of notifiers that are all told of every event, in the order in which they were
/// added.
pub struct AggregateNotifier<N: Notifier> {
    notifiers: Vec<N>,
}

impl<N: Notifier> AggregateNotifier<N> {
    /// A row without notifiers, which wants nothing done.
    pub fn new() -> (r: Self)
        ensures
            forall|name: Seq<char>, early: Option<u64>|
                #[trigger] r.actions(name, early) == Seq::<ActionView>::empty(),
    {
        Self { notifiers: Vec::new() }
    }

    /// Adds `n` to the end of the row.
    pub fn push(&mut self, n: N)
        ensures
            forall|name: Seq<char>, early: Option<u64>|
                #[trigger] final(self).actions(name, early) == old(self).actions(name, early)
                    + n.actions(name, early),
    {
        let ghost before = self.notifiers@;
        self.notifiers.push(n);
        proof {
            assert(self.notifiers@.drop_last() =~= before);
        }
    }
}

impl<N: Notifier> Notifier for AggregateNotifier<N> {
    closed spec fn actions(&self, name: Seq<char>, early: Option<u64>) -> Seq<ActionView> {
        fan_out(self.notifiers@, name, early)
    }

    fn notify(&self, name: String, early: Option<u64>) -> (r: Vec<Action>) {
        let mut list: Vec<Action> = Vec::new();
        let mut i: usize = 0;
        while i < self.notifiers.len()
            invariant
                i <= self.notifiers@.len(),
                action_views(list@) == fan_out(self.notifiers@.take(i as int), name@, early),
            decreases self.notifiers@.len() - i,
        {
            let mut more = self.notifiers[i].notify(name.clone(), early);
            let ghost listed = list@;
            let ghost added = more@;
            list.append(&mut more);
            proof {
                let upto = self.notifiers@.take(i + 1);
                assert(upto.drop_last() =~= self.notifiers@.take(i as int));
                assert(upto.last() == self.notifiers@[i as int]);
                assert(action_views(list@) =~= action_views(listed) + action_views(added));
            }
            i += 1;
        }
        assert(self.notifiers@.take(i as int) =~= self.notifiers@);
        list
    }
}

} // verus!
