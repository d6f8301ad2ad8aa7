//! The notifier that reports to an error tracker.

use crate::notifiers::{action_views, Action, ActionView, Notifier, Pair, PairView};
use crate::text::{decimal, digits};
use vstd::prelude::*;

verus! {

/// What tells one kind of event of one switch from the others, so that the tracker can
/// fold repeats of it into one.
pub open spec fn fingerprint(name: Seq<char>, early: Option<u64>) -> Seq<char> {
    match early {
        Some(_) => name + "=EARLY"@,
        None => name + "=FAIL"@,
    }
}

/// What the event says in words.
pub open spec fn message(name: Seq<char>, early: Option<u64>) -> Seq<char> {
    match early {
        Some(secs) => "Switch `"@ + name + "` checked in early by "@ + digits(secs as nat)
            + " seconds"@,
        None => "Switch `"@ + name + "` failed to make its deadline."@,
    }
}

/// A notifier that submits an event to the error tracker behind a DSN.
pub struct SentryNotifier {
    dsn: String,
}

impl SentryNotifier {
    /// Where the events go.
    pub closed spec fn target(&self) -> Seq<char> {
        self.dsn@
    }

    /// The notifier that reports to `dsn`.
    pub fn from_dsn(dsn: &str) -> (r: Self)
        ensures
            r.target() == dsn@,
    {
        SentryNotifier { dsn: dsn.to_owned() }
    }

    /// Where the events go.
    pub fn dsn(&self) -> (r: &String)
        ensures
            r@ == self.target(),
    {
        &self.dsn
    }
}

impl Notifier for SentryNotifier {
    /// Report one event, tagged with the name of the switch.
    open spec fn actions(&self, name: Seq<char>, early: Option<u64>) -> Seq<ActionView> {
        seq![
            ActionView::Report {
                dsn: self.target(),
                fingerprint: fingerprint(name, early),
                message: message(name, early),
                logger: "condemn"@,
                tags: seq![PairView { key: "switch"@, value: name }],
            },
        ]
    }

    fn notify(&self, name: String, early: Option<u64>) -> (r: Vec<Action>) {
        let mut mark = name.clone();
        let mut words = String::from_str("Switch `");
        words.append(name.as_str());
        match early {
            Some(secs) => {
                mark.append("=EARLY");
                words.append("` checked in early by ");
                words.append(decimal(secs).as_str());
                words.append(" seconds");
            },
            None => {
                mark.append("=FAIL");
                words.append("` failed to make its deadline.");
            },
        }
        let mut tags: Vec<Pair> = Vec::new();
        tags.push(Pair { key: String::from_str("switch"), value: name });
        let ghost wanted = self.actions(name@, early);
        let mut list: Vec<Action> = Vec::new();
        list.push(
            Action::Report {
                dsn: self.dsn.clone(),
                fingerprint: mark,
                message: words,
                logger: String::from_str("condemn"),
                tags,
            },
        );
        proof {
            assert(crate::notifiers::pair_views(tags@) =~= wanted[0]->Report_tags);
            assert(action_views(list@) =~= wanted);
        }
        list
    }
}

} // verus!
