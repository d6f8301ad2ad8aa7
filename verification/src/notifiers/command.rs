//! The notifier that runs a command.

use crate::notifiers::{action_views, texts, Action, ActionView, Notifier, Pair, PairView};
use crate::text::{decimal, digits};
use vstd::prelude::*;

verus! {

#[verifier::external_type_specification]
#[verifier::external_body]
pub struct ExParseError(shell_words::ParseError);

/// The words that `shell_words::split` finds in a command line; none where it reports an
/// error, which it does for a quote that is never closed.
pub uninterp spec fn shell_split(line: Seq<char>) -> Option<Seq<Seq<char>>>;

/// `shell_words::split`: the words of a command line, split and unquoted as a Unix shell
/// would, which depend on the line alone.
#[verifier::external_body]
pub(crate) fn split(line: &str) -> (r: Result<Vec<String>, shell_words::ParseError>)
    ensures
        match r {
            Ok(words) => shell_split(line@) == Some(texts(words@)),
            Err(_) => shell_split(line@) is None,
        },
{
    shell_words::split(line)
}

/// The `Display` of `shell_words::ParseError`, which writes the same text for every error.
#[verifier::external_body]
pub(crate) fn describe(error: &shell_words::ParseError) -> (r: String)
    ensures
        r@ == "missing closing quote"@,
{
    format!("{}", error)
}

/// The variable that carries the name of the switch to the command.
pub open spec fn name_variable() -> Seq<char> {
    "CONDEMN_NAME"@
}

/// The variable that carries the seconds by which a check-in was early, 0 for a switch
/// that is late.
pub open spec fn early_variable() -> Seq<char> {
    "CONDEMN_EARLY"@
}

/// A command to run on every notification: the program and its arguments.
pub struct Command {
    cmd: Vec<String>,
}

impl Command {
    #[verifier::type_invariant]
    closed spec fn has_program(self) -> bool {
        self.cmd@.len() > 0
    }

    /// The program, then its arguments.
    pub closed spec fn words(&self) -> Seq<Seq<char>> {
        texts(self.cmd@)
    }

    /// The command made of these words, the program first; none where there is no word.
    pub fn from_words(words: Vec<String>) -> (r: Option<Command>)
        ensures
            r is Some <==> words@.len() > 0,
            r matches Some(command) ==> command.words() == texts(words@),
    {
        if words.len() > 0 {
            Some(Command { cmd: words })
        } else {
            None
        }
    }

    /// The command that a command line stands for; none where the line holds no word or a
    /// quote that is never closed.
    pub fn new(line: &str) -> (r: Option<Command>)
        ensures
            r is Some <==> (shell_split(line@) matches Some(words) && words.len() > 0),
            r matches Some(command) ==> shell_split(line@) == Some(command.words()),
    {
        match split(line) {
            Ok(words) => Command::from_words(words),
            Err(_) => None,
        }
    }

    /// The program, then its arguments.
    pub fn cmd(&self) -> (r: &Vec<String>)
        ensures
            texts(r@) == self.words(),
            r@.len() > 0,
    {
        proof {
            use_type_invariant(self);
        }
        &self.cmd
    }
}

impl Notifier for Command {
    /// Run the program with its arguments, and tell it the name and the seconds.
    open spec fn actions(&self, name: Seq<char>, early: Option<u64>) -> Seq<ActionView> {
        seq![
            ActionView::Run {
                program: self.words()[0],
                args: self.words().skip(1),
                env: seq![
                    PairView { key: name_variable(), value: name },
                    PairView {
                        key: early_variable(),
                        value: digits(
                            match early {
                                Some(secs) => secs as nat,
                                None => 0,
                            },
                        ),
                    },
                ],
            },
        ]
    }

    fn notify(&self, name: String, early: Option<u64>) -> (r: Vec<Action>) {
        proof {
            use_type_invariant(self);
        }
        let program = self.cmd[0].clone();
        let mut args: Vec<String> = Vec::new();
        let mut i: usize = 1;
        while i < self.cmd.len()
            invariant
                1 <= i <= self.cmd@.len(),
                args@.len() == i - 1,
                forall|j: int| 0 <= j < args@.len() ==> (#[trigger] args@[j])@ == self.cmd@[j + 1]@,
            decreases self.cmd@.len() - i,
        {
            args.push(self.cmd[i].clone());
            i += 1;
        }
        let secs = match early {
            Some(secs) => secs,
            None => 0,
        };
        let mut env: Vec<Pair> = Vec::new();
        env.push(Pair { key: String::from_str("CONDEMN_NAME"), value: name });
        env.push(Pair { key: String::from_str("CONDEMN_EARLY"), value: decimal(secs) });
        let ghost wanted = self.actions(name@, early);
        let mut list: Vec<Action> = Vec::new();
        list.push(Action::Run { program, args, env });
        proof {
            assert(texts(args@) =~= self.words().skip(1));
            assert(crate::notifiers::pair_views(env@) =~= wanted[0]->Run_env);
            assert(action_views(list@) =~= wanted);
        }
        list
    }
}

} // verus!
