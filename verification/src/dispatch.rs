//! The command dispatcher: from a command, the requesting user and the
//! argument tokens to a ledger operation and the reply for the requester.
//!
//! Every outcome is a reply. Nothing a requester sends can make the
//! dispatcher fail.

use crate::ledger::{borrowed, gave_back, listed, Ledger, LedgerModel};
use crate::numeral::{decimal, decimal_text, index_of_token, parse_index, IndexError};
use crate::strings::{same_text, texts};
use vstd::prelude::*;

verus! {

/// The commands that reach the ledger.
#[derive(Clone, Copy, Debug, PartialEq, Eq, Structural)]
pub enum Command {
    /// `borrow <item>`
    Borrow,
    /// `list`
    List,
    /// `giveback <index>`
    GiveBack,
}

/// What the requester is told.
#[derive(Debug, PartialEq, Eq)]
pub enum Reply {
    /// The item was added to the requester's list.
    Added,
    /// The requester's list, oldest first.
    Listing(Vec<String>),
    /// The item was taken off the requester's list.
    Returned,
    /// The requester has no entry in the ledger.
    NeverBorrowed,
    /// The position is not one of the requester's list.
    OutOfRange,
    /// The command needs an argument and got none.
    MissingArgument,
    /// The argument is not a list position.
    BadIndex(IndexError),
}

/// The model of a reply.
pub enum ReplyModel {
    Added,
    Listing(Seq<Seq<char>>),
    Returned,
    NeverBorrowed,
    OutOfRange,
    MissingArgument,
    BadIndex(IndexError),
}

impl View for Reply {
    type V = ReplyModel;

    open spec fn view(&self) -> ReplyModel {
        match self {
            Reply::Added => ReplyModel::Added,
            Reply::Listing(items) => ReplyModel::Listing(texts(items@)),
            Reply::Returned => ReplyModel::Returned,
            Reply::NeverBorrowed => ReplyModel::NeverBorrowed,
            Reply::OutOfRange => ReplyModel::OutOfRange,
            Reply::MissingArgument => ReplyModel::MissingArgument,
            Reply::BadIndex(e) => ReplyModel::BadIndex(*e),
        }
    }
}

/// The command that goes by `name`, if any.
pub open spec fn command_named(name: Seq<char>) -> Option<Command> {
    if name == "borrow"@ {
        Some(Command::Borrow)
    } else if name == "list"@ {
        Some(Command::List)
    } else if name == "giveback"@ {
        Some(Command::GiveBack)
    } else {
        None
    }
}

/// The ledger after a command and the reply to it.
///
/// `borrow` takes its first argument as the item and leaves the ledger alone
/// when there is none. `giveback` looks for the requester's entry before it
/// looks at its argument, so a requester without an entry is told so
/// whatever the argument.
pub open spec fn dispatched(
    m: LedgerModel,
    command: Command,
    user: Seq<char>,
    args: Seq<Seq<char>>,
) -> (LedgerModel, ReplyModel) {
    match command {
        Command::Borrow => if args.len() == 0 {
            (m, ReplyModel::MissingArgument)
        } else {
            (borrowed(m, user, args[0]), ReplyModel::Added)
        },
        Command::List => match listed(m, user) {
            Ok(items) => (m, ReplyModel::Listing(items)),
            Err(_) => (m, ReplyModel::NeverBorrowed),
        },
        Command::GiveBack => if !m.contains_key(user) {
            (m, ReplyModel::NeverBorrowed)
        } else if args.len() == 0 {
            (m, ReplyModel::MissingArgument)
        } else {
            match index_of_token(args[0]) {
                Err(e) => (m, ReplyModel::BadIndex(e)),
                Ok(index) => match gave_back(m, user, index as int) {
                    Ok(after) => (after, ReplyModel::Returned),
                    Err(_) => (m, ReplyModel::OutOfRange),
                },
            }
        },
    }
}

/// The reply to a borrow that was served.
pub const ADDED: &'static str = "追加しました";

/// The line above an enumeration of items.
pub const LISTING_HEADER: &'static str = "あなたが借りている物のリストはこちらです\n";

/// The reply to a giveback that was served.
pub const RETURNED: &'static str = "返却しました";

/// The reply to a requester without an entry.
pub const NEVER_BORROWED: &'static str = "多分まだ1度も借りたことがありませんね?";

/// The reply to a position that is not one of the list.
pub const OUT_OF_RANGE: &'static str = "範囲外です､listコマンドでインデックスを確認してください";

/// The reply to a command that lacks its argument.
pub const MISSING_ARGUMENT: &'static str = "ArgError(\"end of string\")";

/// The reply to an empty position.
pub const EMPTY_INDEX: &'static str = "ArgError(\"cannot parse integer from empty string\")";

/// The reply to a position that is no number.
pub const INVALID_INDEX: &'static str = "ArgError(\"invalid digit found in string\")";

/// The reply to a position too large for the machine.
pub const LARGE_INDEX: &'static str = "ArgError(\"number too large to fit in target type\")";

/// The lines of an enumeration: each item behind its 1-based position.
pub open spec fn enumeration(items: Seq<Seq<char>>) -> Seq<char>
    decreases items.len(),
{
    if items.len() == 0 {
        Seq::empty()
    } else {
        enumeration(items.drop_last()) + decimal_text(items.len()) + ". "@ + items.last() + "\n"@
    }
}

/// The text of a reply.
pub open spec fn reply_text(reply: ReplyModel) -> Seq<char> {
    match reply {
        ReplyModel::Added => ADDED@,
        ReplyModel::Listing(items) => LISTING_HEADER@ + enumeration(items),
        ReplyModel::Returned => RETURNED@,
        ReplyModel::NeverBorrowed => NEVER_BORROWED@,
        ReplyModel::OutOfRange => OUT_OF_RANGE@,
        ReplyModel::MissingArgument => MISSING_ARGUMENT@,
        ReplyModel::BadIndex(IndexError::Empty) => EMPTY_INDEX@,
        ReplyModel::BadIndex(IndexError::InvalidDigit) => INVALID_INDEX@,
        ReplyModel::BadIndex(IndexError::TooLarge) => LARGE_INDEX@,
    }
}

impl Command {
    /// The command that goes by `name`, if any.
    pub fn named(name: &str) -> (command: Option<Command>)
        ensures
            command == command_named(name@),
    {
        if same_text(name, "borrow") {
            Some(Command::Borrow)
        } else if same_text(name, "list") {
            Some(Command::List)
        } else if same_text(name, "giveback") {
            Some(Command::GiveBack)
        } else {
            None
        }
    }
}

impl Reply {
    /// The text that the requester is sent.
    pub fn text(&self) -> (text: String)
        ensures
            text@ == reply_text(self@),
    {
        match self {
            Reply::Added => ADDED.to_owned(),
            Reply::Listing(items) => {
                let mut text = LISTING_HEADER.to_owned();
                let ghost header = text@;
                let mut i: usize = 0;
                while i < items.len()
                    invariant
                        i <= items@.len(),
                        text@ == header + enumeration(texts(items@).take(i as int)),
                    decreases items@.len() - i,
                {
                    let position = decimal(i + 1);
                    text.append(position.as_str());
                    text.append(". ");
                    text.append(items[i].as_str());
                    text.append("\n");
                    assert(texts(items@).take(i + 1).drop_last() =~= texts(items@).take(i as int));
                    i += 1;
                }
                assert(texts(items@).take(items@.len() as int) =~= texts(items@));
                text
            },
            Reply::Returned => RETURNED.to_owned(),
            Reply::NeverBorrowed => NEVER_BORROWED.to_owned(),
            Reply::OutOfRange => OUT_OF_RANGE.to_owned(),
            Reply::MissingArgument => MISSING_ARGUMENT.to_owned(),
            Reply::BadIndex(IndexError::Empty) => EMPTY_INDEX.to_owned(),
            Reply::BadIndex(IndexError::InvalidDigit) => INVALID_INDEX.to_owned(),
            Reply::BadIndex(IndexError::TooLarge) => LARGE_INDEX.to_owned(),
        }
    }
}

/// Serves one command of `user` on the ledger and says what to reply.
pub fn dispatch(ledger: &mut Ledger, command: Command, user: &str, args: &Vec<String>) -> (reply:
    Reply)
    requires
        old(ledger).wf(),
    ensures
        final(ledger).wf(),
        (final(ledger)@, reply@) == dispatched(old(ledger)@, command, user@, texts(args@)),
{
    match command {
        Command::Borrow => {
            if args.len() == 0 {
                Reply::MissingArgument
            } else {
                ledger.borrow(user, args[0].clone());
                Reply::Added
            }
        },
        Command::List => match ledger.list(user) {
            Ok(items) => Reply::Listing(items),
            Err(_) => Reply::NeverBorrowed,
        },
        Command::GiveBack => {
            if !ledger.contains(user) {
                Reply::NeverBorrowed
            } else if args.len() == 0 {
                Reply::MissingArgument
            } else {
                match parse_index(args[0].as_str()) {
                    Err(e) => Reply::BadIndex(e),
                    Ok(index) => match ledger.giveback(user, index) {
                        Ok(()) => Reply::Returned,
                        Err(_) => Reply::OutOfRange,
                    },
                }
            }
        },
    }
}

/// Serves the command that goes by `name`. A name that is no command of
/// the ledger gets no reply and changes nothing.
pub fn dispatch_named(ledger: &mut Ledger, name: &str, user: &str, args: &Vec<String>) -> (reply:
    Option<Reply>)
    requires
        old(ledger).wf(),
    ensures
        final(ledger).wf(),
        match command_named(name@) {
            Some(command) => reply is Some && (final(ledger)@, reply->Some_0@) == dispatched(
                old(ledger)@,
                command,
                user@,
                texts(args@),
            ),
            None => reply is None && final(ledger)@ == old(ledger)@,
        },
{
    match Command::named(name) {
        Some(command) => Some(dispatch(ledger, command, user, args)),
        None => None,
    }
}

/// Commands of different users do not touch each other: served in either
/// order, they leave the same ledger and each gets the same reply.
pub proof fn lemma_users_do_not_interfere(
    m: LedgerModel,
    first: Command,
    first_user: Seq<char>,
    first_args: Seq<Seq<char>>,
    second: Command,
    second_user: Seq<char>,
    second_args: Seq<Seq<char>>,
)
    requires
        first_user != second_user,
    ensures
        ({
            let one = dispatched(m, first, first_user, first_args);
            let one_two = dispatched(one.0, second, second_user, second_args);
            let two = dispatched(m, second, second_user, second_args);
            let two_one = dispatched(two.0, first, first_user, first_args);
            &&& one_two.0 == two_one.0
            &&& one.1 == two_one.1
            &&& two.1 == one_two.1
        }),
{
    let one = dispatched(m, first, first_user, first_args);
    let one_two = dispatched(one.0, second, second_user, second_args);
    let two = dispatched(m, second, second_user, second_args);
    let two_one = dispatched(two.0, first, first_user, first_args);
    assert(one_two.0 =~= two_one.0);
}

} // verus!
