//! The rental desk: the ledger together with the shutdown coordinator, as
//! one value that is made at startup and handed to whoever serves commands
//! or shuts the process down.
//!
//! Whoever holds the desk exclusively holds the ledger's lock. A command is
//! served in one step, so none is ever in flight between two calls; a
//! command that comes once shutdown has begun is not served at all.

use crate::dispatch::{dispatch, dispatched, Command, Reply, ReplyModel};
use crate::document::toml_parse;
use crate::ledger::{borrowed, items_of, Ledger, LedgerModel};
use crate::persist::{encode, loaded, saved, SaveError};
use crate::shutdown::{next, Action, Coordinator, Event, Phase, State};
use crate::strings::texts;
use vstd::prelude::*;

verus! {

/// The ledger and the coordinator that guards it.
pub struct Desk {
    ledger: Ledger,
    coordinator: Coordinator,
}

/// The model of a desk.
pub struct DeskModel {
    pub ledger: LedgerModel,
    pub state: State,
}

/// Whether a command that comes now is served.
pub open spec fn serving(d: DeskModel) -> bool {
    next(d.state, Event::Arrival).1 == Action::Admit
}

/// The desk after a command has come, and the reply if it was served. A
/// command that is served leaves nothing in flight behind it.
pub open spec fn served(
    d: DeskModel,
    command: Command,
    user: Seq<char>,
    args: Seq<Seq<char>>,
) -> (DeskModel, Option<ReplyModel>) {
    if serving(d) {
        let outcome = dispatched(d.ledger, command, user, args);
        (DeskModel { ledger: outcome.0, state: d.state }, Some(outcome.1))
    } else {
        (d, None)
    }
}

/// What a flush hands out: the text to write once the desk is drained,
/// nothing otherwise.
pub open spec fn flushed(d: DeskModel) -> Option<Result<Seq<char>, SaveError>> {
    if next(d.state, Event::DrainCheck).1 == Action::Flush {
        Some(saved(d.ledger))
    } else {
        None
    }
}

/// The event that reports how the write of the flushed text ended.
pub open spec fn write_event(written: bool) -> Event {
    if written {
        Event::Saved
    } else {
        Event::SaveFailed
    }
}

impl View for Desk {
    type V = DeskModel;

    closed spec fn view(&self) -> DeskModel {
        DeskModel { ledger: self.ledger@, state: self.coordinator@ }
    }
}

impl Desk {
    /// The representation is sound: that of the ledger and that of the
    /// coordinator are.
    pub closed spec fn wf(&self) -> bool {
        self.ledger.wf() && self.coordinator.wf()
    }

    /// A desk that is running, over the ledger that was loaded.
    pub fn open(ledger: Ledger) -> (desk: Desk)
        requires
            ledger.wf(),
        ensures
            desk.wf(),
            desk@.ledger == ledger@,
            desk@.state == (State { phase: Phase::Running, in_flight: 0 }),
    {
        Desk { ledger, coordinator: Coordinator::new() }
    }

    /// The ledger as it stands.
    pub fn ledger(&self) -> (ledger: &Ledger)
        requires
            self.wf(),
        ensures
            ledger.wf(),
            ledger@ == self@.ledger,
    {
        &self.ledger
    }

    /// The phase the process is in.
    pub fn phase(&self) -> (phase: Phase)
        ensures
            phase == self@.state.phase,
    {
        self.coordinator.phase()
    }

    /// Serves a command if the desk still serves, and says what to reply.
    /// Once shutdown has begun the command is not served: there is no reply
    /// and the ledger stays as it is.
    pub fn serve(&mut self, command: Command, user: &str, args: &Vec<String>) -> (reply: Option<
        Reply,
    >)
        requires
            old(self).wf(),
        ensures
            final(self).wf(),
            final(self)@ == served(old(self)@, command, user@, texts(args@)).0,
            match served(old(self)@, command, user@, texts(args@)).1 {
                Some(model) => reply is Some && reply->Some_0@ == model,
                None => reply is None,
            },
    {
        match self.coordinator.step(Event::Arrival) {
            Action::Admit => {
                let reply = dispatch(&mut self.ledger, command, user, args);
                self.coordinator.step(Event::Completion);
                Some(reply)
            },
            _ => None,
        }
    }

    /// Takes the termination signal and says what to do about it: stop the
    /// intake of commands if the desk was running, nothing otherwise.
    pub fn signal(&mut self) -> (action: Action)
        requires
            old(self).wf(),
        ensures
            final(self).wf(),
            final(self)@.ledger == old(self)@.ledger,
            (final(self)@.state, action) == next(old(self)@.state, Event::Signal),
    {
        self.coordinator.step(Event::Signal)
    }

    /// Begins the flush if the desk is drained, and hands out the text to
    /// write, or the reason why there is none. Without a flush to begin,
    /// nothing is handed out and nothing changes.
    pub fn flush(&mut self) -> (text: Option<Result<String, SaveError>>)
        requires
            old(self).wf(),
        ensures
            final(self).wf(),
            final(self)@.ledger == old(self)@.ledger,
            final(self)@.state == next(old(self)@.state, Event::DrainCheck).0,
            match flushed(old(self)@) {
                Some(Ok(model)) => text matches Some(Ok(t)) && t@ == model,
                Some(Err(e)) => text == Some(Err::<String, SaveError>(e)),
                None => text is None,
            },
    {
        match self.coordinator.step(Event::DrainCheck) {
            Action::Flush => Some(encode(&self.ledger)),
            _ => None,
        }
    }

    /// Takes the end of the write, well or not, and says what to do: exit
    /// if a flush was under way, with a report if the write failed.
    pub fn finish(&mut self, written: bool) -> (action: Action)
        requires
            old(self).wf(),
        ensures
            final(self).wf(),
            final(self)@.ledger == old(self)@.ledger,
            (final(self)@.state, action) == next(old(self)@.state, write_event(written)),
    {
        if written {
            self.coordinator.step(Event::Saved)
        } else {
            self.coordinator.step(Event::SaveFailed)
        }
    }
}

/// Between two calls nothing is in flight: a desk that was opened stays so
/// through every command it takes.
pub proof fn lemma_serving_leaves_nothing_in_flight(
    d: DeskModel,
    command: Command,
    user: Seq<char>,
    args: Seq<Seq<char>>,
)
    ensures
        served(d, command, user, args).0.state == d.state,
{
}

/// Once the signal has come, a command changes nothing and gets no reply.
pub proof fn lemma_nothing_is_served_after_the_signal(
    d: DeskModel,
    command: Command,
    user: Seq<char>,
    args: Seq<Seq<char>>,
)
    requires
        !(d.state.phase is Running),
    ensures
        served(d, command, user, args) == (d, None::<ReplyModel>),
{
}

/// A borrow that was served, then the signal, then the flush: the text
/// handed out, if one is, loads as a ledger in which the borrowed item is the
/// last of the borrower's list.
pub proof fn lemma_shutdown_keeps_the_borrow(d: DeskModel, user: Seq<char>, item: Seq<char>)
    requires
        d.state.phase is Running,
        d.state.in_flight == 0,
    ensures
        ({
            let after_borrow = served(d, Command::Borrow, user, seq![item]).0;
            let draining = DeskModel {
                ledger: after_borrow.ledger,
                state: next(after_borrow.state, Event::Signal).0,
            };
            &&& after_borrow.ledger == borrowed(d.ledger, user, item)
            &&& flushed(draining) == Some(saved(after_borrow.ledger))
            &&& saved(after_borrow.ledger) matches Ok(text) ==> {
                let back = loaded(toml_parse(text));
                &&& back is Ok
                &&& items_of(back->Ok_0, user).last() == item
            }
        }),
{
}

} // verus!
