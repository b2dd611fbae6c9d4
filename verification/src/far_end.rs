//! The far end of a loopback: a session with the one client that stores one
//! file.

use vstd::prelude::*;

use crate::arrived::{Arrived, ArrivedView};
use crate::error::{protocol_error, ErrorView};
use crate::session::{
    Action, ActionView, Event, EventView, Outcome, OutcomeView, Session, SessionView,
};

verus! {

/// A session that waits for one file.
pub struct Listening {
    session: Session,
    first: Option<Arrived>,
}

/// A [`Listening`] by what it knows.
pub struct ListeningView {
    pub session: SessionView,
    /// The file, once it is stored.
    pub first: Option<ArrivedView>,
}

impl View for Listening {
    type V = ListeningView;

    closed spec fn view(&self) -> ListeningView {
        ListeningView {
            session: self.session@,
            first: match self.first {
                Some(arrived) => Some(arrived@),
                None => None,
            },
        }
    }
}

impl ListeningView {
    /// What to do next, given what came of what was done last: have one file
    /// stored, then serve the goodbye that follows, so that it is answered
    /// rather than met by a closed connection, and report the file.
    pub open spec fn step(self, outcome: OutcomeView) -> (ListeningView, ActionView) {
        let (session, action) = self.session.step_to_store(outcome);
        match (self.first, action) {
            (None, ActionView::Happened(EventView::Stored(arrived))) => {
                let (session, action) = session.step(OutcomeView::Begin);
                (ListeningView { session, first: Some(arrived) }, action)
            },
            (None, ActionView::Left) => (
                ListeningView { session, first: None },
                ActionView::Failed(ErrorView::Protocol("the client quit without storing"@)),
            ),
            (Some(arrived), ActionView::Happened(_)) => (
                ListeningView { session, first: None },
                ActionView::Happened(EventView::Stored(arrived)),
            ),
            (Some(arrived), ActionView::Left) => (
                ListeningView { session, first: None },
                ActionView::Happened(EventView::Stored(arrived)),
            ),
            (first, action) => (ListeningView { session, first }, action),
        }
    }
}

impl Listening {
    /// Wait for one file in this session.
    pub fn new(session: Session) -> (listening: Self)
        ensures
            listening@ == (ListeningView { session: session@, first: None }),
    {
        Listening { session, first: None }
    }

    /// Whether this can come of what was asked for last.
    pub fn accepts(&self, outcome: &Outcome) -> (yes: bool)
        ensures
            yes == self@.session.awaits(outcome@),
    {
        self.session.accepts(outcome)
    }

    /// What to do next until the client has stored a file and has been
    /// answered what it asked then, given what came of what was done last.
    /// [`Action::Happened`] reports the file.
    pub fn take_one(&mut self, outcome: Outcome) -> (action: Action)
        requires
            old(self)@.session.awaits(outcome@),
        ensures
            (final(self)@, action@) == old(self)@.step(outcome@),
            action matches Action::Happened(event) ==> event is Stored,
            !(action is Left),
    {
        let action: Action = self.session.next_store(outcome);
        match (self.first.take(), action) {
            (None, Action::Happened(Event::Stored(arrived))) => {
                self.first = Some(arrived);
                self.session.next_store(Outcome::Begin)
            },
            (None, Action::Left) => {
                Action::Failed(protocol_error("the client quit without storing"))
            },
            (Some(arrived), Action::Happened(_)) => Action::Happened(Event::Stored(arrived)),
            (Some(arrived), Action::Left) => Action::Happened(Event::Stored(arrived)),
            (first, action) => {
                self.first = first;
                action
            },
        }
    }
}

} // verus!
