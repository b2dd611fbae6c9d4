//! What holds of the far end of a loopback.

use vstd::prelude::*;

use crate::arrived::ArrivedView;
use crate::error::ErrorView;
use crate::far_end::ListeningView;
use crate::session::{ActionView, EventView, OutcomeView, PhaseView, SessionView};

verus! {

/// The first file that is stored is kept, and the next command read.
pub proof fn lemma_the_first_store_is_kept(
    session: SessionView,
    outcome: OutcomeView,
    arrived: ArrivedView,
)
    requires
        session.step(outcome).1 == ActionView::Happened(EventView::Stored(arrived)),
    ensures
        (ListeningView { session, first: None }).step(outcome) == (
            ListeningView {
                session: SessionView { phase: PhaseView::Command, ..session.step(outcome).0 },
                first: Some(arrived),
            },
            ActionView::ReadLine,
        ),
{
}

/// What is retrieved and deleted is passed over, and the next command read.
pub proof fn lemma_the_rest_is_passed_over(
    session: SessionView,
    outcome: OutcomeView,
    first: Option<ArrivedView>,
)
    requires
        session.step(outcome).1 matches ActionView::Happened(event) && !(event is Stored),
    ensures
        (ListeningView { session, first }).step(outcome) == (
            ListeningView {
                session: SessionView { phase: PhaseView::Command, ..session.step(outcome).0 },
                first,
            },
            ActionView::ReadLine,
        ),
{
}

/// The file that is kept is reported, whole, once the client leaves or stores
/// another; a client that leaves without a store is a failure.
pub proof fn lemma_the_kept_file_is_reported(
    session: SessionView,
    outcome: OutcomeView,
    kept: ArrivedView,
)
    requires
        session.step(outcome).1 is Left || (session.step(outcome).1 matches ActionView::Happened(
            event,
        ) && event is Stored),
    ensures
        (ListeningView { session, first: Some(kept) }).step(outcome) == (
            ListeningView { session: session.step(outcome).0, first: None },
            ActionView::Happened(EventView::Stored(kept)),
        ),
        session.step(outcome).1 is Left ==> (ListeningView { session, first: None }).step(outcome)
            == (
            ListeningView { session: session.step(outcome).0, first: None },
            ActionView::Failed(ErrorView::Protocol("the client quit without storing"@)),
        ),
{
}

/// All else is done as the session wants it done, and the file is kept.
pub proof fn lemma_all_else_is_the_session(
    session: SessionView,
    outcome: OutcomeView,
    first: Option<ArrivedView>,
)
    requires
        !(session.step(outcome).1 is Happened),
        !(session.step(outcome).1 is Left),
    ensures
        (ListeningView { session, first }).step(outcome) == (
            ListeningView { session: session.step(outcome).0, first },
            session.step(outcome).1,
        ),
{
}

} // verus!
