//! A loopback's round: an exchange that sends one file to the far end that
//! waits for one, and nothing between them that fails.

use vstd::prelude::*;

use crate::arrived::{arrival, ArrivedView};
use crate::client::{ClientView, LoginView, ProductView, RequestView, TransferView};
use crate::exchange::{PlanView, TurnView};
use crate::far_end::ListeningView;
use crate::reply::reply_bytes;
use crate::session::{ActionView, EventView, OutcomeView, PhaseView, SessionView};
use crate::text::is_one_line;
use crate::wire::{
    lemma_anyone_logs_in, lemma_goodbye_is_answered, lemma_store_arrives, Wire,
};

verus! {

/// A wire whose session is a far end's.
pub struct Round {
    pub wire: Wire,
    /// The file that the far end keeps.
    pub first: Option<ArrivedView>,
}

impl Round {
    /// Whether what the far end wants can be done. It is over once it reports
    /// the file.
    pub open spec fn far_end_can(self) -> bool {
        self.wire.session_can() && !(self.wire.action is Happened)
    }

    /// What the far end wants, done, and the far end told.
    pub open spec fn far_end_moves(self) -> Round {
        let (wire, outcome) = self.wire.done();
        let (far, action) = (ListeningView { session: wire.session, first: self.first }).step(
            outcome,
        );
        Round { wire: Wire { session: far.session, action, ..wire }, first: far.first }
    }

    /// One thing done, the client's where it can be.
    pub open spec fn tick(self) -> Round {
        if self.wire.client_can() {
            Round { wire: self.wire.client_moves(), ..self }
        } else if self.far_end_can() {
            self.far_end_moves()
        } else {
            self
        }
    }

    /// So many things done.
    pub open spec fn run(self, n: nat) -> Round
        decreases n,
    {
        if n == 0 {
            self
        } else {
            self.tick().run((n - 1) as nat)
        }
    }

    /// Whether all that happens from here leads to `end`.
    pub open spec fn leads_to(self, end: Round) -> bool {
        exists|n: nat| #[trigger] self.run(n) == end
    }

    /// Whether the client has finished and nothing more can be done.
    pub open spec fn rests(self) -> bool {
        self.wire.request is Finished && !self.wire.client_can() && !self.far_end_can()
    }

    /// The client having begun this.
    pub open spec fn with(self, begun: (ClientView, RequestView)) -> Round {
        Round { wire: self.wire.with(begun), ..self }
    }

    /// Whether the far end's session stands where that of `w` does.
    spec fn follows(self, w: Wire) -> bool {
        self.wire == (Wire { events: self.wire.events, ..w })
    }
}

/// Whether an exchange that is at `plan`, its client having begun what
/// `round` says, ends with `turn` and leaves `end`. Each time that nothing
/// more can be done and the client has finished, the exchange goes on; it
/// does so at most `rounds` times.
pub open spec fn pursues(
    plan: PlanView,
    round: Round,
    rounds: nat,
    turn: TurnView,
    end: Round,
) -> bool
    decreases rounds,
{
    exists|rest: Round| #[trigger]
        round.leads_to(rest) && rest.rests() && match plan.after(rest.wire.request->Finished_0) {
            (next, TurnView::Do(request)) => rounds > 0 && pursues(
                next.plan,
                rest.with((next.client, request)),
                (rounds - 1) as nat,
                turn,
                end,
            ),
            (_, last) => last == turn && rest == end,
        }
}

/// What was reported stays so, what is to be reported will be, and a client
/// that left is gone.
proof fn lemma_reports_stay(w: Wire, n: nat)
    ensures
        w.events.len() <= w.run(n).events.len(),
        w.run(n).events.take(w.events.len() as int) == w.events,
        w.action matches ActionView::Happened(event) ==> {
            ||| w.run(n).action is Happened
            ||| w.run(n).events.len() > w.events.len() && w.run(n).events[w.events.len() as int]
                == event
        },
        w.action is Left ==> w.run(n).action is Left && w.run(n).events == w.events,
    decreases n,
{
    if n == 0 {
        assert(w.events.take(w.events.len() as int) =~= w.events);
    } else {
        let next = w.tick();
        let end = w.run(n);
        lemma_reports_stay(next, (n - 1) as nat);
        assert(w.events.len() <= next.events.len());
        assert(next.events.take(w.events.len() as int) =~= w.events);
        assert(end.events.take(w.events.len() as int) =~= end.events.take(
            next.events.len() as int,
        ).take(w.events.len() as int));
        if let ActionView::Happened(event) = w.action {
            if !w.client_can() {
                assert(next.events == w.events.push(event));
                assert(end.events[w.events.len() as int] == end.events.take(
                    next.events.len() as int,
                )[w.events.len() as int]);
            }
        }
    }
}

/// While nothing is reported, a far end does as a session does.
proof fn lemma_follows(r: Round, w: Wire, n: nat)
    requires
        r.follows(w),
        w.run(n).events.len() == w.events.len(),
        !(w.run(n).action is Happened),
        !(w.run(n).action is Left),
    ensures
        r.run(n) == (Round { wire: Wire { events: r.wire.events, ..w.run(n) }, ..r }),
    decreases n,
{
    lemma_reports_stay(w, n);
    if n > 0 {
        lemma_reports_stay(w.tick(), (n - 1) as nat);
        assert(r.tick().follows(w.tick()));
        lemma_follows(r.tick(), w.tick(), (n - 1) as nat);
    }
}

/// A far end keeps the first file that its session reports.
proof fn lemma_keeps(r: Round, w: Wire, n: nat, arrived: ArrivedView)
    requires
        r.follows(w),
        r.first is None,
        !(w.action is Happened),
        w.run(n).events == w.events.push(EventView::Stored(arrived)),
        !(w.run(n).action is Happened),
        !(w.run(n).action is Left),
    ensures
        r.leads_to(
            Round {
                wire: Wire { events: r.wire.events, ..w.run(n) },
                first: Some(arrived),
            },
        ),
    decreases n,
{
    let end = Round {
        wire: Wire { events: r.wire.events, ..w.run(n) },
        first: Some(arrived),
    };
    if n == 0 {
        assert(w.run(n).events.len() == w.events.len() + 1);
    } else {
        let next = w.tick();
        lemma_reports_stay(w, n);
        lemma_reports_stay(next, (n - 1) as nat);
        assert(next.events == w.events);
        if let ActionView::Happened(event) = next.action {
            assert(event == EventView::Stored(arrived));
            lemma_keeps_on(r.tick(), next, (n - 1) as nat, arrived);
        } else {
            assert(r.tick().follows(next));
            lemma_keeps(r.tick(), next, (n - 1) as nat, arrived);
        }
        lemma_tick(r, end);
    }
}

/// A far end that keeps a file has gone on while its session is about to
/// report it.
proof fn lemma_keeps_on(r: Round, w: Wire, n: nat, arrived: ArrivedView)
    requires
        r.first == Some(arrived),
        w.action == ActionView::Happened(EventView::Stored(arrived)),
        r.follows(w.heard(OutcomeView::Begin)),
        w.run(n).events == w.events.push(EventView::Stored(arrived)),
        !(w.run(n).action is Happened),
        !(w.run(n).action is Left),
    ensures
        r.leads_to(Round { wire: Wire { events: r.wire.events, ..w.run(n) }, ..r }),
    decreases n,
{
    let end = Round { wire: Wire { events: r.wire.events, ..w.run(n) }, ..r };
    let next = w.tick();
    if w.client_can() {
        assert(r.tick().follows(next.heard(OutcomeView::Begin)));
        lemma_keeps_on(r.tick(), next, (n - 1) as nat, arrived);
        lemma_tick(r, end);
    } else {
        assert(r.follows(next));
        lemma_follows(r, next, (n - 1) as nat);
        assert(r.run((n - 1) as nat) == end);
    }
}

/// A far end reports the file that it keeps when the client leaves.
proof fn lemma_reports(r: Round, w: Wire, n: nat, arrived: ArrivedView)
    requires
        r.follows(w),
        r.first == Some(arrived),
        !(w.action is Left),
        w.run(n).events.len() == w.events.len(),
        w.run(n).action is Left,
    ensures
        r.leads_to(
            Round {
                wire: Wire {
                    events: r.wire.events,
                    action: ActionView::Happened(EventView::Stored(arrived)),
                    ..w.run(n)
                },
                first: None,
            },
        ),
    decreases n,
{
    let end = Round {
        wire: Wire {
            events: r.wire.events,
            action: ActionView::Happened(EventView::Stored(arrived)),
            ..w.run(n)
        },
        first: None,
    };
    let next = w.tick();
    lemma_reports_stay(w, n);
    lemma_reports_stay(next, (n - 1) as nat);
    if next.action is Left {
        lemma_has_reported(r.tick(), next, (n - 1) as nat);
        assert(r.tick().run((n - 1) as nat) == end);
    } else {
        assert(r.tick().follows(next));
        lemma_reports(r.tick(), next, (n - 1) as nat, arrived);
    }
    lemma_tick(r, end);
}

/// Once the far end is over, the client still reads what it was answered.
proof fn lemma_has_reported(r: Round, w: Wire, n: nat)
    requires
        w.action is Left,
        r.wire.action is Happened,
        r.wire == (Wire { events: r.wire.events, action: r.wire.action, ..w }),
    ensures
        r.run(n) == (Round {
            wire: Wire { events: r.wire.events, action: r.wire.action, ..w.run(n) },
            ..r
        }),
    decreases n,
{
    if n > 0 {
        lemma_has_reported(r.tick(), w.tick(), (n - 1) as nat);
    }
}

/// One thing done, and what that leads to.
proof fn lemma_tick(r: Round, end: Round)
    requires
        r.tick().leads_to(end),
    ensures
        r.leads_to(end),
{
    let n = choose|n: nat| #[trigger] r.tick().run(n) == end;
    assert(r.run(n + 1) == end);
}

/// A round of a loopback: whatever is sent, the far end reports it whole,
/// under its name.
pub proof fn lemma_round_returns_payload(
    w: Wire,
    login: LoginView,
    name: Seq<char>,
    bytes: Seq<u8>,
)
    requires
        w.is_quiet(),
        is_one_line(login.user),
        is_one_line(login.password),
        is_one_line(name),
    ensures
        exists|rounds: nat, end: Round|
            {
                &&& #[trigger] pursues(
                    PlanView::ToStore(name, bytes),
                    (Round {
                        wire: Wire { replies: reply_bytes(220, "xmip ready"@), ..w },
                        first: None,
                    }).with((ClientView::Greeting(login), RequestView::ReadReply)),
                    rounds,
                    TurnView::Sent,
                    end,
                )
                &&& end.wire.action == ActionView::Happened(
                    EventView::Stored(arrival(w.session.peer, name, bytes)),
                )
                &&& end.wire.action matches ActionView::Happened(EventView::Stored(arrived))
                    && arrived.bytes == bytes && arrived.origin_uri == "ftp://"@ + w.session.peer
                    + "/"@ + name
            },
{
    let arrived = arrival(w.session.peer, name, bytes);
    let wire = Wire { replies: reply_bytes(220, "xmip ready"@), ..w }.with(
        (ClientView::Greeting(login), RequestView::ReadReply),
    );
    let start = Round { wire, first: None };
    let a = w.with(ClientView::finish(ProductView::Connected));
    let near_a = Round { wire: a, first: None };
    lemma_anyone_logs_in(w, login);
    let n = choose|n: nat| #[trigger] wire.run(n) == a;
    lemma_follows(start, wire, n);
    assert(start.run(n) == near_a);

    let a1 = w.with(ClientView::begin(TransferView::Store(name, bytes)));
    let b = Wire {
        session: SessionView {
            files: w.session.files.insert(name, bytes),
            passive: false,
            ..w.session
        },
        listening: false,
        reached: false,
        events: w.events.push(EventView::Stored(arrived)),
        ..w
    }.with(ClientView::finish(ProductView::Stored));
    let near_b = Round { wire: Wire { events: w.events, ..b }, first: Some(arrived) };
    lemma_store_arrives(w, name, bytes);
    let n = choose|n: nat| #[trigger] a1.run(n) == b;
    let start_a = Round { wire: a1, first: None };
    lemma_keeps(start_a, a1, n, arrived);
    assert(start_a.leads_to(near_b));

    let b1 = b.with(ClientView::Quitting.ask("QUIT"@));
    let c = Wire {
        session: SessionView { phase: PhaseView::Idle, ..b.session },
        action: ActionView::Left,
        ..b
    }.with(ClientView::finish(ProductView::Left));
    lemma_goodbye_is_answered(b);
    let n = choose|n: nat| #[trigger] b1.run(n) == c;
    let start_b = near_b.with(ClientView::Quitting.ask("QUIT"@));
    let end = Round {
        wire: Wire {
            events: w.events,
            action: ActionView::Happened(EventView::Stored(arrived)),
            ..c
        },
        first: None,
    };
    assert(start_b.follows(b1));
    lemma_reports(start_b, b1, n, arrived);
    assert(start_b.leads_to(end));

    assert(pursues(PlanView::StoreLeaving, start_b, 0, TurnView::Sent, end)) by {
        assert(start_b.leads_to(end) && end.rests());
    }
    assert(pursues(PlanView::Storing, start_a, 1, TurnView::Sent, end)) by {
        assert(start_a.leads_to(near_b) && near_b.rests());
    }
    assert(pursues(PlanView::ToStore(name, bytes), start, 2, TurnView::Sent, end)) by {
        assert(start.leads_to(near_a) && near_a.rests());
        assert(near_a.with(ClientView::begin(TransferView::Store(name, bytes))) == start_a);
    }
}

} // verus!
