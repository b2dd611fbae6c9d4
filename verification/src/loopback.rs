//! A whole exchange with a session at the other end and nothing between them
//! that fails: what was sent arrives, and what was there is received.

use vstd::prelude::*;

use crate::arrived::{arrival, ArrivedView};
use crate::client::{ClientView, LoginView, ProductView, RequestView, TransferView};
use crate::exchange::{HaulView, PlanView, TurnView};
use crate::far_end::ListeningView;
use crate::files::{lemma_before_irreflexive, lemma_one_listing, lists, names_in};
use crate::reply::reply_bytes;
use crate::session::{ActionView, EventView, OutcomeView, PhaseView, SessionView};
use crate::text::is_one_line;
use crate::wire::{
    is_listable, lemma_anyone_logs_in, lemma_delete_takes_away, lemma_goodbye_is_answered,
    lemma_listing_reads_back, lemma_names_come_over, lemma_retrieve_gives_back,
    lemma_store_arrives, Wire,
};

verus! {

/// Whether an exchange that is at `plan`, its client having begun what `w`
/// says, ends with `turn` and leaves `end`. Each time that nothing more can
/// be done and the client has finished, the exchange goes on; it does so at
/// most `rounds` times.
pub open spec fn pursues(plan: PlanView, w: Wire, rounds: nat, turn: TurnView, end: Wire) -> bool
    decreases rounds,
{
    exists|rest: Wire| #[trigger]
        w.leads_to(rest) && rests(rest) && match plan.after(rest.request->Finished_0) {
            (next, TurnView::Do(request)) => rounds > 0 && pursues(
                next.plan,
                rest.with((next.client, request)),
                (rounds - 1) as nat,
                turn,
                end,
            ),
            (_, last) => last == turn && rest == end,
        }
}

/// Whether the client has finished and nothing more can be done.
pub open spec fn rests(w: Wire) -> bool {
    w.request is Finished && !w.client_can() && !w.session_can()
}

/// Sending a file to a session: whatever its bytes, they arrive whole, under
/// its name, and nothing else does.
pub proof fn lemma_loopback_returns_payload(
    w: Wire,
    login: LoginView,
    name: Seq<char>,
    bytes: Seq<u8>,
)
    requires
        w.is_quiet(),
        is_one_line(login.user),
        is_one_line(login.password),
        is_one_line(name),
    ensures
        exists|rounds: nat, end: Wire|
            {
                &&& #[trigger] pursues(
                    PlanView::ToStore(name, bytes),
                    (Wire { replies: reply_bytes(220, "xmip ready"@), ..w }).with(
                        (ClientView::Greeting(login), RequestView::ReadReply),
                    ),
                    rounds,
                    TurnView::Sent,
                    end,
                )
                &&& end.events == w.events.push(
                    EventView::Stored(arrival(w.session.peer, name, bytes)),
                )
                &&& end.events.last() matches EventView::Stored(arrived) && arrived.bytes == bytes
                    && arrived.origin_uri == "ftp://"@ + w.session.peer + "/"@ + name
                &&& end.action is Left
                &&& end.session.files == w.session.files.insert(name, bytes)
            },
{
    let start = Wire { replies: reply_bytes(220, "xmip ready"@), ..w }.with(
        (ClientView::Greeting(login), RequestView::ReadReply),
    );
    let a = w.with(ClientView::finish(ProductView::Connected));
    lemma_anyone_logs_in(w, login);
    let a1 = w.with(ClientView::begin(TransferView::Store(name, bytes)));
    lemma_store_arrives(w, name, bytes);
    let b = Wire {
        session: SessionView {
            files: w.session.files.insert(name, bytes),
            passive: false,
            ..w.session
        },
        listening: false,
        reached: false,
        events: w.events.push(EventView::Stored(arrival(w.session.peer, name, bytes))),
        ..w
    }.with(ClientView::finish(ProductView::Stored));
    let b1 = b.with(ClientView::Quitting.ask("QUIT"@));
    lemma_goodbye_is_answered(b);
    let c = Wire {
        session: SessionView { phase: PhaseView::Idle, ..b.session },
        action: ActionView::Left,
        ..b
    }.with(ClientView::finish(ProductView::Left));
    assert(pursues(PlanView::StoreLeaving, b1, 0, TurnView::Sent, c)) by {
        assert(b1.leads_to(c) && rests(c));
    }
    assert(pursues(PlanView::Storing, a1, 1, TurnView::Sent, c)) by {
        assert(a1.leads_to(b) && rests(b));
    }
    assert(pursues(PlanView::ToStore(name, bytes), start, 2, TurnView::Sent, c)) by {
        assert(start.leads_to(a) && rests(a));
        assert(a.with(ClientView::begin(TransferView::Store(name, bytes))) == a1);
    }
}

/// The files of `server` under these names, as they arrive.
pub open spec fn fetched(
    server: Seq<char>,
    files: Map<Seq<char>, Seq<u8>>,
    names: Seq<Seq<char>>,
) -> Seq<ArrivedView> {
    Seq::new(names.len(), |i: int| arrival(server, names[i], files[names[i]]))
}

/// `files` without these names.
pub open spec fn without(
    files: Map<Seq<char>, Seq<u8>>,
    names: Seq<Seq<char>>,
) -> Map<Seq<char>, Seq<u8>>
    decreases names.len(),
{
    if names.len() == 0 {
        files
    } else {
        without(files.remove(names[0]), names.skip(1))
    }
}

/// What is left without some names are the others.
proof fn lemma_without(files: Map<Seq<char>, Seq<u8>>, names: Seq<Seq<char>>, name: Seq<char>)
    ensures
        without(files, names).contains_key(name) <==> files.contains_key(name)
            && !names.contains(name),
    decreases names.len(),
{
    if names.len() > 0 {
        lemma_without(files.remove(names[0]), names.skip(1), name);
        if names.contains(name) && name != names[0] {
            let i = choose|i: int| 0 <= i < names.len() && names[i] == name;
            assert(names.skip(1)[i - 1] == name);
        }
        if names.skip(1).contains(name) {
            let i = choose|i: int| 0 <= i < names.skip(1).len() && names.skip(1)[i] == name;
            assert(names[i + 1] == name);
        }
        if name == names[0] {
            assert(names.contains(name));
        }
    }
}

/// Whether an exchange at `next` takes all of `files` that `haul` names, and
/// leaves the rest.
spec fn takes(haul: HaulView, w: Wire, files: Map<Seq<char>, Seq<u8>>) -> bool {
    let (next, turn) = PlanView::next(haul);
    exists|rounds: nat, end: Wire|
        {
            &&& #[trigger] pursues(
                next.plan,
                w.with((next.client, turn->Do_0)),
                rounds,
                TurnView::Received(fetched(haul.server, files, haul.names)),
                end,
            )
            &&& end.action is Left
            &&& end.session.files == if haul.delete {
                without(w.session.files, haul.names.skip(haul.arrived.len() as int))
            } else {
                w.session.files
            }
        }
}

/// From any file on, all that follow are taken.
proof fn lemma_takes(haul: HaulView, w: Wire, files: Map<Seq<char>, Seq<u8>>)
    requires
        w.is_quiet(),
        haul.arrived.len() <= haul.names.len(),
        forall|i: int, j: int|
            0 <= i < j < haul.names.len() ==> #[trigger] haul.names[i] != #[trigger] haul.names[j],
        forall|i: int|
            haul.arrived.len() <= i < haul.names.len() ==> is_one_line(#[trigger] haul.names[i])
                && w.session.files.contains_key(haul.names[i])
                && w.session.files[haul.names[i]] == files[haul.names[i]],
        haul.arrived == fetched(haul.server, files, haul.names).take(haul.arrived.len() as int),
    ensures
        takes(haul, w, files),
    decreases haul.names.len() - haul.arrived.len(),
{
    let k = haul.arrived.len() as int;
    let all = fetched(haul.server, files, haul.names);
    let (next, turn) = PlanView::next(haul);
    let start = w.with((next.client, turn->Do_0));
    if k == haul.names.len() {
        lemma_goodbye_is_answered(w);
        let c = Wire {
            session: SessionView { phase: PhaseView::Idle, ..w.session },
            action: ActionView::Left,
            ..w
        }.with(ClientView::finish(ProductView::Left));
        assert(all.take(k) =~= all);
        assert(start.leads_to(c) && rests(c));
        assert(pursues(next.plan, start, 0, TurnView::Received(all), c));
        assert(haul.names.skip(k) =~= Seq::<Seq<char>>::empty());
    } else {
        let name = haul.names[k];
        let bytes = w.session.files[name];
        lemma_retrieve_gives_back(w, name);
        let b = Wire {
            session: SessionView { passive: false, ..w.session },
            listening: false,
            reached: false,
            events: w.events.push(EventView::Retrieved(name)),
            ..w
        }.with(ClientView::finish(ProductView::Retrieved(bytes)));
        let grown = haul.with(bytes);
        assert(grown.arrived =~= all.take(k + 1));
        assert(start.leads_to(b) && rests(b));
        assert(haul.names.skip(k).skip(1) =~= haul.names.skip(k + 1));
        if haul.delete {
            lemma_delete_takes_away(b, name);
            let b1 = b.with(ClientView::Deleting.ask("DELE "@ + name));
            let d = Wire {
                session: SessionView { files: b.session.files.remove(name), ..b.session },
                events: b.events.push(EventView::Deleted(name)),
                ..b
            }.with(ClientView::finish(ProductView::Deleted));
            lemma_takes(grown, d, files);
            let (after, follows) = PlanView::next(grown);
            let d1 = d.with((after.client, follows->Do_0));
            let (rounds, end) = choose|rounds: nat, end: Wire|
                {
                    &&& #[trigger] pursues(
                        after.plan,
                        d1,
                        rounds,
                        TurnView::Received(all),
                        end,
                    )
                    &&& end.action is Left
                    &&& end.session.files == without(d.session.files, haul.names.skip(k + 1))
                };
            assert(b1.leads_to(d) && rests(d));
            assert(pursues(
                PlanView::Deleting(haul, bytes),
                b1,
                rounds + 1,
                TurnView::Received(all),
                end,
            ));
            assert(pursues(next.plan, start, rounds + 2, TurnView::Received(all), end));
        } else {
            lemma_takes(grown, b, files);
            let (after, follows) = PlanView::next(grown);
            let b1 = b.with((after.client, follows->Do_0));
            let (rounds, end) = choose|rounds: nat, end: Wire|
                {
                    &&& #[trigger] pursues(
                        after.plan,
                        b1,
                        rounds,
                        TurnView::Received(all),
                        end,
                    )
                    &&& end.action is Left
                    &&& end.session.files == b.session.files
                };
            assert(pursues(next.plan, start, rounds + 1, TurnView::Received(all), end));
        }
    }
}

/// Receiving from a session: every file arrives, in the order of the names,
/// each whole and under its name. The directory is empty afterwards, or as
/// it was where files are left in place.
pub proof fn lemma_receive_takes_all(
    w: Wire,
    login: LoginView,
    server: Seq<char>,
    delete: bool,
    names: Seq<Seq<char>>,
)
    requires
        w.is_quiet(),
        is_one_line(login.user),
        is_one_line(login.password),
        lists(w.session.files, names),
        forall|i: int| 0 <= i < names.len() ==> is_listable(#[trigger] names[i]),
    ensures
        exists|rounds: nat, end: Wire|
            {
                &&& #[trigger] pursues(
                    PlanView::ToTake(
                        HaulView { server, delete, names: Seq::empty(), arrived: Seq::empty() },
                    ),
                    (Wire { replies: reply_bytes(220, "xmip ready"@), ..w }).with(
                        (ClientView::Greeting(login), RequestView::ReadReply),
                    ),
                    rounds,
                    TurnView::Received(fetched(server, w.session.files, names)),
                    end,
                )
                &&& end.action is Left
                &&& delete ==> end.session.files == Map::<Seq<char>, Seq<u8>>::empty()
                &&& !delete ==> end.session.files == w.session.files
            },
        fetched(server, w.session.files, names).len() == names.len(),
        forall|i: int|
            0 <= i < names.len() ==> {
                let arrived = #[trigger] fetched(server, w.session.files, names)[i];
                &&& arrived.bytes == w.session.files[names[i]]
                &&& arrived.origin_uri == "ftp://"@ + server + "/"@ + names[i]
            },
{
    let files = w.session.files;
    let empty = HaulView { server, delete, names: Seq::empty(), arrived: Seq::empty() };
    let full = HaulView { names, ..empty };
    let all = fetched(server, files, names);
    let start = Wire { replies: reply_bytes(220, "xmip ready"@), ..w }.with(
        (ClientView::Greeting(login), RequestView::ReadReply),
    );
    lemma_anyone_logs_in(w, login);
    let a = w.with(ClientView::finish(ProductView::Connected));
    let a1 = w.with(ClientView::begin(TransferView::List));
    lemma_names_come_over(w);
    lemma_one_listing(files, names, names_in(files));
    lemma_listing_reads_back(names);
    let b = Wire {
        session: SessionView { passive: false, ..w.session },
        listening: false,
        reached: false,
        ..w
    }.with(ClientView::finish(ProductView::Names(names)));
    assert forall|i: int, j: int| 0 <= i < j < names.len() implies #[trigger] names[i]
        != #[trigger] names[j] by {
        lemma_before_irreflexive(names[i]);
    }
    assert forall|i: int| 0 <= i < names.len() implies is_one_line(#[trigger] names[i])
        && files.contains_key(names[i]) by {
        assert(is_listable(names[i]));
        assert(names.contains(names[i]));
    }
    assert(full.arrived =~= all.take(0));
    lemma_takes(full, b, files);
    let (next, turn) = PlanView::next(full);
    let b1 = b.with((next.client, turn->Do_0));
    let (rounds, end) = choose|rounds: nat, end: Wire|
        {
            &&& #[trigger] pursues(next.plan, b1, rounds, TurnView::Received(all), end)
            &&& end.action is Left
            &&& end.session.files == if delete {
                without(files, names.skip(0))
            } else {
                files
            }
        };
    assert(names.skip(0) =~= names);
    if delete {
        assert forall|name: Seq<char>| !without(files, names).contains_key(name) by {
            lemma_without(files, names, name);
            assert(names.contains(name) <==> files.contains_key(name));
        }
        assert(without(files, names) =~= Map::<Seq<char>, Seq<u8>>::empty());
    }
    assert(a1.leads_to(b) && rests(b));
    assert(pursues(PlanView::Listing(empty), a1, rounds + 1, TurnView::Received(all), end));
    assert(start.leads_to(a) && rests(a));
    assert(a.with(ClientView::begin(TransferView::List)) == a1);
    assert(pursues(PlanView::ToTake(empty), start, rounds + 2, TurnView::Received(all), end));
}

/// The far end of a loopback keeps the file that is stored first, serves on,
/// and reports that file once the client has said goodbye.
pub proof fn lemma_far_end_reports_the_file(
    far: ListeningView,
    outcome: OutcomeView,
    later: ListeningView,
    goodbye: OutcomeView,
    arrived: ArrivedView,
)
    requires
        far.first is None,
        far.session.step(outcome).1 == ActionView::Happened(EventView::Stored(arrived)),
        later.first == far.step(outcome).0.first,
        later.session.step(goodbye).1 is Left,
    ensures
        far.step(outcome).1 is ReadLine,
        far.step(outcome).0.first == Some(arrived),
        later.step(goodbye).1 == ActionView::Happened(EventView::Stored(arrived)),
{
}

/// What lies between the store and the goodbye is done as the session wants
/// it done, and the file is kept.
pub proof fn lemma_far_end_serves_on(far: ListeningView, outcome: OutcomeView)
    requires
        !(far.session.step(outcome).1 is Happened),
        !(far.session.step(outcome).1 is Left),
    ensures
        far.step(outcome) == (
            ListeningView { session: far.session.step(outcome).0, ..far },
            far.session.step(outcome).1,
        ),
{
}

} // verus!
