//! The worker that owns a connection: it takes one command after the other, and answers each.

use vstd::prelude::*;

use crate::backend;
use crate::backend::{Answer, Command};
use crate::error;
use crate::error::{Error, Result};
use crate::transport;
use crate::transport::{AfcTransport, Exchange, Pending, Reply};

verus! {

/// A connection, and what its device is waited for, where a command is under way.
#[derive(Debug)]
pub struct Worker {
    pub transport: AfcTransport,
    pub pending: Option<Pending>,
}

/// What a worker hears.
#[derive(Debug)]
pub enum Event {
    /// The next command.
    Command(Command),
    /// What came of sending a packet and waiting for the device's.
    Reply(Result<Reply>),
    /// No more commands can come.
    Closed,
}

/// What a worker does next.
#[derive(Debug)]
pub enum Action {
    /// Send a packet to the device, and wait for its packet.
    Send(Vec<u8>),
    /// Answer the command that is under way, and wait for the next one.
    Answer(Result<Answer>),
    /// Drop the connection.
    Stop,
}

/// Where a worker stands: the number of its next packet, the directory of the device that it
/// shows, and what the device is waited for.
pub ghost struct Stand {
    pub number: u64,
    pub root: Seq<char>,
    pub pending: Option<transport::Await>,
}

/// What a worker hears.
pub ghost enum Input {
    Command(backend::Wish),
    Reply(std::result::Result<transport::Heard, error::Failure>),
    Closed,
}

/// What a worker does next.
pub ghost enum Output {
    Send(Seq<u8>),
    Answer(backend::Said),
    Stop,
}

impl View for Worker {
    type V = Stand;

    open spec fn view(&self) -> Stand {
        Stand {
            number: self.transport.packet_number,
            root: self.transport.root@,
            pending: match self.pending {
                Some(pending) => Some(pending@),
                None => None,
            },
        }
    }
}

impl View for Event {
    type V = Input;

    open spec fn view(&self) -> Input {
        match *self {
            Event::Command(command) => Input::Command(command@),
            Event::Reply(Ok(reply)) => Input::Reply(Ok(reply@)),
            Event::Reply(Err(e)) => Input::Reply(Err(error::failure_of(e))),
            Event::Closed => Input::Closed,
        }
    }
}

impl View for Action {
    type V = Output;

    open spec fn view(&self) -> Output {
        match *self {
            Action::Send(packet) => Output::Send(packet@),
            Action::Answer(outcome) => Output::Answer(backend::said(outcome)),
            Action::Stop => Output::Stop,
        }
    }
}

/// Whether something can be heard: a reply while one is waited for, which holds no more bytes than
/// remain to be read; anything else while no command is under way.
pub open spec fn takes(stand: Stand, input: Input) -> bool {
    match (stand.pending, input) {
        (Some(pending), Input::Reply(Ok(reply))) => transport::in_bounds(pending, reply),
        (Some(_), Input::Reply(Err(_))) => true,
        (None, Input::Command(_)) => true,
        (None, Input::Closed) => true,
        _ => false,
    }
}

/// What a worker does next, and where it stands afterwards.
pub open spec fn step(stand: Stand, input: Input) -> (Stand, Output) {
    let idle = Stand { pending: None, ..stand };
    match (stand.pending, input) {
        (None, Input::Command(wish)) => match transport::opening(wish, stand.root, None) {
            Some((operation, header_payload, pending)) => (
                Stand {
                    number: transport::next_number(stand.number),
                    root: stand.root,
                    pending: Some(pending),
                },
                Output::Send(
                    transport::packet(stand.number, operation, header_payload, Seq::empty()),
                ),
            ),
            None => (stand, Output::Stop),
        },
        (Some(pending), Input::Reply(Ok(reply))) => match transport::turn(
            stand.number,
            pending,
            reply,
        ) {
            transport::Turn::Send { packet, pending: next } => (
                Stand {
                    number: transport::next_number(stand.number),
                    root: stand.root,
                    pending: Some(next),
                },
                Output::Send(packet),
            ),
            transport::Turn::Finished(outcome) => (idle, Output::Answer(outcome)),
        },
        (_, Input::Reply(Err(failure))) => (idle, Output::Answer(backend::Said::Failed(failure))),
        _ => (stand, Output::Stop),
    }
}

impl Worker {
    /// What is reported of an attempt to connect, and the worker that serves the connection, where
    /// there is one.
    pub fn begin<Line>(connected: Result<(Line, AfcTransport)>) -> (r: (
        Result<()>,
        Option<(Line, Worker)>,
    ))
        ensures
            match connected {
                Ok((line, transport)) => {
                    &&& r.0 == Ok::<(), Error>(())
                    &&& r.1 == Some((line, Worker { transport, pending: None }))
                },
                Err(e) => r.0 == Err::<(), Error>(e) && r.1 is None,
            },
    {
        match connected {
            Ok((line, transport)) => (Ok(()), Some((line, Worker { transport, pending: None }))),
            Err(e) => (Err(e), None),
        }
    }

    /// Whether something can be heard.
    pub fn accepts(&self, event: &Event) -> (r: bool)
        ensures
            r == takes(self@, event@),
    {
        match (&self.pending, event) {
            (Some(pending), Event::Reply(Ok(reply))) => transport::fits(pending, reply),
            (Some(_), Event::Reply(Err(_))) => true,
            (None, Event::Command(_)) => true,
            (None, Event::Closed) => true,
            _ => false,
        }
    }

    /// Hears something, and says what to do next.
    pub fn on(&mut self, event: Event) -> (r: Action)
        requires
            takes(old(self)@, event@),
        ensures
            (final(self)@, r@) == step(old(self)@, event@),
    {
        match event {
            Event::Command(command) => match self.transport.start(command, None) {
                Some(request) => {
                    self.pending = Some(request.pending);
                    Action::Send(request.packet)
                },
                None => Action::Stop,
            },
            Event::Reply(heard) => {
                let mut pending: Option<Pending> = None;
                std::mem::swap(&mut pending, &mut self.pending);
                match (pending, heard) {
                    (Some(pending), Ok(reply)) => match self.transport.resume(pending, reply) {
                        Exchange::Send(request) => {
                            self.pending = Some(request.pending);
                            Action::Send(request.packet)
                        },
                        Exchange::Finished(outcome) => Action::Answer(outcome),
                    },
                    (_, Err(e)) => Action::Answer(Err(e)),
                    (None, Ok(_)) => Action::Stop,
                }
            },
            Event::Closed => Action::Stop,
        }
    }
}

/// How many more bytes an exchange can ask the device to transfer, and one where it has yet to set
/// the position.
pub open spec fn left_to_do(pending: Option<transport::Await>) -> nat {
    match pending {
        Some(transport::Await::SeekRead { size, .. }) => size + 1,
        Some(transport::Await::Read { remaining, .. }) => remaining,
        Some(transport::Await::SeekWrite { bytes, .. }) => bytes.len() + 1,
        Some(transport::Await::Write { bytes, sent, .. }) => if sent < bytes.len() {
            (bytes.len() - sent) as nat
        } else {
            0
        },
        _ => 0,
    }
}

/// What the command that is under way is answered, where the worker stands afterwards, and how
/// many replies were heard by then. `replies` is what comes of each packet, of all that are ever
/// sent, in order, and `heard` of them were heard before. `None` where a reply holds more bytes
/// than were asked for.
#[verifier::opaque]
pub open spec fn answered(
    stand: Stand,
    replies: spec_fn(nat) -> std::result::Result<transport::Heard, error::Failure>,
    heard: nat,
) -> Option<(backend::Said, Stand, nat)>
    decreases left_to_do(stand.pending),
{
    let input = Input::Reply(replies(heard));
    if !takes(stand, input) {
        None
    } else {
        match step(stand, input) {
            (next, Output::Answer(outcome)) => Some((outcome, next, heard + 1)),
            (next, Output::Send(_)) => answered(next, replies, heard + 1),
            (_, Output::Stop) => None,
        }
    }
}

/// The answers to the commands that wait for an idle worker, in the order in which they are given,
/// where the worker stands afterwards, and how many replies were heard by then. `None` where a
/// reply holds more bytes than were asked for.
#[verifier::opaque]
pub open spec fn session(
    stand: Stand,
    wishes: Seq<backend::Wish>,
    replies: spec_fn(nat) -> std::result::Result<transport::Heard, error::Failure>,
    heard: nat,
) -> Option<(Seq<backend::Said>, Stand, nat)>
    decreases wishes.len(),
{
    if wishes.len() == 0 {
        Some((Seq::empty(), stand, heard))
    } else {
        match step(stand, Input::Command(wishes[0])) {
            (asked, Output::Send(_)) => match answered(asked, replies, heard) {
                Some((outcome, next, count)) => match session(
                    next,
                    wishes.skip(1),
                    replies,
                    count,
                ) {
                    Some((more, last, total)) => Some((seq![outcome] + more, last, total)),
                    None => None,
                },
                None => None,
            },
            _ => Some((Seq::empty(), stand, heard)),
        }
    }
}

/// What is reported of an attempt to connect, and the answers to the commands that wait.
pub open spec fn service(
    connected: std::result::Result<Stand, error::Failure>,
    wishes: Seq<backend::Wish>,
    replies: spec_fn(nat) -> std::result::Result<transport::Heard, error::Failure>,
) -> (std::result::Result<(), error::Failure>, Option<Seq<backend::Said>>) {
    match connected {
        Ok(stand) => (
            Ok(()),
            match session(stand, wishes, replies, 0) {
                Some((answers, _, _)) => Some(answers),
                None => None,
            },
        ),
        Err(failure) => (Err(failure), Some(Seq::empty())),
    }
}

/// How many commands stand before the first that asks for the end of the connection.
pub open spec fn before_shutdown(wishes: Seq<backend::Wish>) -> nat
    decreases wishes.len(),
{
    if wishes.len() == 0 || wishes[0] is Shutdown {
        0
    } else {
        1 + before_shutdown(wishes.skip(1))
    }
}

proof fn lemma_answered(
    stand: Stand,
    wish: backend::Wish,
    replies: spec_fn(nat) -> std::result::Result<transport::Heard, error::Failure>,
    heard: nat,
)
    requires
        stand.pending matches Some(pending) && transport::leads_to(pending, wish),
    ensures
        answered(stand, replies, heard) matches Some((outcome, next, count)) ==> {
            &&& backend::fits(wish, outcome)
            &&& next.pending is None
            &&& next.root == stand.root
            &&& count > heard
        },
    decreases left_to_do(stand.pending),
{
    reveal(answered);
    let input = Input::Reply(replies(heard));
    if takes(stand, input) {
        if let Ok(reply) = replies(heard) {
            transport::law_requests_are_answered_in_kind(
                wish,
                stand.root,
                None,
                stand.number,
                stand.pending->0,
                reply,
            );
        }
        if let (next, Output::Send(_)) = step(stand, input) {
            lemma_answered(next, wish, replies, heard + 1);
        }
    }
}

/// Where a command leaves an idle worker before the device has replied.
pub open spec fn asked(idle: Stand, wish: backend::Wish) -> Stand {
    step(idle, Input::Command(wish)).0
}

proof fn lemma_session_begins(
    idle: Stand,
    wishes: Seq<backend::Wish>,
    replies: spec_fn(nat) -> std::result::Result<transport::Heard, error::Failure>,
    heard: nat,
)
    requires
        idle.pending is None,
    ensures
        session(idle, wishes, replies, heard) == (if wishes.len() == 0 || wishes[0] is Shutdown {
            Some((Seq::<backend::Said>::empty(), idle, heard))
        } else {
            match answered(asked(idle, wishes[0]), replies, heard) {
                Some((outcome, next, count)) => match session(
                    next,
                    wishes.skip(1),
                    replies,
                    count,
                ) {
                    Some((more, last, total)) => Some((seq![outcome] + more, last, total)),
                    None => None,
                },
                None => None,
            }
        }),
        wishes.len() > 0 && !(wishes[0] is Shutdown) ==> (answered(
            asked(idle, wishes[0]),
            replies,
            heard,
        ) matches Some((outcome, next, _)) ==> next.pending is None && backend::fits(
            wishes[0],
            outcome,
        )),
{
    reveal(session);
    if wishes.len() > 0 && !(wishes[0] is Shutdown) {
        let stand = asked(idle, wishes[0]);
        transport::law_requests_are_answered_in_kind(
            wishes[0],
            idle.root,
            None,
            idle.number,
            stand.pending->0,
            transport::done_reply(),
        );
        lemma_answered(stand, wishes[0], replies, heard);
    }
}

proof fn lemma_before_shutdown(wishes: Seq<backend::Wish>)
    ensures
        before_shutdown(wishes) <= wishes.len(),
        forall|i: int| 0 <= i < before_shutdown(wishes) ==> !(#[trigger] wishes[i] is Shutdown),
    decreases wishes.len(),
{
    if wishes.len() > 0 && !(wishes[0] is Shutdown) {
        lemma_before_shutdown(wishes.skip(1));
        assert forall|i: int| 0 <= i < before_shutdown(wishes) implies !(#[trigger] wishes[i]
            is Shutdown) by {
            if i > 0 {
                assert(wishes[i] == wishes.skip(1)[i - 1]);
            }
        }
    }
}

proof fn lemma_no_shutdown_counts_all(wishes: Seq<backend::Wish>)
    requires
        forall|i: int| 0 <= i < wishes.len() ==> !(#[trigger] wishes[i] is Shutdown),
    ensures
        before_shutdown(wishes) == wishes.len(),
    decreases wishes.len(),
{
    if wishes.len() > 0 {
        assert forall|i: int| 0 <= i < wishes.skip(1).len() implies !(#[trigger] wishes.skip(1)[i]
            is Shutdown) by {
            assert(wishes.skip(1)[i] == wishes[i + 1]);
        }
        lemma_no_shutdown_counts_all(wishes.skip(1));
    }
}

proof fn lemma_session_shape(
    idle: Stand,
    wishes: Seq<backend::Wish>,
    replies: spec_fn(nat) -> std::result::Result<transport::Heard, error::Failure>,
    heard: nat,
)
    requires
        idle.pending is None,
    ensures
        session(idle, wishes, replies, heard) matches Some((answers, last, _)) ==> answers.len()
            == before_shutdown(wishes) && last.pending is None,
    decreases wishes.len(),
{
    lemma_session_begins(idle, wishes, replies, heard);
    if wishes.len() > 0 && !(wishes[0] is Shutdown) {
        if let Some((_, next, count)) = answered(asked(idle, wishes[0]), replies, heard) {
            lemma_session_shape(next, wishes.skip(1), replies, count);
        }
    }
}

proof fn lemma_session_split(
    idle: Stand,
    first: Seq<backend::Wish>,
    second: Seq<backend::Wish>,
    replies: spec_fn(nat) -> std::result::Result<transport::Heard, error::Failure>,
    heard: nat,
)
    requires
        idle.pending is None,
        forall|i: int| 0 <= i < first.len() ==> !(#[trigger] first[i] is Shutdown),
    ensures
        session(idle, first + second, replies, heard) == (match session(
            idle,
            first,
            replies,
            heard,
        ) {
            Some((answers, next, count)) => match session(next, second, replies, count) {
                Some((more, last, total)) => Some((answers + more, last, total)),
                None => None,
            },
            None => None,
        }),
    decreases first.len(),
{
    let whole = first + second;
    lemma_session_begins(idle, first, replies, heard);
    if first.len() == 0 {
        assert(whole =~= second);
        if let Some((more, _, _)) = session(idle, second, replies, heard) {
            assert(Seq::<backend::Said>::empty() + more =~= more);
        }
    } else {
        lemma_session_begins(idle, whole, replies, heard);
        assert(whole[0] == first[0]);
        assert(whole.skip(1) =~= first.skip(1) + second);
        if let Some((outcome, next, count)) = answered(asked(idle, first[0]), replies, heard) {
            assert forall|i: int| 0 <= i < first.skip(1).len() implies !(#[trigger] first.skip(
                1,
            )[i] is Shutdown) by {
                assert(first.skip(1)[i] == first[i + 1]);
            }
            lemma_session_split(next, first.skip(1), second, replies, count);
            if let Some((answers, between, used)) = session(
                next,
                first.skip(1),
                replies,
                count,
            ) {
                if let Some((more, _, _)) = session(between, second, replies, used) {
                    assert(seq![outcome] + (answers + more) =~= seq![outcome] + answers + more);
                }
            }
        }
    }
}

/// Commands are answered in order: each that comes before the end of the connection is asked for
/// has one answer and no other has any; the answers to the commands before it are those that they
/// would get without it; its own is what the exchange that it starts behind theirs ends with, and
/// is of the kind that it asks for.
pub proof fn law_commands_are_answered_in_order(
    idle: Stand,
    wishes: Seq<backend::Wish>,
    replies: spec_fn(nat) -> std::result::Result<transport::Heard, error::Failure>,
    heard: nat,
    i: int,
)
    requires
        idle.pending is None,
    ensures
        session(idle, wishes, replies, heard) matches Some((answers, _, _)) ==> {
            &&& answers.len() == before_shutdown(wishes)
            &&& 0 <= i < answers.len() ==> {
                &&& session(idle, wishes.take(i), replies, heard) matches Some(
                    (earlier, stand, used),
                )
                &&& earlier == answers.take(i)
                &&& stand.pending is None
                &&& answered(asked(stand, wishes[i]), replies, used) matches Some((outcome, _, _))
                &&& outcome == answers[i]
                &&& backend::fits(wishes[i], answers[i])
            }
        },
{
    lemma_before_shutdown(wishes);
    lemma_session_shape(idle, wishes, replies, heard);
    if 0 <= i < before_shutdown(wishes) {
        let first = wishes.take(i);
        let rest = wishes.skip(i);
        assert(first + rest =~= wishes);
        assert forall|j: int| 0 <= j < first.len() implies !(#[trigger] first[j] is Shutdown) by {
            assert(first[j] == wishes[j]);
        }
        assert(rest[0] == wishes[i]);
        lemma_no_shutdown_counts_all(first);
        lemma_session_split(idle, first, rest, replies, heard);
        lemma_session_shape(idle, first, replies, heard);
        if let Some((earlier, stand, used)) = session(idle, first, replies, heard) {
            lemma_session_begins(stand, rest, replies, used);
            if let Some((more, _, _)) = session(stand, rest, replies, used) {
                assert((earlier + more).take(i) =~= earlier);
            }
        }
    }
}

/// Nothing that comes behind the command that asks for the end of the connection is answered, or
/// sent to the device.
pub proof fn law_nothing_follows_shutdown(
    idle: Stand,
    wishes: Seq<backend::Wish>,
    more: Seq<backend::Wish>,
    replies: spec_fn(nat) -> std::result::Result<transport::Heard, error::Failure>,
    heard: nat,
)
    requires
        idle.pending is None,
        forall|i: int| 0 <= i < wishes.len() ==> !(#[trigger] wishes[i] is Shutdown),
    ensures
        session(idle, wishes + (seq![backend::Wish::Shutdown] + more), replies, heard) == session(
            idle,
            wishes,
            replies,
            heard,
        ),
{
    let end = seq![backend::Wish::Shutdown] + more;
    lemma_session_split(idle, wishes, end, replies, heard);
    lemma_session_shape(idle, wishes, replies, heard);
    if let Some((answers, stand, used)) = session(idle, wishes, replies, heard) {
        lemma_session_begins(stand, end, replies, used);
        assert(answers + Seq::<backend::Said>::empty() =~= answers);
    }
}

/// An attempt to connect is reported once: with success where there is a connection; else with the
/// failure, and then no command is answered.
pub proof fn law_no_connection_answers_nothing(
    connected: std::result::Result<Stand, error::Failure>,
    wishes: Seq<backend::Wish>,
    replies: spec_fn(nat) -> std::result::Result<transport::Heard, error::Failure>,
)
    ensures
        match connected {
            Ok(stand) => service(connected, wishes, replies).0 is Ok,
            Err(failure) => service(connected, wishes, replies) == (
                Err::<(), error::Failure>(failure),
                Some(Seq::<backend::Said>::empty()),
            ),
        },
{
}

/// A connection is reported as it came about: a worker serves it, with nothing under way, where there
/// is one, and the failure is reported where there is none.
pub proof fn law_connections_are_reported<Line>(
    line: Line,
    end: AfcTransport,
    served: (Result<()>, Option<(Line, Worker)>),
    error: Error,
    refused: (Result<()>, Option<(Line, Worker)>),
)
    requires
        call_ensures(Worker::begin::<Line>, (Ok((line, end)),), served),
        call_ensures(Worker::begin::<Line>, (Err(error),), refused),
    ensures
        served.0 is Ok,
        served.1 matches Some(both) && both.0 == line && both.1.transport == end
            && both.1.pending is None,
        refused.0 matches Err(e) && e == error,
        refused.1 is None,
{
}

/// A worker begins a command with the first packet of it, as the connection makes it, and ends where
/// the end is asked for or no more commands can come, without a packet.
pub proof fn law_commands_begin_with_their_packet(
    worker: &mut Worker,
    command: Command,
    begun: Action,
    closing: &mut Worker,
    closed: Action,
    end: &mut AfcTransport,
    request: Option<transport::Request>,
)
    requires
        old(worker).pending is None,
        call_ensures(Worker::on, (worker, Event::Command(command)), begun),
        *old(end) == old(worker).transport,
        call_ensures(AfcTransport::start, (end, command, None), request),
        old(closing).pending is None,
        call_ensures(Worker::on, (closing, Event::Closed), closed),
    ensures
        match request {
            Some(first) => begun matches Action::Send(packet) && packet@ == first.packet@ && (
            final(worker).pending matches Some(pending) && pending@ == first.pending@)
                && final(worker).transport.packet_number == final(end).packet_number,
            None => begun is Stop && final(worker).pending is None,
        },
        request is None <==> command is Shutdown,
        closed is Stop,
        final(worker).transport.root@ == old(worker).transport.root@,
{
}

/// A worker goes on with a command as its exchange does, and answers it with what the exchange ends
/// with; a line that fails answers the command with its own error. Then it waits for the next
/// command.
pub proof fn law_commands_end_with_their_outcome(
    worker: &mut Worker,
    pending: Pending,
    reply: Reply,
    action: Action,
    end: &mut AfcTransport,
    exchange: Exchange,
    broken: &mut Worker,
    error: Error,
    told: Action,
)
    requires
        old(worker).pending == Some(pending),
        transport::in_bounds(pending@, reply@),
        call_ensures(Worker::on, (worker, Event::Reply(Ok(reply))), action),
        *old(end) == old(worker).transport,
        call_ensures(AfcTransport::resume, (end, pending, reply), exchange),
        old(broken).pending is Some,
        call_ensures(Worker::on, (broken, Event::Reply(Err(error))), told),
    ensures
        match exchange {
            Exchange::Send(request) => action matches Action::Send(packet) && packet@
                == request.packet@ && (final(worker).pending matches Some(next) && next@
                == request.pending@) && final(worker).transport.packet_number
                == final(end).packet_number,
            Exchange::Finished(outcome) => action matches Action::Answer(answer) && backend::said(
                answer,
            ) == backend::said(outcome) && final(worker).pending is None,
        },
        told matches Action::Answer(Err(e)) && error::failure_of(e) == error::failure_of(error),
        final(broken).pending is None,
        final(broken).transport.packet_number == old(broken).transport.packet_number,
{
}

/// A worker hears a reply only while it waits for one, and a command only while it does not; a reply
/// that brings more bytes than were asked for is not heard.
pub proof fn law_workers_hear_in_turn(
    idle: Worker,
    busy: Worker,
    event: Event,
    by_idle: bool,
    by_busy: bool,
)
    requires
        idle.pending is None,
        busy.pending is Some,
        call_ensures(Worker::accepts, (&idle, &event), by_idle),
        call_ensures(Worker::accepts, (&busy, &event), by_busy),
    ensures
        by_idle <==> event is Command || event is Closed,
        event is Command || event is Closed ==> !by_busy,
        event matches Event::Reply(Err(_)) ==> by_busy,
        event matches Event::Reply(Ok(reply)) ==> match busy.pending {
            Some(Pending::Read { remaining, .. }) => reply.payload@.len() <= remaining ==> by_busy,
            _ => by_busy,
        },
        event matches Event::Reply(Ok(reply)) ==> match busy.pending {
            Some(Pending::Read { remaining, .. }) => reply.payload@.len() > remaining
                && reply.operation != 1 ==> !by_busy,
            _ => true,
        },
{
}

} // verus!
