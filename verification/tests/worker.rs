use ifuse_rs::backend::{Answer, Command, Mtime};
use ifuse_rs::error::{AfcError, DeviceError, Error, Result};
use ifuse_rs::transport::{AfcFopenMode, AfcTransport, Reply};
use ifuse_rs::worker::{Action, Event, Worker};

fn status(code: u64) -> Result<Reply> {
    Ok(Reply { operation: 1, header_payload: code.to_le_bytes().to_vec(), payload: Vec::new() })
}

fn data(payload: &[u8]) -> Result<Reply> {
    Ok(Reply { operation: 2, header_payload: Vec::new(), payload: payload.to_vec() })
}

fn handle(number: u64) -> Result<Reply> {
    Ok(Reply { operation: 14, header_payload: number.to_le_bytes().to_vec(), payload: Vec::new() })
}

fn worker() -> Worker {
    let (report, connection) = Worker::begin(Ok(("line", AfcTransport::new("/"))));
    assert!(report.is_ok());
    let (line, worker) = connection.unwrap();
    assert_eq!(line, "line");
    worker
}

/// Serves commands from a list of replies; gives the answers, the numbers of the packets and of the
/// operations that were sent, and how many replies are left.
fn served(
    commands: Vec<Command>,
    replies: Vec<Result<Reply>>,
) -> (Vec<Result<Answer>>, Vec<(u64, u64)>, usize) {
    let mut worker = worker();
    let mut commands = commands.into_iter();
    let mut replies = replies.into_iter();
    let mut answers = Vec::new();
    let mut sent = Vec::new();
    let mut event = commands.next().map_or(Event::Closed, Event::Command);
    loop {
        assert!(worker.accepts(&event));
        event = match worker.on(event) {
            Action::Send(packet) => {
                let number = |at: usize| {
                    let mut word = [0; 8];
                    word.copy_from_slice(&packet[at..at + 8]);
                    u64::from_le_bytes(word)
                };
                sent.push((number(24), number(32)));
                Event::Reply(replies.next().unwrap())
            }
            Action::Answer(outcome) => {
                answers.push(outcome);
                commands.next().map_or(Event::Closed, Event::Command)
            }
            Action::Stop => return (answers, sent, replies.len()),
        };
    }
}

#[test]
fn commands_are_answered_in_order() {
    let (answers, sent, left) = served(
        vec![
            Command::ListDir("/".to_string()),
            Command::Open("/a".to_string(), AfcFopenMode::RdOnly),
            Command::Read(7, 0, 3),
            Command::Mkdir("/b".to_string()),
            Command::Remove("/c".to_string()),
        ],
        vec![data(b"a\0"), handle(7), status(0), data(b"xyz"), status(8), status(0)],
    );
    assert_eq!(answers.len(), 5);
    assert!(matches!(&answers[0], Ok(Answer::Names(names)) if *names == ["a"]));
    assert!(matches!(&answers[1], Ok(Answer::Handle(7))));
    assert!(matches!(&answers[2], Ok(Answer::Data(bytes)) if bytes == b"xyz"));
    assert!(matches!(
        &answers[3],
        Err(Error::Device(DeviceError::Afc(AfcError::ObjectNotFound)))
    ));
    assert!(matches!(&answers[4], Ok(Answer::Done)));
    assert_eq!(sent, [(0, 3), (1, 0xd), (2, 0x11), (3, 0xf), (4, 9), (5, 8)]);
    assert_eq!(left, 0);
}

#[test]
fn nothing_follows_shutdown() {
    let (answers, sent, left) = served(
        vec![
            Command::Close(1),
            Command::Shutdown,
            Command::Close(2),
            Command::Shutdown,
            Command::Close(3),
        ],
        vec![status(0), status(0), status(0)],
    );
    assert_eq!(answers.len(), 1);
    assert!(matches!(&answers[0], Ok(Answer::Done)));
    assert_eq!(sent, [(0, 0x14)]);
    assert_eq!(left, 2);
    let (answers, sent, _) = served(vec![Command::Shutdown, Command::Close(1)], Vec::new());
    assert!(answers.is_empty() && sent.is_empty());
    let (answers, sent, _) = served(Vec::new(), Vec::new());
    assert!(answers.is_empty() && sent.is_empty());
}

#[test]
fn failed_lines_answer_the_command_only() {
    let (answers, sent, left) = served(
        vec![Command::Read(7, 0, 9), Command::Close(7)],
        vec![status(0), Err(Error::Device(DeviceError::Timeout)), status(0)],
    );
    assert_eq!(answers.len(), 2);
    assert!(matches!(&answers[0], Err(Error::Device(DeviceError::Timeout))));
    assert!(matches!(&answers[1], Ok(Answer::Done)));
    assert_eq!(sent, [(0, 0x11), (1, 0xf), (2, 0x14)]);
    assert_eq!(left, 0);
}

#[test]
fn failed_connections_have_no_worker() {
    let (report, connection) = Worker::begin::<()>(Err(Error::DeviceNotFound));
    assert!(matches!(report, Err(Error::DeviceNotFound)));
    assert!(connection.is_none());
}

#[test]
fn workers_hear_in_turn() {
    let mut worker = worker();
    assert!(!worker.accepts(&Event::Reply(status(0))));
    assert!(worker.accepts(&Event::Closed));
    assert!(worker.accepts(&Event::Command(Command::DeviceInfo)));
    assert!(matches!(worker.on(Event::Command(Command::Read(1, 0, 2))), Action::Send(_)));
    assert!(!worker.accepts(&Event::Closed));
    assert!(!worker.accepts(&Event::Command(Command::DeviceInfo)));
    assert!(matches!(worker.on(Event::Reply(status(0))), Action::Send(_)));
    assert!(worker.accepts(&Event::Reply(data(b"ab"))));
    assert!(!worker.accepts(&Event::Reply(data(b"abc"))));
    assert!(worker.accepts(&Event::Reply(Err(Error::BackendStopped))));
}

#[test]
fn times_are_those_of_the_request() {
    let timed = Command::SetMtime("/a".to_string(), Mtime::Now).at(Some(5));
    assert!(matches!(timed, Command::SetMtime(path, Mtime::At(Some(5))) if path == "/a"));
    let timed = Command::SetMtime("/a".to_string(), Mtime::At(Some(3))).at(Some(5));
    assert!(matches!(timed, Command::SetMtime(_, Mtime::At(Some(3)))));
    let huge = Command::SetMtime("/a".to_string(), Mtime::Now).at(Some(u128::MAX));
    match worker().on(Event::Command(huge)) {
        Action::Send(packet) => assert_eq!(&packet[40..48], u64::MAX.to_le_bytes()),
        other => panic!("unexpected {:?}", other),
    }
    let early = Command::SetMtime("/a".to_string(), Mtime::At(None)).at(Some(5));
    match worker().on(Event::Command(early)) {
        Action::Send(packet) => assert_eq!(&packet[40..48], [0; 8]),
        other => panic!("unexpected {:?}", other),
    }
    assert!(matches!(Command::Close(4).at(None), Command::Close(4)));
}
