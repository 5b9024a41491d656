use ifuse_rs::backend::{Answer, Command, Mtime};
use ifuse_rs::error::{AfcError, DeviceError, Error};
use ifuse_rs::transport::{
    fits, AfcFopenMode, AfcTransport, Exchange, LinkType, Pending, Reply, MAX_TRANSFER,
};

fn word(value: u64) -> Vec<u8> {
    value.to_le_bytes().to_vec()
}

fn packet(number: u64, operation: u64, header: &[u8], payload: &[u8]) -> Vec<u8> {
    let mut bytes = b"CFA6LPAA".to_vec();
    bytes.extend(word(40 + header.len() as u64 + payload.len() as u64));
    bytes.extend(word(40 + header.len() as u64));
    bytes.extend(word(number));
    bytes.extend(word(operation));
    bytes.extend(header);
    bytes.extend(payload);
    bytes
}

fn status(code: u64) -> Reply {
    Reply { operation: 1, header_payload: word(code), payload: Vec::new() }
}

fn data(payload: &[u8]) -> Reply {
    Reply { operation: 2, header_payload: Vec::new(), payload: payload.to_vec() }
}

fn started(command: Command) -> Vec<u8> {
    AfcTransport::new("/Documents").start(command, Some(9)).unwrap().packet
}

fn joined(parts: &[&[u8]]) -> Vec<u8> {
    parts.concat()
}

#[test]
fn commands_become_packets() {
    let a = b"/Documents/a\0";
    let b = b"/Documents/b\0";
    let cases = [
        (Command::DeviceInfo, packet(0, 0xb, b"", b"")),
        (Command::FileInfo("/a".to_string()), packet(0, 0xa, a, b"")),
        (Command::ListDir("/".to_string()), packet(0, 3, b"/Documents\0", b"")),
        (Command::Mkdir("/a".to_string()), packet(0, 9, a, b"")),
        (Command::Remove("/a".to_string()), packet(0, 8, a, b"")),
        (
            Command::Rename("/a".to_string(), "/b".to_string()),
            packet(0, 0x18, &joined(&[a, b]), b""),
        ),
        (
            Command::Link("/a".to_string(), "/b".to_string(), LinkType::Symlink),
            packet(0, 0x1c, &joined(&[&word(2), a, b]), b""),
        ),
        (
            Command::Link("/a".to_string(), "/b".to_string(), LinkType::Hardlink),
            packet(0, 0x1c, &joined(&[&word(1), a, b]), b""),
        ),
        (Command::Close(7), packet(0, 0x14, &word(7), b"")),
        (
            Command::Truncate("/a".to_string(), 5),
            packet(0, 7, &joined(&[&word(5), a]), b""),
        ),
        (
            Command::TruncateHandle(7, 5),
            packet(0, 0x15, &joined(&[&word(7), &word(5)]), b""),
        ),
        (
            Command::SetMtime("/a".to_string(), Mtime::At(Some(33))),
            packet(0, 0x1e, &joined(&[&word(33), a]), b""),
        ),
        (
            Command::SetMtime("/a".to_string(), Mtime::Now),
            packet(0, 0x1e, &joined(&[&word(9), a]), b""),
        ),
        (
            Command::SetMtime("/a".to_string(), Mtime::At(None)),
            packet(0, 0x1e, &joined(&[&word(0), a]), b""),
        ),
        (
            Command::SetMtime("/a".to_string(), Mtime::At(Some(u128::MAX))),
            packet(0, 0x1e, &joined(&[&word(u64::MAX), a]), b""),
        ),
        (
            Command::Read(7, 5, 3),
            packet(0, 0x11, &joined(&[&word(7), &word(0), &word(5)]), b""),
        ),
        (
            Command::Write(7, 5, vec![1]),
            packet(0, 0x11, &joined(&[&word(7), &word(0), &word(5)]), b""),
        ),
    ];
    for (command, bytes) in cases {
        assert_eq!(started(command), bytes);
    }
}

#[test]
fn modes_have_numbers() {
    let modes = [
        AfcFopenMode::RdOnly,
        AfcFopenMode::Rw,
        AfcFopenMode::WrOnly,
        AfcFopenMode::Wr,
        AfcFopenMode::Append,
        AfcFopenMode::RdAppend,
    ];
    for (index, mode) in modes.into_iter().enumerate() {
        let header = joined(&[&word(index as u64 + 1), b"/Documents/a\0"]);
        assert_eq!(started(Command::Open("/a".to_string(), mode)), packet(0, 0xd, &header, b""));
    }
}

#[test]
fn packets_are_counted() {
    let mut transport = AfcTransport::new("/");
    assert_eq!(transport.mkdir("/a").packet, packet(0, 9, b"/a\0", b""));
    assert_eq!(transport.mkdir("/a").packet, packet(1, 9, b"/a\0", b""));
    transport.packet_number = u64::MAX;
    assert_eq!(transport.close(1).packet, packet(u64::MAX, 0x14, &word(1), b""));
    assert_eq!(transport.packet_number, 0);
    assert!(transport.start(Command::Shutdown, None).is_none());
    assert_eq!(transport.packet_number, 0);
}

#[test]
fn paths_lie_below_the_root() {
    let whole = AfcTransport::new("/");
    assert_eq!(whole.path("/a/b"), "/a/b");
    assert_eq!(whole.path("a"), "/a");
    assert_eq!(whole.path(""), "/");
    let part = AfcTransport::new("/Documents");
    assert_eq!(part.path("/"), "/Documents");
    assert_eq!(part.path(""), "/Documents");
    assert_eq!(part.path("/a"), "/Documents/a");
    assert_eq!(AfcTransport::new("/x//".to_string()).path("/a"), "/x/a");
}

fn finished(exchange: Exchange) -> Result<Answer, Error> {
    match exchange {
        Exchange::Finished(outcome) => outcome,
        Exchange::Send(request) => panic!("unexpected {:?}", request),
    }
}

fn sent(exchange: Exchange) -> (Vec<u8>, Pending) {
    match exchange {
        Exchange::Send(request) => (request.packet, request.pending),
        Exchange::Finished(outcome) => panic!("unexpected {:?}", outcome),
    }
}

#[test]
fn refusals_end_an_exchange() {
    let mut transport = AfcTransport::new("/");
    let outcome = finished(transport.resume(Pending::Names, status(8)));
    assert!(matches!(
        outcome,
        Err(Error::Device(DeviceError::Afc(AfcError::ObjectNotFound)))
    ));
    let outcome = finished(transport.resume(Pending::Handle, status(999)));
    assert!(matches!(
        outcome,
        Err(Error::Device(DeviceError::Afc(AfcError::UnknownError)))
    ));
    let silent = Reply { operation: 1, header_payload: vec![0; 7], payload: Vec::new() };
    match finished(transport.resume(Pending::Done, silent)) {
        Err(Error::InvalidAfcResponse(words)) => {
            assert_eq!(words, "status packet has no error code")
        }
        other => panic!("unexpected {:?}", other),
    }
}

#[test]
fn answers_are_read() {
    let mut transport = AfcTransport::new("/");
    assert!(matches!(finished(transport.resume(Pending::Done, status(0))), Ok(Answer::Done)));
    match finished(transport.resume(Pending::Names, data(b".\0..\0a\0"))) {
        Ok(Answer::Names(names)) => assert_eq!(names, [".", "..", "a"]),
        other => panic!("unexpected {:?}", other),
    }
    let opened = Reply { operation: 0xe, header_payload: word(77), payload: Vec::new() };
    assert!(matches!(
        finished(transport.resume(Pending::Handle, opened)),
        Ok(Answer::Handle(77))
    ));
    let unopened = Reply { operation: 0xe, header_payload: vec![1], payload: Vec::new() };
    match finished(transport.resume(Pending::Handle, unopened)) {
        Err(Error::InvalidAfcResponse(words)) => {
            assert_eq!(words, "file-open response has no descriptor")
        }
        other => panic!("unexpected {:?}", other),
    }
}

#[test]
fn every_status_is_known() {
    let mut transport = AfcTransport::new("/");
    for code in (1..=23).chain(30..=36) {
        match finished(transport.resume(Pending::Done, status(code))) {
            Err(Error::Device(DeviceError::Afc(AfcError::UnknownError))) => assert_eq!(code, 1),
            Err(Error::Device(DeviceError::Afc(AfcError::Success))) => panic!("success"),
            Err(Error::Device(DeviceError::Afc(_))) => assert_ne!(code, 1),
            other => panic!("unexpected {:?}", other),
        }
    }
    assert_eq!(AfcError::from_code(33), AfcError::DirNotEmpty);
    assert_eq!(AfcError::from_code(24), AfcError::UnknownError);
}

/// Reads from a device whose file is `file`, and counts the packets that ask for bytes.
fn read_all(file: &[u8], size: u32) -> (Vec<u8>, usize) {
    let mut transport = AfcTransport::new("/");
    let request = transport.read(3, 0, size);
    let mut exchange = transport.resume(request.pending, status(0));
    let mut at = 0;
    let mut packets = 0;
    loop {
        match exchange {
            Exchange::Finished(Ok(Answer::Data(bytes))) => return (bytes, packets),
            Exchange::Finished(other) => panic!("unexpected {:?}", other),
            Exchange::Send(request) => {
                packets += 1;
                let amount = match &request.pending {
                    Pending::Read { amount, .. } => *amount,
                    other => panic!("unexpected {:?}", other),
                };
                assert!(amount <= MAX_TRANSFER);
                let header = joined(&[&word(3), &word(amount as u64)]);
                assert_eq!(request.packet, packet(packets as u64, 0xf, &header, b""));
                let end = file.len().min(at + amount);
                let reply = data(&file[at..end]);
                at = end;
                assert!(fits(&request.pending, &reply));
                exchange = transport.resume(request.pending, reply);
            }
        }
    }
}

#[test]
fn reads_serve_the_file() {
    let file: Vec<u8> = (0..MAX_TRANSFER * 2 + 10).map(|i| (i % 251) as u8).collect();
    let (bytes, packets) = read_all(&file, (MAX_TRANSFER * 2 + 5) as u32);
    assert_eq!(bytes, &file[..MAX_TRANSFER * 2 + 5]);
    assert_eq!(packets, 3);
    let (bytes, packets) = read_all(&file[..100], 1000);
    assert_eq!(bytes, &file[..100]);
    assert_eq!(packets, 1);
    let (bytes, packets) = read_all(&file[..MAX_TRANSFER], (MAX_TRANSFER * 2) as u32);
    assert_eq!(bytes, &file[..MAX_TRANSFER]);
    assert_eq!(packets, 2);
    let (bytes, packets) = read_all(&file, 0);
    assert!(bytes.is_empty());
    assert_eq!(packets, 0);
}

#[test]
fn too_much_data_does_not_fit() {
    let pending = Pending::Read { handle: 1, amount: 2, remaining: 2, output: Vec::new() };
    assert!(fits(&pending, &data(b"ab")));
    assert!(!fits(&pending, &data(b"abc")));
    let mut refusal = status(4);
    refusal.payload = b"abc".to_vec();
    assert!(fits(&pending, &refusal));
    assert!(fits(&Pending::Names, &data(b"abc")));
}

#[test]
fn writes_send_everything_once() {
    let bytes: Vec<u8> = (0..MAX_TRANSFER + 3).map(|i| (i % 241) as u8).collect();
    let mut transport = AfcTransport::new("/");
    let request = transport.write(4, 0, bytes.clone());
    let (first, pending) = sent(transport.resume(request.pending, status(0)));
    assert_eq!(first, packet(1, 0x10, &word(4), &bytes[..MAX_TRANSFER]));
    let (second, pending) = sent(transport.resume(pending, status(0)));
    assert_eq!(second, packet(2, 0x10, &word(4), &bytes[MAX_TRANSFER..]));
    match finished(transport.resume(pending, status(0))) {
        Ok(Answer::Count(count)) => assert_eq!(count as usize, MAX_TRANSFER + 3),
        other => panic!("unexpected {:?}", other),
    }
    let request = transport.write(4, 0, Vec::new());
    assert!(matches!(
        finished(transport.resume(request.pending, status(0))),
        Ok(Answer::Count(0))
    ));
}

#[test]
fn a_refused_write_stops() {
    let mut transport = AfcTransport::new("/");
    let request = transport.write(4, 0, vec![0; MAX_TRANSFER * 2]);
    let (_, pending) = sent(transport.resume(request.pending, status(0)));
    assert!(matches!(
        finished(transport.resume(pending, status(18))),
        Err(Error::Device(DeviceError::Afc(AfcError::NoSpaceLeft)))
    ));
}
