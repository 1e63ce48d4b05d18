use object_stream::frame::{decode_len, encode_len, frame, split_frame};
use object_stream::{ByteStream, ChannelError, Decode, Encode, MemStream, ObjectStream};
use serde_json::Value;

#[derive(Clone, Debug, PartialEq, Eq)]
enum Salution {
    Hello(u64),
    Suppp(Sup),
}

#[derive(Clone, Debug, PartialEq, Eq)]
struct Sup {
    id: u64,
    name: String,
}

fn to_json(s: &Salution) -> Value {
    let mut m = serde_json::Map::new();
    match s {
        Salution::Hello(n) => {
            m.insert("variant".to_string(), Value::from("Hello"));
            m.insert("fields".to_string(), Value::Array(vec![Value::from(*n)]));
        }
        Salution::Suppp(sup) => {
            let mut f = serde_json::Map::new();
            f.insert("id".to_string(), Value::from(sup.id));
            f.insert("name".to_string(), Value::from(sup.name.clone()));
            m.insert("variant".to_string(), Value::from("Suppp"));
            m.insert("fields".to_string(), Value::Array(vec![Value::Object(f)]));
        }
    }
    Value::Object(m)
}

fn from_json(v: &Value) -> Option<Salution> {
    let m = v.as_object()?;
    let field = m.get("fields")?.as_array()?.first()?;
    match m.get("variant")?.as_str()? {
        "Hello" => Some(Salution::Hello(field.as_u64()?)),
        "Suppp" => {
            let f = field.as_object()?;
            Some(Salution::Suppp(Sup {
                id: f.get("id")?.as_u64()?,
                name: f.get("name")?.as_str()?.to_string(),
            }))
        }
        _ => None,
    }
}

impl Encode for Salution {
    fn encode(&self) -> Option<Vec<u8>> {
        serde_json::to_vec(&to_json(self)).ok()
    }
}

impl Decode for Salution {
    fn decode(bytes: &[u8]) -> Option<Self> {
        let v: Value = serde_json::from_slice(bytes).ok()?;
        from_json(&v)
    }
}

/// A value the codec refuses to encode.
struct Unencodable;

impl Encode for Unencodable {
    fn encode(&self) -> Option<Vec<u8>> {
        None
    }
}

/// A stream whose every write fails.
struct BrokenPipe;

impl ByteStream for BrokenPipe {
    fn write_all(&mut self, _bytes: &[u8]) -> Result<(), ()> {
        Err(())
    }

    fn flush(&mut self) -> Result<(), ()> {
        Err(())
    }

    fn read_exact(&mut self, _n: usize) -> Result<Vec<u8>, ()> {
        Err(())
    }
}

fn frame_bytes(payload: &[u8]) -> Vec<u8> {
    frame(payload).unwrap()
}

#[test]
fn test() {
    let s1 = Salution::Hello(10);
    let s2 = Salution::Suppp(Sup { id: 9, name: "oh yay".to_string() });

    let mut stream = ObjectStream::new(MemStream::new());
    stream.send::<Salution>(s1.clone()).unwrap();
    stream.send::<Salution>(s2.clone()).unwrap();
    let s1_recv = stream.recv::<Salution>().unwrap();
    let s2_recv = stream.recv::<Salution>().unwrap();

    assert!(s1 == s1_recv);
    assert!(s2 == s2_recv);
    assert!(stream.get_ref().unread().is_empty());
}

#[test]
fn length_prefix_is_little_endian() {
    assert_eq!(encode_len(0x0102_0304), vec![4, 3, 2, 1]);
    assert_eq!(encode_len(0), vec![0, 0, 0, 0]);
    assert_eq!(encode_len(u32::MAX), vec![255, 255, 255, 255]);
    assert_eq!(decode_len(&[4, 3, 2, 1]), 0x0102_0304);
    assert_eq!(decode_len(&[255, 255, 255, 255]), u32::MAX);
    assert_eq!(decode_len(&[0, 1, 0, 0]), 256);
}

#[test]
fn frame_is_prefix_then_payload() {
    assert_eq!(frame(b"abc").unwrap(), vec![3, 0, 0, 0, b'a', b'b', b'c']);
    assert_eq!(frame(&[]).unwrap(), vec![0, 0, 0, 0]);
}

#[test]
fn sent_frame_is_on_the_wire() {
    let mut stream = ObjectStream::new(MemStream::new());
    stream.send_payload(b"hi").unwrap();
    assert_eq!(stream.get_ref().unread(), &[2, 0, 0, 0, b'h', b'i'][..]);
    let s = Salution::Hello(10);
    stream.send(s.clone()).unwrap();
    let json = s.encode().unwrap();
    let mut expected = vec![2, 0, 0, 0, b'h', b'i'];
    expected.extend_from_slice(&(json.len() as u32).to_le_bytes());
    expected.extend_from_slice(&json);
    assert_eq!(stream.into_inner().unread(), &expected[..]);
}

#[test]
fn payload_round_trips() {
    for payload in [&b""[..], &b"x"[..], &b"{\"id\":9}"[..], &[0u8, 255, 7][..]] {
        let mut stream = ObjectStream::new(MemStream::new());
        stream.send_payload(payload).unwrap();
        assert_eq!(stream.recv_payload().unwrap(), payload.to_vec());
        assert!(stream.get_ref().unread().is_empty());
    }
}

#[test]
fn back_to_back_frames_of_different_sizes() {
    let small = vec![1u8];
    let large: Vec<u8> = (0..100_000u32).map(|i| (i % 251) as u8).collect();
    let mut stream = ObjectStream::new(MemStream::new());
    stream.send_payload(&small).unwrap();
    stream.send_payload(&large).unwrap();
    stream.send_payload(&small).unwrap();
    assert_eq!(stream.recv_payload().unwrap(), small);
    assert_eq!(stream.recv_payload().unwrap(), large);
    assert_eq!(stream.recv_payload().unwrap(), small);
    assert!(stream.get_ref().unread().is_empty());
}

#[test]
fn recv_leaves_the_next_frame_alone() {
    let mut bytes = frame_bytes(b"first");
    bytes.extend_from_slice(&frame_bytes(b"second"));
    let mut stream = ObjectStream::new(MemStream::from_bytes(bytes));
    assert_eq!(stream.recv_payload().unwrap(), b"first".to_vec());
    assert_eq!(stream.get_ref().unread(), &frame_bytes(b"second")[..]);
}

#[test]
fn empty_payload_is_a_legal_frame() {
    let mut stream = ObjectStream::new(MemStream::from_bytes(vec![0, 0, 0, 0]));
    assert_eq!(stream.recv_payload().unwrap(), Vec::<u8>::new());

    let mut stream = ObjectStream::new(MemStream::from_bytes(vec![0, 0, 0, 0]));
    assert_eq!(stream.recv::<Salution>(), Err(ChannelError::Decode));
    assert!(stream.get_ref().unread().is_empty());
}

#[test]
fn truncated_payload_is_an_io_error() {
    let mut stream = ObjectStream::new(MemStream::from_bytes(vec![5, 0, 0, 0]));
    assert_eq!(stream.recv_payload(), Err(ChannelError::Io));

    let mut stream = ObjectStream::new(MemStream::from_bytes(vec![5, 0, 0, 0, 1, 2, 3, 4]));
    assert_eq!(stream.recv_payload(), Err(ChannelError::Io));

    let mut stream = ObjectStream::new(MemStream::from_bytes(vec![5, 0, 0, 0, 1, 2]));
    assert_eq!(stream.recv::<Salution>(), Err(ChannelError::Io));
}

#[test]
fn truncated_prefix_is_an_io_error() {
    let mut stream = ObjectStream::new(MemStream::new());
    assert_eq!(stream.recv_payload(), Err(ChannelError::Io));

    let mut stream = ObjectStream::new(MemStream::from_bytes(vec![1, 0, 0]));
    assert_eq!(stream.recv::<Salution>(), Err(ChannelError::Io));
}

#[test]
fn malformed_payload_is_a_decode_error() {
    let good = Salution::Suppp(Sup { id: 9, name: "oh yay".to_string() });
    let mut stream = ObjectStream::new(MemStream::new());
    stream.send_payload(b"not json at all").unwrap();
    stream.send_payload(b"{\"variant\":\"Nope\",\"fields\":[1]}").unwrap();
    stream.send(good.clone()).unwrap();
    assert_eq!(stream.recv::<Salution>(), Err(ChannelError::Decode));
    assert_eq!(stream.recv::<Salution>(), Err(ChannelError::Decode));
    assert_eq!(stream.recv::<Salution>(), Ok(good));
    assert!(stream.get_ref().unread().is_empty());
}

#[test]
fn unencodable_value_writes_nothing() {
    let mut stream = ObjectStream::new(MemStream::new());
    assert_eq!(stream.send(Unencodable), Err(ChannelError::Encode));
    assert!(stream.get_ref().unread().is_empty());
}

#[test]
fn failing_stream_is_an_io_error() {
    let mut stream = ObjectStream::new(BrokenPipe);
    assert_eq!(stream.send(Salution::Hello(1)), Err(ChannelError::Io));
    assert_eq!(stream.send_payload(b"x"), Err(ChannelError::Io));
    assert_eq!(stream.recv::<Salution>(), Err(ChannelError::Io));
}

#[test]
fn split_frame_takes_exactly_one_frame() {
    let mut bytes = frame_bytes(b"abc");
    bytes.extend_from_slice(&[9, 9]);
    assert_eq!(split_frame(&bytes), Some((b"abc".to_vec(), 7)));
    assert_eq!(split_frame(&[0, 0, 0, 0]), Some((Vec::new(), 4)));
    assert_eq!(split_frame(&[0, 0, 0, 0, 1]), Some((Vec::new(), 4)));
}

#[test]
fn split_frame_refuses_a_cut_off_frame() {
    let whole = frame_bytes(b"hello");
    for k in 0..whole.len() {
        assert_eq!(split_frame(&whole[..k]), None);
    }
    assert_eq!(split_frame(&whole), Some((b"hello".to_vec(), whole.len())));
    assert_eq!(split_frame(&[255, 255, 255, 255, 0]), None);
}

#[test]
fn decode_len_reads_the_first_four_bytes() {
    assert_eq!(decode_len(&[7, 0, 0, 0, 1, 2, 3]), 7);
}
