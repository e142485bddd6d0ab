use ciborium::value::{Integer, Value};
use ssh3::proto::cbor::cbor_encode;
use ssh3::proto::message::{
    ChannelRequestMsg, ChannelRequestType, ChannelType, GlobalReplyMsg, GlobalRequestType,
    SshMessage,
};

const OPEN: u8 = 90;
const WINDOW_ADJUST: u8 = 93;
const DATA: u8 = 94;
const REQUEST: u8 = 98;
const GLOBAL_REQUEST: u8 = 80;
const GLOBAL_REPLY: u8 = 81;

const TRUE: [u8; 1] = [0xf5];

fn map(entries: u8) -> Vec<u8> {
    vec![0xa0 + entries]
}

fn array(items: u8) -> Vec<u8> {
    vec![0x80 + items]
}

fn text(s: &str) -> Vec<u8> {
    let mut out = vec![0x60 + s.len() as u8];
    out.extend_from_slice(s.as_bytes());
    out
}

fn octets(b: &[u8]) -> Vec<u8> {
    let mut out = vec![0x40 + b.len() as u8];
    out.extend_from_slice(b);
    out
}

fn tag(number: u8) -> Vec<u8> {
    vec![0xc0 + number]
}

fn message(kind: u8, parts: &[Vec<u8>]) -> Option<SshMessage> {
    let mut data = vec![kind];
    for part in parts {
        data.extend_from_slice(part);
    }
    SshMessage::decode(&data).ok()
}

fn bytes_to_add(parts: &[Vec<u8>]) -> Option<u64> {
    let mut all = vec![map(1), text("bytes_to_add")];
    all.extend_from_slice(parts);
    match message(WINDOW_ADJUST, &all) {
        Some(SshMessage::ChannelWindowAdjust(m)) => Some(m.bytes_to_add),
        None => None,
        other => panic!("unexpected message: {other:?}"),
    }
}

/// The request of a message that holds it behind or in front of the wanted reply.
fn request(parts: &[Vec<u8>], last: bool) -> Option<ChannelRequestType> {
    let mut all = vec![map(2)];
    if last {
        all.push(text("want_reply"));
        all.push(TRUE.to_vec());
    }
    all.push(text("request"));
    all.extend_from_slice(parts);
    if !last {
        all.push(text("want_reply"));
        all.push(TRUE.to_vec());
    }
    match message(REQUEST, &all) {
        Some(SshMessage::ChannelRequest(ChannelRequestMsg {
            want_reply: true,
            request,
        })) => Some(request),
        None => None,
        other => panic!("unexpected message: {other:?}"),
    }
}

fn channel_type(parts: &[Vec<u8>], last: bool) -> Option<ChannelType> {
    let mut all = vec![map(2)];
    if last {
        all.push(text("maximum_message_size"));
        all.push(vec![7]);
    }
    all.push(text("channel_type"));
    all.extend_from_slice(parts);
    if !last {
        all.push(text("maximum_message_size"));
        all.push(vec![7]);
    }
    match message(OPEN, &all) {
        Some(SshMessage::ChannelOpen(m)) => {
            assert_eq!(m.maximum_message_size, 7);
            Some(m.channel_type)
        }
        None => None,
        other => panic!("unexpected message: {other:?}"),
    }
}

#[test]
fn number_may_be_written_as_its_bytes() {
    assert_eq!(bytes_to_add(&[vec![5]]), Some(5));
    assert_eq!(bytes_to_add(&[tag(2), octets(&[1, 2])]), Some(258));
    let mut padded = vec![0u8; 18];
    padded[16] = 1;
    padded[17] = 2;
    assert_eq!(bytes_to_add(&[tag(2), octets(&padded)]), Some(258));
    assert_eq!(bytes_to_add(&[tag(1), tag(2), octets(&padded)]), Some(258));
    padded[9] = 1;
    assert_eq!(bytes_to_add(&[tag(2), octets(&padded)]), None);
    assert_eq!(
        bytes_to_add(&[tag(2), octets(&[0xff; 8])]),
        Some(u64::MAX)
    );
    assert_eq!(bytes_to_add(&[tag(2), octets(&[1, 0, 0, 0, 0, 0, 0, 0, 0])]), None);
}

#[test]
fn number_is_not_read_through_the_tags_of_others() {
    assert_eq!(bytes_to_add(&[tag(1), vec![5]]), Some(5));
    assert_eq!(bytes_to_add(&[tag(2), vec![5]]), None);
    assert_eq!(bytes_to_add(&[tag(3), octets(&[5])]), None);
    assert_eq!(bytes_to_add(&[tag(3), octets(&[0; 20])]), None);
    assert_eq!(bytes_to_add(&[vec![0x24]]), None);
}

#[test]
fn octets_may_be_numbers_of_any_writing() {
    let mut padded = vec![0u8; 17];
    padded[16] = 9;
    let data = message(
        DATA,
        &[map(1), text("data"), array(2), vec![7], tag(2), octets(&padded)],
    );
    match data {
        Some(SshMessage::ChannelData(m)) => assert_eq!(m.data, vec![7, 9]),
        other => panic!("unexpected message: {other:?}"),
    }
    padded[15] = 1;
    assert_eq!(
        message(DATA, &[map(1), text("data"), array(1), tag(2), octets(&padded)]),
        None
    );
}

#[test]
fn variant_may_be_named_by_bytes_in_front_of_its_fields() {
    let exec = Some(ChannelRequestType::Exec {
        command: "ls".to_string(),
    });
    let fields = [map(1), text("command"), text("ls")].concat();
    assert_eq!(request(&[map(1), text("Exec"), fields.clone()], true), exec);
    assert_eq!(request(&[map(1), octets(b"Exec"), fields.clone()], true), exec);
    assert_eq!(request(&[map(1), octets(b"Exec"), fields.clone()], false), exec);
    assert_eq!(request(&[map(1), octets(&[0xff]), fields], true), None);
    assert_eq!(request(&[octets(b"Shell")], true), None);
    assert_eq!(request(&[text("Shell")], true), Some(ChannelRequestType::Shell));
}

#[test]
fn what_stands_with_an_empty_variant_is_left_unread() {
    let shell = [map(1), text("Shell"), map(0)].concat();
    assert_eq!(request(&[shell.clone()], true), Some(ChannelRequestType::Shell));
    assert_eq!(request(&[shell], false), None);
    let session = [map(1), text("Session"), map(0)].concat();
    assert_eq!(channel_type(&[session.clone()], true), Some(ChannelType::Session));
    assert_eq!(channel_type(&[session], false), None);
    let other = [map(1), text("Other"), text("mine")].concat();
    assert_eq!(
        channel_type(&[other], false),
        Some(ChannelType::Other("mine".to_string()))
    );
    assert_eq!(channel_type(&[text("Other")], true), None);
}

#[test]
fn what_is_left_of_a_variant_belongs_to_the_next_entry() {
    let reply = [text("want_reply"), TRUE.to_vec()].concat();
    let shell = [text("request"), map(1), text("Shell"), text("x")].concat();
    let more = [text("y"), vec![0]].concat();
    match message(REQUEST, &[map(3), reply.clone(), shell.clone(), more.clone()]) {
        Some(SshMessage::ChannelRequest(m)) => assert_eq!(m.request, ChannelRequestType::Shell),
        other => panic!("unexpected message: {other:?}"),
    }
    assert_eq!(message(REQUEST, &[map(3), shell, more, reply.clone()]), None);
    let twice = [text("request"), map(1), text("Shell"), text("request")].concat();
    let last = [text("Shell"), text("z")].concat();
    assert_eq!(message(REQUEST, &[map(3), reply, twice, last]), None);
    assert_eq!(request(&[text("Exec")], false), None);
}

#[test]
fn fields_of_a_variant_may_be_listed() {
    let env = Some(ChannelRequestType::Env {
        name: "A".to_string(),
        value: "B".to_string(),
    });
    let name = [map(1), text("Env")].concat();
    let two = [array(2), text("A"), text("B")].concat();
    assert_eq!(request(&[name.clone(), two.clone()], true), env);
    assert_eq!(request(&[name.clone(), two], false), env);
    let one = [array(1), text("A")].concat();
    assert_eq!(request(&[name.clone(), one], true), None);
    let three = [array(3), text("A"), text("B"), vec![0]].concat();
    assert_eq!(request(&[name.clone(), three.clone()], true), env);
    assert_eq!(request(&[name, three], false), None);

    let forward = [
        map(2),
        text("want_reply"),
        TRUE.to_vec(),
        text("request"),
        map(1),
        text("TcpipForward"),
        array(2),
        text("::"),
        vec![22],
    ];
    match message(GLOBAL_REQUEST, &forward) {
        Some(SshMessage::GlobalRequest(m)) => assert_eq!(
            m.request,
            GlobalRequestType::TcpipForward {
                bind_host: "::".to_string(),
                bind_port: 22,
            }
        ),
        other => panic!("unexpected message: {other:?}"),
    }
}

#[test]
fn bodies_are_not_listed() {
    assert_eq!(
        message(REQUEST, &[array(2), TRUE.to_vec(), text("Shell")]),
        None
    );
    assert_eq!(message(WINDOW_ADJUST, &[array(1), vec![5]]), None);
}

#[test]
fn tags_may_stand_before_a_variant_but_not_before_its_fields() {
    let exec = Some(ChannelRequestType::Exec {
        command: "ls".to_string(),
    });
    let fields = [map(1), text("command"), text("ls")].concat();
    assert_eq!(
        request(&[tag(1), map(1), tag(1), text("Exec"), fields.clone()], true),
        exec
    );
    assert_eq!(request(&[map(1), text("Exec"), tag(1), fields], true), None);
}

#[test]
fn keys_have_a_limit() {
    let body = |length: u16| {
        let mut key = vec![0x79];
        key.extend_from_slice(&length.to_be_bytes());
        key.extend_from_slice(&vec![b'k'; length as usize]);
        [
            map(2),
            key,
            vec![0xf6],
            text("bytes_to_add"),
            vec![5],
        ]
    };
    assert!(message(WINDOW_ADJUST, &body(4096)).is_some());
    assert_eq!(message(WINDOW_ADJUST, &body(4097)), None);
}

#[test]
fn port_may_be_null_but_not_a_tagged_null() {
    let reply = |parts: &[Vec<u8>]| {
        let mut all = vec![map(2), text("success"), TRUE.to_vec(), text("bound_port")];
        all.extend_from_slice(parts);
        message(GLOBAL_REPLY, &all)
    };
    let told = |bound_port| {
        Some(SshMessage::GlobalReply(GlobalReplyMsg {
            success: true,
            bound_port,
        }))
    };
    assert_eq!(reply(&[vec![0xf6]]), told(None));
    assert_eq!(reply(&[tag(1), vec![0xf6]]), None);
    assert_eq!(reply(&[tag(1), vec![22]]), told(Some(22)));
    assert_eq!(
        message(GLOBAL_REPLY, &[map(1), text("success"), TRUE.to_vec()]),
        told(None)
    );
}

#[test]
fn values_of_other_kinds_are_written() {
    let value = Value::Tag(1, Box::new(Value::Integer(Integer::from(-5))));
    assert_eq!(cbor_encode(&value).unwrap()[..], [0xc1, 0x24]);
    let nested = Value::Array(vec![Value::Null, Value::Map(vec![(Value::Bool(true), value)])]);
    assert_eq!(
        cbor_encode(&nested).unwrap()[..],
        [0x82, 0xf6, 0xa1, 0xf5, 0xc1, 0x24]
    );
}
