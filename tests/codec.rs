use shop_ring::codec::{decode, encode, ElectionMessage};
use shop_ring::errors::Error;

fn word(x: u64) -> Vec<u8> {
    x.to_le_bytes().to_vec()
}

#[test]
fn ack_has_exact_frame() {
    let bytes = encode(&ElectionMessage::Ack { sender: 5 });
    let mut expected = vec![b'A'];
    expected.extend(word(1));
    expected.extend(word(5));
    assert_eq!(bytes, expected);
}

#[test]
fn coordinator_frame_puts_winner_first() {
    let m = ElectionMessage::Coordinator { winner: 2, path: vec![0, 1] };
    let bytes = encode(&m);
    let mut expected = vec![b'C'];
    expected.extend(word(3));
    expected.extend(word(2));
    expected.extend(word(0));
    expected.extend(word(1));
    assert_eq!(bytes, expected);
}

#[test]
fn every_kind_round_trips() {
    let messages = vec![
        ElectionMessage::Election { path: vec![] },
        ElectionMessage::Election { path: vec![0, 1, 2] },
        ElectionMessage::Ack { sender: 7 },
        ElectionMessage::Coordinator { winner: 9, path: vec![] },
        ElectionMessage::Coordinator { winner: 2, path: vec![0, 2] },
        ElectionMessage::Election { path: vec![u64::MAX, 0] },
    ];
    for m in messages {
        let bytes = encode(&m);
        assert_eq!(decode(&bytes), Ok(m.clone()));
        let mut padded = bytes.clone();
        padded.extend(vec![0u8; 40]);
        assert_eq!(decode(&padded), Ok(m));
    }
}

#[test]
fn empty_buffer_is_malformed() {
    assert_eq!(decode(&[]), Err(Error::MalformedMessage));
}

#[test]
fn every_truncation_is_malformed() {
    let bytes = encode(&ElectionMessage::Election { path: vec![0, 1, 2] });
    for cut in 0..bytes.len() {
        assert_eq!(decode(&bytes[..cut]), Err(Error::MalformedMessage));
    }
}

#[test]
fn unknown_tag_is_malformed() {
    let mut bytes = vec![b'X'];
    bytes.extend(word(0));
    assert_eq!(decode(&bytes), Err(Error::MalformedMessage));
}

#[test]
fn ack_without_sender_is_malformed() {
    let mut bytes = vec![b'A'];
    bytes.extend(word(0));
    assert_eq!(decode(&bytes), Err(Error::MalformedMessage));
}

#[test]
fn huge_count_is_malformed() {
    let mut bytes = vec![b'E'];
    bytes.extend(word(u64::MAX));
    bytes.extend(word(1));
    assert_eq!(decode(&bytes), Err(Error::MalformedMessage));
}
