use card_mesh::error::ProtocolError;
use card_mesh::message::{assemble_init, split_init, ConnsList, Init, InitKind, Message, MessageKind};
use card_mesh::net::{PeerAddr, SocketList};

fn init_payload(kind: u8, port: u16, auth: &[u8], username: &[u8]) -> Vec<u8> {
    let mut payload = vec![1u8, kind];
    payload.extend(port.to_le_bytes());
    payload.extend(auth);
    payload.push(b'$');
    payload.extend(username);
    payload
}

fn same_init(left: &Init, right: &Init) -> bool {
    left.kind() == right.kind() && left.listen_port() == right.listen_port()
        && left.auth() == right.auth() && left.encode() == right.encode()
}

#[test]
fn message_kind_tags() {
    assert_eq!(MessageKind::Init.tag(), 1);
    assert_eq!(MessageKind::ConnsList.tag(), 2);
}

#[test]
fn init_kind_tags() {
    assert_eq!(InitKind::New.tag(), 1);
    assert_eq!(InitKind::Referred.tag(), 2);
    assert_eq!(InitKind::Reconnect.tag(), 3);
}

#[test]
fn init_kind_from_u8_knows_three_tags() {
    assert_eq!(InitKind::from_u8(1), Some(InitKind::New));
    assert_eq!(InitKind::from_u8(2), Some(InitKind::Referred));
    assert_eq!(InitKind::from_u8(3), Some(InitKind::Reconnect));
    for value in 0..=255u8 {
        if !(1..=3).contains(&value) {
            assert_eq!(InitKind::from_u8(value), None);
        } else {
            assert_eq!(InitKind::from_u8(value).unwrap().tag(), value);
        }
    }
}

#[test]
fn init_keeps_what_it_was_made_of() {
    let msg = Init::new(InitKind::Referred, 4242, "token", "bob");
    assert_eq!(msg.kind(), InitKind::Referred);
    assert_eq!(msg.listen_port(), 4242);
    assert_eq!(msg.auth(), "token");
    assert_eq!(msg.consume_for_username(), "bob".to_string());
}

#[test]
fn init_encodes_to_the_documented_layout() {
    let msg = Init::new(InitKind::New, 9000, "pass", "uname");
    assert_eq!(
        msg.encode(),
        Ok(vec![
            18, 0, 1, 1, 40, 35, 99, 71, 70, 122, 99, 119, 36, 100, 87, 53, 104, 98, 87, 85
        ])
    );
    let msg = Init::new(InitKind::Referred, 9000, "ref", "refed");
    assert_eq!(
        msg.encode(),
        Ok(vec![16, 0, 1, 2, 40, 35, 99, 109, 86, 109, 36, 99, 109, 86, 109, 90, 87, 81])
    );
}

#[test]
fn init_with_empty_strings_encodes_to_the_bare_layout() {
    let msg = Init::new(InitKind::Reconnect, 65535, "", "");
    assert_eq!(msg.encode(), Ok(vec![5, 0, 1, 3, 255, 255, 36]));
}

#[test]
fn init_frame_announces_its_own_length() {
    let msg = Init::new(InitKind::New, 1, "some longer secret", "alice");
    let frame = msg.encode().unwrap();
    let announced = u16::from_le_bytes([frame[0], frame[1]]) as usize;
    assert_eq!(announced, frame.len() - 2);
}

#[test]
fn init_decodes_the_documented_layout() {
    let payload = [1u8, 1, 40, 35, 99, 71, 70, 122, 99, 119, 36, 100, 87, 53, 104, 98, 87, 85];
    let msg = Init::decode(&payload).unwrap();
    assert_eq!(msg.kind(), InitKind::New);
    assert_eq!(msg.listen_port(), 9000);
    assert_eq!(msg.auth(), "pass");
    assert_eq!(msg.consume_for_username(), "uname");
}

#[test]
fn init_round_trip() {
    let kinds = [InitKind::New, InitKind::Referred, InitKind::Reconnect];
    let ports = [0u16, 1, 255, 256, 9000, 44441, 65535];
    let texts = ["", "a", "pass", "a$b", "$", "$$", "with space", "Klöver", "\u{1f0a1}"];
    for kind in kinds {
        for port in ports {
            for auth in texts {
                for username in texts {
                    let msg = Init::new(kind, port, auth, username);
                    let frame = msg.encode().unwrap();
                    let back = Init::decode(&frame[2..]).unwrap();
                    assert_eq!(back.kind(), kind);
                    assert_eq!(back.listen_port(), port);
                    assert_eq!(back.auth(), auth);
                    assert!(same_init(&back, &msg));
                    assert_eq!(back.consume_for_username(), username);
                }
            }
        }
    }
}

#[test]
fn init_frame_holds_one_separator_whatever_the_strings_hold() {
    let msg = Init::new(InitKind::New, 9000, "$$$", "a$b$c");
    let frame = msg.encode().unwrap();
    let separators = frame[6..].iter().filter(|&&byte| byte == b'$').count();
    assert_eq!(separators, 1);
}

#[test]
fn init_decode_refuses_an_empty_buffer() {
    assert!(Init::decode(&[]).is_none());
}

#[test]
fn init_decode_refuses_another_message_tag() {
    let good = init_payload(1, 9000, b"cGFzcw", b"dW5hbWU");
    assert!(Init::decode(&good).is_some());
    for tag in 0..=255u8 {
        if tag != 1 {
            let mut payload = good.clone();
            payload[0] = tag;
            assert!(Init::decode(&payload).is_none());
        }
    }
}

#[test]
fn init_decode_refuses_an_unknown_init_kind() {
    for kind in 0..=255u8 {
        let payload = init_payload(kind, 9000, b"cGFzcw", b"dW5hbWU");
        assert_eq!(Init::decode(&payload).is_some(), (1..=3).contains(&kind));
    }
}

#[test]
fn init_decode_refuses_a_payload_cut_short() {
    assert!(Init::decode(&[1]).is_none());
    assert!(Init::decode(&[1, 1]).is_none());
    assert!(Init::decode(&[1, 1, 40]).is_none());
    // kind and port, but no separator after them
    assert!(Init::decode(&[1, 1, 40, 35]).is_none());
    assert!(Init::decode(&[1, 1, 40, 35, 36]).is_some());
}

#[test]
fn init_decode_wants_exactly_two_fields() {
    assert!(Init::decode(&init_payload(1, 9000, b"cGFzcw", b"dW5hbWU")).is_some());
    // one field
    let mut one = vec![1u8, 1, 40, 35];
    one.extend(b"cGFzcw");
    assert!(Init::decode(&one).is_none());
    // three fields
    let mut three = init_payload(1, 9000, b"cGFzcw", b"dW5hbWU");
    three.push(b'$');
    assert!(Init::decode(&three).is_none());
    three.extend(b"cmVm");
    assert!(Init::decode(&three).is_none());
}

#[test]
fn init_decode_refuses_a_field_that_is_no_text() {
    assert!(Init::decode(&init_payload(1, 9000, b"!!!!", b"dW5hbWU")).is_none());
    assert!(Init::decode(&init_payload(1, 9000, b"cGFzcw", b"!!!!")).is_none());
    assert!(Init::decode(&init_payload(1, 9000, b"cGFzcw==", b"dW5hbWU")).is_none());
    assert!(Init::decode(&init_payload(1, 9000, b"A", b"dW5hbWU")).is_none());
    // base64 of bytes that are no UTF-8
    assert!(Init::decode(&init_payload(1, 9000, b"_w", b"dW5hbWU")).is_none());
    assert!(Init::decode(&init_payload(1, 9000, b"cGFzcw", b"_w")).is_none());
}

#[test]
fn init_recv_and_decode_names_its_failure() {
    assert_eq!(Init::recv_and_decode(&[2, 1, 40, 35, 36]).unwrap_err(), ProtocolError::InitDecode);
    assert_eq!(Init::recv_and_decode(&[]).unwrap_err(), ProtocolError::InitDecode);
    let msg = Init::recv_and_decode(&[1, 2, 40, 35, 36]).unwrap();
    assert_eq!(msg.kind(), InitKind::Referred);
    assert_eq!(msg.listen_port(), 9000);
    assert_eq!(msg.auth(), "");
    assert_eq!(msg.consume_for_username(), "");
}

#[test]
fn init_that_fills_the_length_field_still_encodes() {
    // 49146 bytes make 65528 symbols, one byte makes 2: 5 + 65528 + 2 = 65535
    let auth = "a".repeat(49146);
    let msg = Init::new(InitKind::New, 9000, &auth, "b");
    let frame = msg.encode().unwrap();
    assert_eq!(frame.len(), 2 + 65535);
    assert_eq!(&frame[..2], &[255, 255]);
    let back = Init::decode(&frame[2..]).unwrap();
    assert_eq!(back.auth(), auth);
    assert_eq!(back.consume_for_username(), "b");
}

#[test]
fn init_one_byte_over_the_length_field_is_oversized() {
    // two bytes make 3 symbols: 5 + 65528 + 3 = 65536
    let auth = "a".repeat(49146);
    let msg = Init::new(InitKind::New, 9000, &auth, "bc");
    assert_eq!(msg.encode(), Err(ProtocolError::InitTooLong));
    let msg = Init::new(InitKind::New, 9000, "bc", &auth);
    assert_eq!(msg.encode(), Err(ProtocolError::InitTooLong));
}

#[test]
fn init_with_a_huge_string_is_oversized() {
    let huge = "z".repeat(200_000);
    assert_eq!(Init::new(InitKind::New, 1, &huge, "").encode(), Err(ProtocolError::InitTooLong));
    assert_eq!(Init::new(InitKind::New, 1, "", &huge).encode(), Err(ProtocolError::InitTooLong));
    assert_eq!(Init::new(InitKind::New, 1, &huge, &huge).encode(), Err(ProtocolError::InitTooLong));
}

#[test]
fn split_init_takes_a_payload_apart() {
    let payload = init_payload(2, 9000, b"AB", b"C");
    let (kind, port, auth, username) = split_init(&payload).unwrap();
    assert_eq!(kind, 2);
    assert_eq!(port, 9000);
    assert_eq!(auth, b"AB");
    assert_eq!(username, b"C");
    // the fields are not read: they need not be text, nor the kind a known one
    let payload = init_payload(77, 1, b"!", b"");
    let (kind, port, auth, username) = split_init(&payload).unwrap();
    assert_eq!((kind, port), (77, 1));
    assert_eq!(auth, b"!");
    assert_eq!(username, b"");
}

#[test]
fn split_init_wants_tag_length_and_one_separator() {
    assert!(split_init(&[]).is_none());
    assert!(split_init(&[1, 1, 0]).is_none());
    assert!(split_init(&[1, 1, 0, 0]).is_none());
    assert!(split_init(&[2, 1, 0, 0, 36]).is_none());
    assert!(split_init(&[1, 1, 0, 0, 36, 36]).is_none());
    assert!(split_init(&[1, 1, 0, 0, 65, 36, 66, 36, 67]).is_none());
    assert!(split_init(&[1, 1, 0, 0, 36]).is_some());
    // a separator among kind and port is none of the body's
    assert!(split_init(&[1, 36, 36, 36, 65]).is_none());
    assert!(split_init(&[1, 36, 36, 36, 65, 36]).is_some());
}

#[test]
fn assemble_init_lays_the_parts_out() {
    assert_eq!(
        assemble_init(InitKind::Referred, 9000, b"AB", b"C"),
        Ok(vec![8, 0, 1, 2, 0x28, 0x23, 65, 66, 36, 67])
    );
    assert_eq!(assemble_init(InitKind::New, 0, b"", b""), Ok(vec![5, 0, 1, 1, 0, 0, 36]));
}

#[test]
fn assemble_init_fails_past_the_length_field() {
    let auth = vec![b'A'; 65530];
    assert!(assemble_init(InitKind::New, 0, &auth, b"").is_ok());
    assert_eq!(assemble_init(InitKind::New, 0, &auth, b"B"), Err(ProtocolError::InitTooLong));
    let huge = vec![b'A'; 70000];
    assert_eq!(assemble_init(InitKind::New, 0, &huge, b""), Err(ProtocolError::InitTooLong));
    assert_eq!(assemble_init(InitKind::New, 0, b"", &huge), Err(ProtocolError::InitTooLong));
}

#[test]
fn split_init_undoes_assemble_init() {
    let frame = assemble_init(InitKind::Reconnect, 513, b"abc_-", b"XYZ09").unwrap();
    let (kind, port, auth, username) = split_init(&frame[2..]).unwrap();
    assert_eq!(kind, 3);
    assert_eq!(port, 513);
    assert_eq!(auth, b"abc_-");
    assert_eq!(username, b"XYZ09");
}

#[test]
fn conns_list_constructors_agree() {
    let peers = vec![PeerAddr::new(10, 0, 0, 5, 9001), PeerAddr::new(127, 0, 0, 1, 9000)];
    let from_vec = ConnsList::new_from_vec(peers.clone());
    let from_list = ConnsList::new(SocketList::new(&peers));
    assert_eq!(from_vec.encode(), from_list.encode());
    assert_eq!(from_vec.consume_for_socket_list().sockets(), &peers);
    assert_eq!(ConnsList::new_empty().consume_for_socket_list().len(), 0);
}

#[test]
fn conns_list_encodes_to_the_documented_layout() {
    let msg = ConnsList::new_from_vec(vec![
        PeerAddr::new(10, 0, 0, 5, 9001),
        PeerAddr::new(127, 0, 0, 1, 9000),
    ]);
    assert_eq!(
        msg.encode(),
        Ok(vec![13, 0, 2, 10, 0, 0, 5, 0x29, 0x23, 127, 0, 0, 1, 0x28, 0x23])
    );
}

#[test]
fn empty_conns_list_is_a_tag_alone() {
    assert_eq!(ConnsList::new_empty().encode(), Ok(vec![1, 0, 2]));
    let back = ConnsList::decode(&[2]).unwrap();
    assert_eq!(back.consume_for_socket_list().len(), 0);
}

#[test]
fn conns_list_decodes_records_in_order() {
    let payload = [2u8, 10, 0, 0, 5, 0x29, 0x23, 127, 0, 0, 1, 0x28, 0x23];
    let roster = ConnsList::decode(&payload).unwrap().consume_for_socket_list();
    assert_eq!(
        roster.sockets(),
        &vec![PeerAddr::new(10, 0, 0, 5, 9001), PeerAddr::new(127, 0, 0, 1, 9000)]
    );
}

#[test]
fn conns_list_round_trip() {
    for n in [0usize, 1, 2, 3, 7, 100, 1000] {
        let peers: Vec<PeerAddr> = (0..n)
            .map(|i| {
                PeerAddr::new(
                    (i % 256) as u8,
                    (i / 256) as u8,
                    (i * 7 % 256) as u8,
                    (255 - i % 256) as u8,
                    (i * 65 % 65536) as u16,
                )
            })
            .collect();
        let frame = ConnsList::new_from_vec(peers.clone()).encode().unwrap();
        assert_eq!(frame.len(), 2 + 1 + 6 * n);
        assert_eq!(u16::from_le_bytes([frame[0], frame[1]]) as usize, 1 + 6 * n);
        let back = ConnsList::decode(&frame[2..]).unwrap().consume_for_socket_list();
        assert_eq!(back.sockets(), &peers);
    }
}

#[test]
fn conns_list_keeps_duplicates() {
    let peer = PeerAddr::new(1, 2, 3, 4, 5);
    let frame = ConnsList::new_from_vec(vec![peer, peer, peer]).encode().unwrap();
    let back = ConnsList::decode(&frame[2..]).unwrap().consume_for_socket_list();
    assert_eq!(back.sockets(), &vec![peer, peer, peer]);
}

#[test]
fn conns_list_decode_refuses_another_message_tag() {
    assert!(ConnsList::decode(&[]).is_none());
    for tag in 0..=255u8 {
        let payload = [tag, 10, 0, 0, 5, 0x29, 0x23];
        assert_eq!(ConnsList::decode(&payload).is_some(), tag == 2);
    }
}

#[test]
fn conns_list_body_cut_short_stands_for_nothing() {
    assert!(ConnsList::decode(&[2, 10, 0, 0, 5, 41]).is_none());
    assert!(ConnsList::decode(&[2, 9, 9, 9]).is_none());
    assert!(ConnsList::decode(&[2, 9]).is_none());
    // one whole record and five bytes of another
    assert!(ConnsList::decode(&[2, 10, 0, 0, 5, 0x29, 0x23, 127, 0, 0, 1, 0x28]).is_none());
    // one whole record and one byte too many
    assert!(ConnsList::decode(&[2, 10, 0, 0, 5, 0x29, 0x23, 127]).is_none());
    assert_eq!(
        ConnsList::recv_and_decode(&[2, 10, 0, 0, 5, 41]).unwrap_err(),
        ProtocolError::ConnsListDecode
    );
}

#[test]
fn conns_list_decodes_only_whole_records() {
    let whole = [2u8, 10, 0, 0, 5, 0x29, 0x23, 127, 0, 0, 1, 0x28, 0x23, 1, 2, 3, 4, 5, 6];
    for len in 0..=whole.len() {
        let data = &whole[..len];
        match ConnsList::decode(data) {
            Some(msg) => {
                let count = msg.consume_for_socket_list().len();
                assert_eq!(data.len(), 1 + 6 * count);
            }
            None => assert!(len == 0 || (len - 1) % 6 != 0),
        }
    }
}

#[test]
fn conns_list_never_invents_a_peer() {
    // zeros on the wire are a peer like any other; bytes that are missing are not
    let zero = PeerAddr::new(0, 0, 0, 0, 0);
    let roster = ConnsList::decode(&[2, 0, 0, 0, 0, 0, 0]).unwrap().consume_for_socket_list();
    assert_eq!(roster.sockets(), &vec![zero]);
    assert!(ConnsList::decode(&[2, 0, 0, 0, 0, 0]).is_none());
}

#[test]
fn conns_list_recv_and_decode_names_its_failure() {
    assert_eq!(
        ConnsList::recv_and_decode(&[1, 1, 40, 35, 36]).unwrap_err(),
        ProtocolError::ConnsListDecode
    );
    assert_eq!(ConnsList::recv_and_decode(&[]).unwrap_err(), ProtocolError::ConnsListDecode);
    let roster = ConnsList::recv_and_decode(&[2, 1, 2, 3, 4, 5, 0]).unwrap();
    assert_eq!(roster.consume_for_socket_list().sockets(), &vec![PeerAddr::new(1, 2, 3, 4, 5)]);
}

#[test]
fn conns_list_that_fills_the_length_field_still_encodes() {
    let peers = vec![PeerAddr::new(1, 1, 1, 1, 1); 10922];
    let frame = ConnsList::new_from_vec(peers).encode().unwrap();
    assert_eq!(frame.len(), 2 + 1 + 6 * 10922);
    assert_eq!(&frame[..2], &[253, 255]);
}

#[test]
fn conns_list_past_the_length_field_is_oversized() {
    let peers = vec![PeerAddr::new(1, 1, 1, 1, 1); 10923];
    assert_eq!(ConnsList::new_from_vec(peers).encode(), Err(ProtocolError::ConnsListTooLong));
}
