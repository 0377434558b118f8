use card_mesh::wire::{put_bytes, put_u16_le, seal, u16_from_le, DATA_SEPARATOR, MAX_PAYLOAD_LEN};

#[test]
fn separator_is_the_dollar_sign() {
    assert_eq!(DATA_SEPARATOR, b'$');
    assert_eq!(MAX_PAYLOAD_LEN, 65535);
}

#[test]
fn u16_goes_out_low_byte_first() {
    let mut buf = vec![7u8];
    put_u16_le(&mut buf, 9000);
    assert_eq!(buf, vec![7, 0x28, 0x23]);
    put_u16_le(&mut buf, 0);
    put_u16_le(&mut buf, 65535);
    assert_eq!(buf, vec![7, 0x28, 0x23, 0, 0, 255, 255]);
}

#[test]
fn u16_comes_back_from_its_bytes() {
    assert_eq!(u16_from_le(0x28, 0x23), 9000);
    assert_eq!(u16_from_le(0, 0), 0);
    assert_eq!(u16_from_le(255, 255), 65535);
    assert_eq!(u16_from_le(1, 0), 1);
    assert_eq!(u16_from_le(0, 1), 256);
}

#[test]
fn u16_round_trip_over_every_value() {
    for x in 0..=u16::MAX {
        let mut buf = Vec::new();
        put_u16_le(&mut buf, x);
        assert_eq!(buf.len(), 2);
        assert_eq!(u16_from_le(buf[0], buf[1]), x);
        assert_eq!(buf, x.to_le_bytes().to_vec());
    }
}

#[test]
fn put_bytes_appends() {
    let mut buf = vec![1u8, 2];
    put_bytes(&mut buf, &[3, 4, 5]);
    assert_eq!(buf, vec![1, 2, 3, 4, 5]);
    put_bytes(&mut buf, &[]);
    assert_eq!(buf, vec![1, 2, 3, 4, 5]);
}

#[test]
fn seal_puts_the_length_first() {
    assert_eq!(seal(&vec![9u8, 8, 7]), Some(vec![3, 0, 9, 8, 7]));
    assert_eq!(seal(&Vec::new()), Some(vec![0, 0]));
}

#[test]
fn seal_takes_the_longest_payload_and_no_longer_one() {
    let longest = vec![0xabu8; MAX_PAYLOAD_LEN];
    let sealed = seal(&longest).unwrap();
    assert_eq!(sealed.len(), MAX_PAYLOAD_LEN + 2);
    assert_eq!(&sealed[..2], &[255, 255]);
    assert_eq!(&sealed[2..], &longest[..]);
    let too_long = vec![0xabu8; MAX_PAYLOAD_LEN + 1];
    assert_eq!(seal(&too_long), None);
}

#[test]
fn sealed_header_announces_the_rest() {
    let payload: Vec<u8> = (0..300u32).map(|i| (i % 251) as u8).collect();
    let sealed = seal(&payload).unwrap();
    let announced = u16_from_le(sealed[0], sealed[1]) as usize;
    assert_eq!(announced, 300);
    assert_eq!(sealed.len(), 2 + announced);
    assert_eq!(&sealed[2..], &payload[..]);
}
