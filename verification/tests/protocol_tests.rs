use libfmc::protocol::{
    command_packet, crc16, decrypt_message, encrypt_message, frame_command, make_app_hello, move_from_byte,
    new_turns, parse_c2a_message, parse_handles, C2aBody, CubeState, Opcode, ParseError, APP_KEY,
};
use libfmc::{DrStatus, Move, Spy};

/// The table of the byte-wise CRC-16 that the cube uses.
const TABLE: [u16; 256] = [
    0x0000, 0xc0c1, 0xc181, 0x0140, 0xc301, 0x03c0, 0x0280, 0xc241, 0xc601, 0x06c0, 0x0780, 0xc741,
    0x0500, 0xc5c1, 0xc481, 0x0440, 0xcc01, 0x0cc0, 0x0d80, 0xcd41, 0x0f00, 0xcfc1, 0xce81, 0x0e40,
    0x0a00, 0xcac1, 0xcb81, 0x0b40, 0xc901, 0x09c0, 0x0880, 0xc841, 0xd801, 0x18c0, 0x1980, 0xd941,
    0x1b00, 0xdbc1, 0xda81, 0x1a40, 0x1e00, 0xdec1, 0xdf81, 0x1f40, 0xdd01, 0x1dc0, 0x1c80, 0xdc41,
    0x1400, 0xd4c1, 0xd581, 0x1540, 0xd701, 0x17c0, 0x1680, 0xd641, 0xd201, 0x12c0, 0x1380, 0xd341,
    0x1100, 0xd1c1, 0xd081, 0x1040, 0xf001, 0x30c0, 0x3180, 0xf141, 0x3300, 0xf3c1, 0xf281, 0x3240,
    0x3600, 0xf6c1, 0xf781, 0x3740, 0xf501, 0x35c0, 0x3480, 0xf441, 0x3c00, 0xfcc1, 0xfd81, 0x3d40,
    0xff01, 0x3fc0, 0x3e80, 0xfe41, 0xfa01, 0x3ac0, 0x3b80, 0xfb41, 0x3900, 0xf9c1, 0xf881, 0x3840,
    0x2800, 0xe8c1, 0xe981, 0x2940, 0xeb01, 0x2bc0, 0x2a80, 0xea41, 0xee01, 0x2ec0, 0x2f80, 0xef41,
    0x2d00, 0xedc1, 0xec81, 0x2c40, 0xe401, 0x24c0, 0x2580, 0xe541, 0x2700, 0xe7c1, 0xe681, 0x2640,
    0x2200, 0xe2c1, 0xe381, 0x2340, 0xe101, 0x21c0, 0x2080, 0xe041, 0xa001, 0x60c0, 0x6180, 0xa141,
    0x6300, 0xa3c1, 0xa281, 0x6240, 0x6600, 0xa6c1, 0xa781, 0x6740, 0xa501, 0x65c0, 0x6480, 0xa441,
    0x6c00, 0xacc1, 0xad81, 0x6d40, 0xaf01, 0x6fc0, 0x6e80, 0xae41, 0xaa01, 0x6ac0, 0x6b80, 0xab41,
    0x6900, 0xa9c1, 0xa881, 0x6840, 0x7800, 0xb8c1, 0xb981, 0x7940, 0xbb01, 0x7bc0, 0x7a80, 0xba41,
    0xbe01, 0x7ec0, 0x7f80, 0xbf41, 0x7d00, 0xbdc1, 0xbc81, 0x7c40, 0xb401, 0x74c0, 0x7580, 0xb541,
    0x7700, 0xb7c1, 0xb681, 0x7640, 0x7200, 0xb2c1, 0xb381, 0x7340, 0xb101, 0x71c0, 0x7080, 0xb041,
    0x5000, 0x90c1, 0x9181, 0x5140, 0x9301, 0x53c0, 0x5280, 0x9241, 0x9601, 0x56c0, 0x5780, 0x9741,
    0x5500, 0x95c1, 0x9481, 0x5440, 0x9c01, 0x5cc0, 0x5d80, 0x9d41, 0x5f00, 0x9fc1, 0x9e81, 0x5e40,
    0x5a00, 0x9ac1, 0x9b81, 0x5b40, 0x9901, 0x59c0, 0x5880, 0x9841, 0x8801, 0x48c0, 0x4980, 0x8941,
    0x4b00, 0x8bc1, 0x8a81, 0x4a40, 0x4e00, 0x8ec1, 0x8f81, 0x4f40, 0x8d01, 0x4dc0, 0x4c80, 0x8c41,
    0x4400, 0x84c1, 0x8581, 0x4540, 0x8701, 0x47c0, 0x4680, 0x8641, 0x8201, 0x42c0, 0x4380, 0x8341,
    0x4100, 0x81c1, 0x8081, 0x4040,
];

fn table_crc(data: &[u8]) -> u16 {
    let mut crc: u16 = 0xffff;
    for i in data.iter().copied() {
        let xor = i ^ crc as u8;
        crc >>= 8;
        crc ^= TABLE[xor as usize];
    }
    crc
}

/// A message with the magic byte, length, opcode, a timestamp, the given body bytes and a
/// valid checksum.
fn message(opcode: u8, ts: u32, body: &[u8]) -> Vec<u8> {
    let len = 2 + 1 + 4 + body.len() + 2;
    let mut v = vec![0xfe, len as u8, opcode];
    v.extend_from_slice(&ts.to_be_bytes());
    v.extend_from_slice(body);
    let crc = table_crc(&v);
    v.extend_from_slice(&crc.to_le_bytes());
    v
}

#[test]
fn crc16_check_value() {
    assert_eq!(crc16(b"123456789"), 0x4b37);
    assert_eq!(crc16(&[]), 0xffff);
}

#[test]
fn crc16_matches_table() {
    let samples: Vec<Vec<u8>> = vec![
        vec![0],
        vec![1],
        vec![0xfe, 0x07, 1, 2, 3],
        (0..=255u8).collect(),
        (0..100u8).map(|x| x.wrapping_mul(37)).collect(),
    ];
    for s in samples {
        assert_eq!(crc16(&s), table_crc(&s));
    }
}

#[test]
fn frame_command_layout() {
    let f = frame_command(&[1, 2, 3]);
    assert_eq!(f.len(), 16);
    assert_eq!(&f[..5], &[0xfe, 7, 1, 2, 3]);
    let crc = table_crc(&[0xfe, 7, 1, 2, 3]);
    assert_eq!(&f[5..7], &crc.to_le_bytes());
    assert!(f[7..].iter().all(|&b| b == 0));

    let f = frame_command(&[9; 12]);
    assert_eq!(f.len(), 16);
    let f = frame_command(&[9; 13]);
    assert_eq!(f.len(), 32);
}

#[test]
fn app_hello_bytes() {
    let v = make_app_hello([0xcc, 0xa3, 0x00, 0x01, 0x2b, 0x74]);
    assert_eq!(v, vec![0, 0, 0, 0, 0, 0, 0, 0, 0, 0, 0, 0x74, 0x2b, 0x01, 0x00, 0xa3, 0xcc]);
}

#[test]
fn aes_known_answer() {
    let key: [u8; 16] = [0, 1, 2, 3, 4, 5, 6, 7, 8, 9, 10, 11, 12, 13, 14, 15];
    let plain: [u8; 16] = [
        0x00, 0x11, 0x22, 0x33, 0x44, 0x55, 0x66, 0x77, 0x88, 0x99, 0xaa, 0xbb, 0xcc, 0xdd, 0xee, 0xff,
    ];
    let expected: [u8; 16] = [
        0x69, 0xc4, 0xe0, 0xd8, 0x6a, 0x7b, 0x04, 0x30, 0xd8, 0xcd, 0xb7, 0x80, 0x70, 0xb4, 0xc5, 0x5a,
    ];
    let c = encrypt_message(&key, &plain);
    assert_eq!(c, expected.to_vec());
    let p = decrypt_message(&key, &c);
    assert_eq!(p, plain.to_vec());
}

#[test]
fn command_packet_roundtrip() {
    let bytes: Vec<u8> = (0..20u8).collect();
    let pkt = command_packet(&APP_KEY, &bytes);
    assert_eq!(pkt.len(), 32);
    assert_ne!(pkt, frame_command(&bytes));
    let back = decrypt_message(&APP_KEY, &pkt);
    assert_eq!(back, frame_command(&bytes));
}

#[test]
fn parse_cube_hello() {
    let state: Vec<u8> = (0..27u8).map(|x| x.wrapping_mul(17)).collect();
    let msg = message(2, 0x01020304, &state);
    assert!(parse_handles(&msg));
    let m = parse_c2a_message(&msg).unwrap();
    assert_eq!(m.raw_timestamp(), 0x01020304);
    assert_eq!(m.make_ack(), Some(&msg[2..7]));
    match m.body() {
        C2aBody::CubeHello(h) => {
            let expected = CubeState::from_raw(&state);
            assert_eq!(h.state, expected);
            assert_eq!(h.state.facelets[0], state[0] & 0xf);
            assert_eq!(h.state.facelets[1], state[0] >> 4);
        }
        _ => panic!("expected a hello"),
    }
}

#[test]
fn parse_state_change() {
    let mut body: Vec<u8> = vec![0; 27];
    body.push(4); // turn byte: R
    body.push(77); // battery
    for k in 0..11u32 {
        body.extend_from_slice(&(100 + k).to_be_bytes());
        body.push(if k % 2 == 0 { 8 } else { 0 });
    }
    let msg = message(3, 500, &body);
    let m = parse_c2a_message(&msg).unwrap();
    match m.body() {
        C2aBody::StateChange(sc) => {
            assert_eq!(sc.mov, Move::R);
            assert_eq!(sc.battery, 77);
            let expected: Vec<(Move, u32)> = (0..11u32).filter(|k| k % 2 == 0).map(|k| (Move::U, 100 + k)).collect();
            assert_eq!(sc.history, expected);
        }
        _ => panic!("expected a state change"),
    }
}

#[test]
fn parse_errors() {
    assert_eq!(parse_c2a_message(&[]).unwrap_err(), ParseError::TooShort);
    assert_eq!(parse_c2a_message(&[0xfd, 9]).unwrap_err(), ParseError::BadMagic);
    assert_eq!(parse_c2a_message(&[0xfe]).unwrap_err(), ParseError::TooShort);
    assert_eq!(parse_c2a_message(&[0xfe, 40, 1, 2]).unwrap_err(), ParseError::TooShort);
    let mut bad = message(2, 1, &[0; 27]);
    let last = bad.len() - 1;
    bad[last] ^= 1;
    assert_eq!(parse_c2a_message(&bad).unwrap_err(), ParseError::FailedChecksum);
    assert_eq!(parse_c2a_message(&message(9, 1, &[0; 27])).unwrap_err(), ParseError::BadOpcode { bad_opcode: 9 });
    assert_eq!(parse_c2a_message(&message(2, 1, &[0; 20])).unwrap_err(), ParseError::TooShort);
    let mut body = vec![0u8; 27];
    body.push(13);
    body.push(1);
    body.extend_from_slice(&[0u8; 55]);
    assert_eq!(parse_c2a_message(&message(3, 1, &body)).unwrap_err(), ParseError::BadTurn { turn: 13 });
    assert_eq!(parse_c2a_message(&message(3, 1, &body[..40])).unwrap_err(), ParseError::TooShort);
}

#[test]
fn parse_rejects_sync_confirmation() {
    let msg = message(4, 1, &[]);
    assert!(!parse_handles(&msg));
    assert!(!parse_handles(&[0xfe, 1, 0]));
}

#[test]
fn opcodes_and_turns() {
    assert_eq!(Opcode::from_u8(2), Ok(Opcode::CubeHello));
    assert_eq!(Opcode::from_u8(3), Ok(Opcode::StateChange));
    assert_eq!(Opcode::from_u8(4), Ok(Opcode::SyncConfirmation));
    assert_eq!(Opcode::from_u8(5), Err(ParseError::BadOpcode { bad_opcode: 5 }));
    assert_eq!(move_from_byte(1), Ok(Move::L3));
    assert_eq!(move_from_byte(12), Ok(Move::B));
    assert_eq!(move_from_byte(0), Err(ParseError::BadTurn { turn: 0 }));
}

#[test]
fn new_turns_sorted_and_filtered() {
    let history = vec![(Move::U, 30), (Move::R, 10), (Move::F, 20), (Move::L, 5), (Move::D, 20)];
    let (turns, last) = new_turns(&history, (Move::B, 25), 8);
    assert_eq!(turns, vec![(Move::R, 10), (Move::F, 20), (Move::D, 20), (Move::B, 25), (Move::U, 30)]);
    assert_eq!(last, Some(30));
    let (turns, last) = new_turns(&history, (Move::B, 25), 30);
    assert!(turns.is_empty());
    assert_eq!(last, None);
}

#[test]
fn spy_reports_f_turn() {
    let mut spy = Spy::new();
    let r = spy.handle(Move::F);
    assert_eq!(r.eofb, 4);
    assert_eq!(r.eolr, 0);
    assert_eq!(r.eoud, 0);
    assert_eq!(r.drud, DrStatus::CornersEdges { corners: 4, edges: 4 });
    assert_eq!(r.drfb, DrStatus::Done);
    let r = spy.handle(Move::F3);
    assert_eq!(r.drud, DrStatus::Done);
    assert_eq!(spy.stack.to_string(), "");
}

#[test]
fn parse_ignores_padding() {
    let state: Vec<u8> = (0..27u8).map(|x| x.wrapping_mul(31)).collect();
    let msg = message(2, 0x0a0b0c0d, &state);
    let mut padded = msg.clone();
    padded.extend_from_slice(&[0xaa, 0x55, 0x00, 0xff]);
    let a = parse_c2a_message(&msg).unwrap();
    let b = parse_c2a_message(&padded).unwrap();
    assert_eq!(a.raw_timestamp(), b.raw_timestamp());
    assert_eq!(a.make_ack(), b.make_ack());
    // A corrupt byte inside the declared length is noticed, one after it is not.
    let mut bad = padded.clone();
    bad[10] ^= 1;
    assert!(parse_c2a_message(&bad).is_err());
}

#[test]
fn crc_of_data_with_its_checksum_is_zero() {
    for data in [&b""[..], &b"123456789"[..], &[0xfe, 0x09, 0x02, 0x00][..]] {
        let c = crc16(data);
        let mut v = data.to_vec();
        v.extend_from_slice(&c.to_le_bytes());
        assert_eq!(crc16(&v), 0);
    }
}

#[test]
fn turns_are_not_replayed_across_messages() {
    use_new_turns_twice();
}

fn use_new_turns_twice() {
    let h1 = [(libfmc::Move::U, 5u32), (libfmc::Move::R, 3u32)];
    let (t1, last) = libfmc::protocol::new_turns(&h1, (libfmc::Move::F, 7), 0);
    assert_eq!(t1.iter().map(|e| e.1).collect::<Vec<_>>(), vec![3, 5, 7]);
    let prev = last.unwrap_or(0);
    let h2 = [(libfmc::Move::R, 5u32), (libfmc::Move::F, 7u32), (libfmc::Move::D, 8u32)];
    let (t2, _) = libfmc::protocol::new_turns(&h2, (libfmc::Move::L, 9), prev);
    assert_eq!(t2.iter().map(|e| e.1).collect::<Vec<_>>(), vec![8, 9]);
    assert!(t2.iter().all(|b| t1.iter().all(|a| b.1 > a.1)));
}
