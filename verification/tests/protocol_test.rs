use grorm::protocol::myproto::{
    auth_result_step, command_packet, handshake_response, packet, packet_header, read_column_definition,
    read_handshake, read_lenenc, read_row, MyAuthStep, MyQueryState, MyResult, MyStep,
};
use grorm::protocol::pg::{
    authentication_step, body_length, execute_messages, md5_password, password_message, prepare_messages,
    query_message, read_query_result, ready_step, startup_message, PgAuthAction, PgMessage, PgQueryState,
    PgReadyAction, PgResult, PgStep,
};
use grorm::Error;

fn be32(n: i32) -> Vec<u8> {
    n.to_be_bytes().to_vec()
}

fn be16(n: i16) -> Vec<u8> {
    n.to_be_bytes().to_vec()
}

fn msg(tag: u8, body: Vec<u8>) -> PgMessage {
    PgMessage { tag, body }
}

fn row_description(cols: &[(&str, i32)]) -> Vec<u8> {
    let mut b = be16(cols.len() as i16);
    for (name, oid) in cols {
        b.extend_from_slice(name.as_bytes());
        b.push(0);
        b.extend(be32(16384));
        b.extend(be16(1));
        b.extend(be32(*oid));
        b.extend(be16(-1));
        b.extend(be32(-1));
        b.extend(be16(0));
    }
    b
}

fn data_row(vals: &[Option<&str>]) -> Vec<u8> {
    let mut b = be16(vals.len() as i16);
    for v in vals {
        match v {
            Some(s) => {
                b.extend(be32(s.len() as i32));
                b.extend_from_slice(s.as_bytes());
            }
            None => b.extend(be32(-1)),
        }
    }
    b
}

fn protocol_message(e: &Error) -> String {
    match e {
        Error::Protocol(m) => m.clone(),
        _ => panic!("expected a protocol error"),
    }
}

#[test]
fn pg_startup_message_bytes() {
    let m = startup_message("bob", "db1");
    let mut content = be32(196608);
    content.extend_from_slice(b"user\0bob\0database\0db1\0\0");
    let mut expected = be32(content.len() as i32 + 4);
    expected.extend(content);
    assert_eq!(m, expected);
}

#[test]
fn pg_query_and_password_messages() {
    assert_eq!(query_message("SELECT 1"), b"Q\x00\x00\x00\x0dSELECT 1\x00".to_vec());
    assert_eq!(password_message("pw"), b"p\x00\x00\x00\x07pw\x00".to_vec());
}

#[test]
fn pg_prepare_messages_bytes() {
    let m = prepare_messages("s1", "SELECT $1");
    let mut expected = vec![b'P'];
    expected.extend(be32(4 + 3 + 10 + 2));
    expected.extend_from_slice(b"s1\0SELECT $1\0\0\0");
    expected.extend_from_slice(&[b'D', b'S', 0, 0, 0, 0, 6, 0]);
    assert_eq!(m, expected);
}

#[test]
fn pg_execute_messages_bind_nulls_and_values() {
    let params = vec!["42".to_string(), "".to_string(), "NULL".to_string()];
    let m = execute_messages("s1", &params);
    let mut content = vec![0u8];
    content.extend_from_slice(b"s1\0");
    content.extend(be16(0));
    content.extend(be16(3));
    content.extend(be32(2));
    content.extend_from_slice(b"42");
    content.extend(be32(-1));
    content.extend(be32(-1));
    content.extend(be16(0));
    let mut expected = vec![b'B'];
    expected.extend(be32(content.len() as i32 + 4));
    expected.extend(content);
    expected.push(b'E');
    expected.extend(be32(9));
    expected.push(0);
    expected.extend(be32(0));
    expected.push(b'S');
    expected.extend(be32(4));
    assert_eq!(m, expected);
}

#[test]
fn pg_md5_password_known_value() {
    let p = md5_password("alice", "secret", &[1, 2, 3, 4]);
    assert_eq!(p, "md598a0412b9c31436fc53776e863350083");
    assert_eq!(p.len(), 35);
}

#[test]
fn pg_authentication_steps() {
    assert!(matches!(authentication_step(b'R', &be32(0), "u", "p"), PgAuthAction::Authenticated));
    assert!(matches!(authentication_step(b'R', &be32(3), "u", "p"), PgAuthAction::Continue));
    assert!(matches!(authentication_step(b'S', b"a\0b\0", "u", "p"), PgAuthAction::Continue));
    assert!(matches!(authentication_step(b'K', &[0; 8], "u", "p"), PgAuthAction::Continue));
    let mut body = be32(5);
    body.extend_from_slice(&[1, 2, 3, 4]);
    match authentication_step(b'R', &body, "alice", "secret") {
        PgAuthAction::SendPassword(bytes) => {
            assert_eq!(bytes, password_message("md598a0412b9c31436fc53776e863350083"));
        }
        _ => panic!("expected a password message"),
    }
    match authentication_step(b'E', b"FATAL", "u", "p") {
        PgAuthAction::Failed(e) => assert_eq!(protocol_message(&e), "PostgreSQL error: FATAL"),
        _ => panic!("expected a failure"),
    }
    match authentication_step(b'R', &[0, 0], "u", "p") {
        PgAuthAction::Failed(e) => assert_eq!(protocol_message(&e), "malformed PostgreSQL message"),
        _ => panic!("expected a failure"),
    }
    match authentication_step(b'R', &be32(5), "u", "p") {
        PgAuthAction::Failed(e) => assert_eq!(protocol_message(&e), "malformed PostgreSQL message"),
        _ => panic!("expected a failure"),
    }
}

#[test]
fn pg_ready_steps() {
    assert!(matches!(ready_step(b'Z', b"I"), PgReadyAction::Ready));
    assert!(matches!(ready_step(b'S', b"x\0y\0"), PgReadyAction::Continue));
    match ready_step(b'E', b"boom") {
        PgReadyAction::Failed(e) => assert_eq!(protocol_message(&e), "PostgreSQL error: boom"),
        _ => panic!("expected a failure"),
    }
}

#[test]
fn pg_body_length_of_header() {
    assert_eq!(body_length(&be32(13)), Some(9));
    assert_eq!(body_length(&be32(4)), Some(0));
    assert_eq!(body_length(&be32(3)), None);
    assert_eq!(body_length(&be32(-1)), None);
    // The length field of a framed message announces its content.
    let m = query_message("SELECT 1");
    assert_eq!(body_length(&m[1..5]), Some(m.len() - 5));
}

#[test]
fn pg_query_result_rows() {
    let msgs = vec![
        msg(b'T', row_description(&[("id", 23), ("name", 25)])),
        msg(b'D', data_row(&[Some("1"), Some("alice")])),
        msg(b'D', data_row(&[Some("2"), None])),
        msg(b'C', b"SELECT 2\0".to_vec()),
        msg(b'Z', b"I".to_vec()),
        msg(b'D', data_row(&[Some("ignored"), None])),
    ];
    match read_query_result(&msgs) {
        PgStep::Finished(PgResult::Rows(rows, cols)) => {
            assert_eq!(rows, vec![vec!["1".to_string(), "alice".to_string()], vec!["2".to_string(), "NULL".to_string()]]);
            assert_eq!(cols.len(), 2);
            assert_eq!(cols[0].name, "id");
            assert_eq!(cols[0].data_type, 23);
            assert_eq!(cols[0].table_oid, 16384);
            assert_eq!(cols[0].column_attr, 1);
            assert_eq!(cols[0].type_size, -1);
            assert_eq!(cols[0].type_modifier, -1);
            assert_eq!(cols[1].name, "name");
            assert_eq!(cols[1].data_type, 25);
        }
        _ => panic!("expected rows"),
    }
}

#[test]
fn pg_query_result_command_and_empty() {
    let msgs = vec![msg(b'C', b"UPDATE 3\0".to_vec()), msg(b'N', b"notice".to_vec()), msg(b'Z', b"I".to_vec())];
    match read_query_result(&msgs) {
        PgStep::Finished(PgResult::CommandComplete(tag)) => assert_eq!(tag, "UPDATE 3"),
        _ => panic!("expected a command tag"),
    }
    match read_query_result(&[msg(b'Z', b"I".to_vec())]) {
        PgStep::Finished(PgResult::Empty) => {}
        _ => panic!("expected an empty result"),
    }
    match read_query_result(&[msg(b'C', b"BEGIN\0".to_vec())]) {
        PgStep::Continue(_) => {}
        _ => panic!("expected an unfinished answer"),
    }
}

#[test]
fn pg_query_result_errors() {
    match read_query_result(&[msg(b'E', b"SERROR".to_vec()), msg(b'Z', b"I".to_vec())]) {
        PgStep::Failed(e) => assert_eq!(protocol_message(&e), "PostgreSQL error: SERROR"),
        _ => panic!("expected a failure"),
    }
    match read_query_result(&[msg(b'D', vec![0, 2, 0, 0, 0, 9, b'a'])]) {
        PgStep::Failed(e) => assert_eq!(protocol_message(&e), "malformed PostgreSQL message"),
        _ => panic!("expected a failure"),
    }
    match read_query_result(&[msg(b'T', be16(-1))]) {
        PgStep::Failed(e) => assert_eq!(protocol_message(&e), "malformed PostgreSQL message"),
        _ => panic!("expected a failure"),
    }
}

#[test]
fn pg_step_by_step_matches_whole_answer() {
    let st = PgQueryState::new();
    let st = match st.step(b'T', &row_description(&[("n", 20)])) {
        PgStep::Continue(s) => s,
        _ => panic!("expected to continue"),
    };
    let st = match st.step(b'D', &data_row(&[Some("7")])) {
        PgStep::Continue(s) => s,
        _ => panic!("expected to continue"),
    };
    assert_eq!(st.rows, vec![vec!["7".to_string()]]);
    match st.step(b'Z', b"I") {
        PgStep::Finished(PgResult::Rows(rows, cols)) => {
            assert_eq!(rows.len(), 1);
            assert_eq!(cols[0].name, "n");
        }
        _ => panic!("expected rows"),
    }
}

#[test]
fn pg_invalid_utf8_is_replaced() {
    match read_query_result(&[msg(b'D', data_row(&[Some("x")])), msg(b'C', vec![0xff, b'a', 0]), msg(b'Z', vec![b'I'])]) {
        PgStep::Finished(PgResult::CommandComplete(tag)) => assert_eq!(tag, "\u{fffd}a"),
        _ => panic!("expected a command tag"),
    }
}

#[test]
fn my_packet_and_command_bytes() {
    assert_eq!(packet(1, b"abc"), vec![3, 0, 0, 1, b'a', b'b', b'c']);
    assert_eq!(command_packet(0x03, "SELECT 1"), b"\x09\x00\x00\x00\x03SELECT 1".to_vec());
    let p = packet(7, &vec![0u8; 300]);
    assert_eq!(packet_header(&p[..4]), (300, 7));
}

#[test]
fn my_handshake_response_bytes() {
    let m = handshake_response("root", "", "test");
    let mut payload = Vec::new();
    payload.extend_from_slice(&0x0285a2ffu32.to_le_bytes());
    payload.extend_from_slice(&0x21u32.to_le_bytes());
    payload.extend_from_slice(&0u32.to_le_bytes());
    payload.extend_from_slice(&0x21u32.to_le_bytes());
    payload.extend_from_slice(&[0u8; 76]);
    payload.extend_from_slice(b"root\0");
    payload.extend_from_slice(&[1, 0]);
    payload.extend_from_slice(b"test\0mysql_native_password\0");
    assert_eq!(m, packet(1, &payload));

    let m = handshake_response("u", "pw", "");
    let start = 4 + 92 + 2;
    assert_eq!(m[start], 21);
    assert_eq!(m[start + 1], 0x14);
    assert_eq!(&m[start + 2..start + 4], b"pw");
    assert_eq!(&m[start + 4..start + 22], &[0u8; 18]);
    assert_eq!(&m[start + 22..], b"\0mysql_native_password\0");
}

#[test]
fn my_lenenc_values() {
    assert_eq!(read_lenenc(&[0x05], 0), Some((5, 1)));
    assert_eq!(read_lenenc(&[0xfb], 0), Some((0, 1)));
    assert_eq!(read_lenenc(&[0xfc, 0x34, 0x12], 0), Some((0x1234, 3)));
    assert_eq!(read_lenenc(&[0xfd, 1, 2, 3], 0), Some((0x030201, 4)));
    assert_eq!(read_lenenc(&[0xfe, 1, 0, 0, 0, 0, 0, 0, 0x80], 0), Some((0x8000_0000_0000_0001, 9)));
    assert_eq!(read_lenenc(&[0xfc, 0x34], 0), None);
    assert_eq!(read_lenenc(&[], 0), None);
}

#[test]
fn my_auth_result_steps() {
    assert!(matches!(auth_result_step(&[0, 0, 0]), MyAuthStep::Authenticated));
    assert!(matches!(auth_result_step(&[0xfe, 1]), MyAuthStep::Continue));
    match auth_result_step(b"\xff\x15\x04denied") {
        MyAuthStep::Failed(e) => assert_eq!(protocol_message(&e), "MySQL error: denied"),
        _ => panic!("expected a failure"),
    }
    match auth_result_step(&[]) {
        MyAuthStep::Failed(e) => assert_eq!(protocol_message(&e), "malformed MySQL packet"),
        _ => panic!("expected a failure"),
    }
    assert!(read_handshake(&[0u8; 36]).is_ok());
    assert!(read_handshake(&[0u8; 35]).is_err());
}

fn column_def(name: &str, ty: u8, flags: u16) -> Vec<u8> {
    let mut b = vec![b'c'];
    for s in ["def", "db", "t", "t"] {
        b.push(s.len() as u8);
        b.extend_from_slice(s.as_bytes());
    }
    b.push(name.len() as u8);
    b.extend_from_slice(name.as_bytes());
    b.push(name.len() as u8);
    b.extend_from_slice(name.as_bytes());
    b.push(0x0c);
    b.extend_from_slice(&[0x21, 0]);
    b.extend_from_slice(&[11, 0, 0, 0]);
    b.push(ty);
    b.extend_from_slice(&flags.to_le_bytes());
    b.push(0);
    b
}

#[test]
fn my_column_definition_fields() {
    let c = read_column_definition(&column_def("id", 8, 0x4203)).unwrap();
    assert_eq!(c.name, "id");
    assert_eq!(c.data_type, 8);
    assert_eq!(c.flags, 0x4203);
    assert_eq!(c.decimals, 0);
    let mut short = column_def("id", 8, 0);
    short.pop();
    assert!(read_column_definition(&short).is_none());
    assert!(read_column_definition(b"no such byte").is_none());
}

#[test]
fn my_row_values() {
    let row = read_row(&[1, b'7', 0xfb, 3, b'a', b'b', b'c'], 4).unwrap();
    assert_eq!(row, vec!["7".to_string(), "NULL".to_string(), "abc".to_string(), "NULL".to_string()]);
    assert!(read_row(&[5, b'a'], 1).is_none());
}

#[test]
fn my_query_ok_packet() {
    let packets = vec![vec![0x00, 3, 42, 2, 0, 0, 0]];
    match grorm::protocol::myproto::read_query_result(&packets) {
        MyStep::Finished(MyResult::OkPacket(affected, id)) => {
            assert_eq!(affected, 3);
            assert_eq!(id, Some(42));
        }
        _ => panic!("expected an OK packet"),
    }
    match grorm::protocol::myproto::read_query_result(&[vec![0x00, 3, 42]]) {
        MyStep::Failed(e) => assert_eq!(protocol_message(&e), "malformed MySQL packet"),
        _ => panic!("expected a failure"),
    }
}

#[test]
fn my_query_error_packet() {
    match grorm::protocol::myproto::read_query_result(&[b"\xff\x7a\x04no table".to_vec()]) {
        MyStep::Failed(e) => assert_eq!(protocol_message(&e), "MySQL error: no table"),
        _ => panic!("expected a failure"),
    }
}

#[test]
fn my_query_rows() {
    let packets = vec![
        vec![2],
        column_def("id", 3, 0),
        column_def("name", 253, 0),
        vec![0xfe, 0, 0, 2, 0],
        vec![1, b'1', 5, b'a', b'l', b'i', b'c', b'e'],
        vec![1, b'2', 0xfb],
        vec![0xfe, 0, 0, 2, 0],
        vec![1, b'9'],
    ];
    match grorm::protocol::myproto::read_query_result(&packets) {
        MyStep::Finished(MyResult::Rows(rows, cols)) => {
            assert_eq!(cols.len(), 2);
            assert_eq!(cols[0].name, "id");
            assert_eq!(cols[1].name, "name");
            assert_eq!(cols[1].data_type, 253);
            assert_eq!(rows, vec![vec!["1".to_string(), "alice".to_string()], vec!["2".to_string(), "NULL".to_string()]]);
        }
        _ => panic!("expected rows"),
    }
    let st = MyQueryState::new();
    match st.step(&[]) {
        MyStep::Failed(e) => assert_eq!(protocol_message(&e), "malformed MySQL packet"),
        _ => panic!("expected a failure"),
    }
}

#[test]
fn pg_answer_read_in_pieces_equals_whole() {
    let all = vec![
        msg(b'T', row_description(&[("k", 25)])),
        msg(b'D', data_row(&[Some("a")])),
        msg(b'D', data_row(&[Some("b")])),
        msg(b'Z', b"I".to_vec()),
    ];
    let whole = match read_query_result(&all) {
        PgStep::Finished(PgResult::Rows(rows, _)) => rows,
        _ => panic!("expected rows"),
    };
    let mut st = match read_query_result(&[msg(b'T', row_description(&[("k", 25)])), msg(b'D', data_row(&[Some("a")]))]) {
        PgStep::Continue(s) => s,
        _ => panic!("expected an unfinished answer"),
    };
    for m in &all[2..] {
        st = match st.step(m.tag, &m.body) {
            PgStep::Continue(s) => s,
            PgStep::Finished(PgResult::Rows(rows, _)) => {
                assert_eq!(rows, whole);
                return;
            }
            _ => panic!("unexpected outcome"),
        };
    }
    panic!("the answer did not end");
}

#[test]
fn my_packet_length_keeps_low_bits() {
    let big = vec![0u8; 0x100_0001];
    let p = packet(3, &big);
    assert_eq!(&p[..4], &[1, 0, 0, 3]);
    assert_eq!(p.len(), 4 + 0x100_0001);
}
