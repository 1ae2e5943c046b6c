//! The MySQL client/server protocol: the packets the client sends, and what
//! it makes of the packets the server sends back. Reading and writing the
//! socket is left to the caller, which hands every server packet in as its
//! payload (the bytes after the four-byte packet header).
use vstd::prelude::*;
use vstd::utf8::*;
use crate::error::Error;
use super::wire::{byte_from, byte_range, find_byte, latin1, latin1_text, le16_at, le24, le24_at, le32};
use super::wire::{le64_at, lemma_byte_from, lossy_text, push_bytes, push_le24_low, push_le_u32};
use super::wire::{push_str_bytes, read_le_u16, read_le_u24, read_le_u64, utf8_lossy};

verus! {

/// One column of a result set.
#[derive(Debug, Clone)]
pub struct MyColumnInfo {
    pub name: String,
    pub data_type: u8,
    pub flags: u16,
    pub decimals: u8,
}

/// The model of a [`MyColumnInfo`].
pub struct MyColumnModel {
    pub name: Seq<char>,
    pub data_type: u8,
    pub flags: u16,
    pub decimals: u8,
}

impl View for MyColumnInfo {
    type V = MyColumnModel;

    open spec fn view(&self) -> MyColumnModel {
        MyColumnModel { name: self.name@, data_type: self.data_type, flags: self.flags, decimals: self.decimals }
    }
}

/// What a query answered.
pub enum MyResult {
    /// Rows (each value as text, `"NULL"` for SQL `NULL`) and their columns.
    Rows(Vec<Vec<String>>, Vec<MyColumnInfo>),
    /// An OK packet: affected rows and the last inserted id.
    OkPacket(u64, Option<i64>),
    /// An error packet's text.
    ErrPacket(String),
}

/// The model of a [`MyResult`].
pub enum MyResultModel {
    Rows(Seq<Seq<Seq<char>>>, Seq<MyColumnModel>),
    OkPacket(u64, Option<i64>),
    ErrPacket(Seq<char>),
}

/// The texts of rows of strings.
pub open spec fn my_rows_view(rows: Seq<Vec<String>>) -> Seq<Seq<Seq<char>>> {
    rows.map_values(|r: Vec<String>| r@.map_values(|s: String| s@))
}

/// The models of columns.
pub open spec fn my_columns_view(cols: Seq<MyColumnInfo>) -> Seq<MyColumnModel> {
    cols.map_values(|c: MyColumnInfo| c@)
}

impl View for MyResult {
    type V = MyResultModel;

    open spec fn view(&self) -> MyResultModel {
        match self {
            MyResult::Rows(rows, cols) => MyResultModel::Rows(my_rows_view(rows@), my_columns_view(cols@)),
            MyResult::OkPacket(n, id) => MyResultModel::OkPacket(*n, *id),
            MyResult::ErrPacket(m) => MyResultModel::ErrPacket(m@),
        }
    }
}

// ---------------------------------------------------------------------------
// Packets the client sends

/// A packet: the payload length in three little-endian bytes, the sequence
/// number, then the payload.
pub open spec fn spec_packet(seq: u8, payload: Seq<u8>) -> Seq<u8> {
    le24(payload.len()) + seq![seq] + payload
}

/// The packet with sequence number `seq` carrying `payload`; the length
/// field holds the low 24 bits of the payload's length.
pub fn packet(seq: u8, payload: &[u8]) -> (m: Vec<u8>)
    ensures
        m@ == spec_packet(seq, payload@),
{
    let mut m: Vec<u8> = Vec::new();
    push_le24_low(&mut m, payload.len());
    m.push(seq);
    push_bytes(&mut m, payload);
    assert(m@ =~= spec_packet(seq, payload@));
    m
}

/// The payload of a command: the command byte, then the UTF-8 bytes of its
/// argument.
pub open spec fn spec_command(cmd: u8, arg: Seq<char>) -> Seq<u8> {
    seq![cmd] + encode_utf8(arg)
}

/// The command packet (sequence number 0) for `cmd` with `arg`; a query is
/// command `0x03` with the SQL text.
pub fn command_packet(cmd: u8, arg: &str) -> (m: Vec<u8>)
    ensures
        m@ == spec_packet(0, spec_command(cmd, arg@)),
{
    let mut payload: Vec<u8> = Vec::new();
    payload.push(cmd);
    push_str_bytes(&mut payload, arg);
    assert(payload@ =~= spec_command(cmd, arg@));
    packet(0, payload.as_slice())
}

/// The fixed start of the handshake response: capability flags
/// `0x0285a2ff`, maximum packet size `0x21`, a zero word, character set
/// `0x21`, then nineteen zero words, each as four little-endian bytes.
pub open spec fn handshake_head() -> Seq<u8> {
    le32(0x0285a2ff) + le32(0x21) + le32(0) + le32(0x21) + Seq::new(76, |i: int| 0u8)
}

/// The twenty bytes that stand for the password: its first twenty UTF-8
/// bytes, padded with zeros.
pub open spec fn password_bytes(pw: Seq<u8>) -> Seq<u8> {
    Seq::new(20, |i: int| if i < pw.len() { pw[i] } else { 0u8 })
}

/// The authentication response with its length byte: `[1, 0]` for an empty
/// password, else `[21, 0x14]` and the twenty password bytes.
pub open spec fn auth_response(password: Seq<char>) -> Seq<u8> {
    if password.len() == 0 {
        seq![1u8, 0u8]
    } else {
        seq![21u8, 0x14u8] + password_bytes(encode_utf8(password))
    }
}

/// The UTF-8 bytes of `s` followed by a NUL byte.
pub open spec fn my_cstr(s: Seq<char>) -> Seq<u8> {
    encode_utf8(s) + seq![0u8]
}

/// The payload of the handshake response.
pub open spec fn spec_handshake_response(user: Seq<char>, password: Seq<char>, database: Seq<char>) -> Seq<u8> {
    handshake_head() + my_cstr(user) + auth_response(password) + my_cstr(database) + my_cstr(
        "mysql_native_password"@,
    )
}

fn push_my_cstr(buf: &mut Vec<u8>, s: &str)
    ensures
        final(buf)@ == old(buf)@ + my_cstr(s@),
{
    push_str_bytes(buf, s);
    buf.push(0);
}

/// The handshake response packet (sequence number 1).
pub fn handshake_response(username: &str, password: &str, database: &str) -> (m: Vec<u8>)
    ensures
        m@ == spec_packet(1, spec_handshake_response(username@, password@, database@)),
{
    let mut payload: Vec<u8> = Vec::new();
    push_le_u32(&mut payload, 0x0285a2ff);
    push_le_u32(&mut payload, 0x21);
    push_le_u32(&mut payload, 0);
    push_le_u32(&mut payload, 0x21);
    let mut k: usize = 0;
    while k < 76
        invariant
            k <= 76,
            payload@ == le32(0x0285a2ff) + le32(0x21) + le32(0) + le32(0x21) + Seq::new(
                k as nat,
                |i: int| 0u8,
            ),
        decreases 76 - k,
    {
        payload.push(0);
        k = k + 1;
        assert(payload@ =~= le32(0x0285a2ff) + le32(0x21) + le32(0) + le32(0x21) + Seq::new(
            k as nat,
            |i: int| 0u8,
        ));
    }
    push_my_cstr(&mut payload, username);
    let pw = password.as_bytes();
    if pw.len() == 0 {
        payload.push(1);
        payload.push(0);
        proof {
            if password@.len() > 0 {
                encode_utf8_decode_utf8(password@);
            }
        }
    } else {
        payload.push(21);
        payload.push(0x14);
        let mut i: usize = 0;
        let ghost at = payload@;
        while i < 20
            invariant
                i <= 20,
                pw@ == encode_utf8(password@),
                payload@ == at + password_bytes(pw@).take(i as int),
            decreases 20 - i,
        {
            if i < pw.len() {
                payload.push(pw[i]);
            } else {
                payload.push(0);
            }
            i = i + 1;
            assert(payload@ =~= at + password_bytes(pw@).take(i as int));
        }
        proof {
            assert(password_bytes(pw@).take(20) =~= password_bytes(pw@));
            if password@.len() == 0 {
                assert(encode_utf8(password@) =~= Seq::<u8>::empty());
            }
        }
    }
    push_my_cstr(&mut payload, database);
    push_my_cstr(&mut payload, "mysql_native_password");
    assert(payload@ =~= spec_handshake_response(username@, password@, database@));
    packet(1, payload.as_slice())
}

// ---------------------------------------------------------------------------
// Packets the server sends

/// The payload length and sequence number announced by a packet header.
pub fn packet_header(header: &[u8]) -> (r: (u32, u8))
    requires
        header@.len() >= 4,
    ensures
        r.0 == le24_at(header@, 0),
        r.1 == header@[3],
{
    (read_le_u24(header, 0), header[3])
}

/// The error text for a packet that is shorter than its fields.
pub open spec fn spec_my_malformed() -> Seq<char> {
    "malformed MySQL packet"@
}

fn my_malformed() -> (e: Error)
    ensures
        e matches Error::Protocol(m) && m@ == spec_my_malformed(),
{
    Error::Protocol(String::from_str("malformed MySQL packet"))
}

/// The error text for an error packet: its bytes after the header byte and
/// the two-byte code, each read as a Latin-1 character.
pub open spec fn spec_my_server_error(p: Seq<u8>) -> Seq<char> {
    "MySQL error: "@ + latin1(p.subrange(3, p.len() as int))
}

fn my_server_error(p: &[u8]) -> (e: Error)
    requires
        p@.len() >= 3,
    ensures
        e matches Error::Protocol(m) && m@ == spec_my_server_error(p@),
{
    let mut m = String::from_str("MySQL error: ");
    let t = latin1_text(p, 3);
    crate::text::push_str(&mut m, t.as_str());
    Error::Protocol(m)
}

/// Whether the server's greeting is long enough to read (36 bytes at least).
pub open spec fn handshake_ok(p: Seq<u8>) -> bool {
    p.len() >= 36
}

/// Checks the server's greeting: the client reads its fixed fields and
/// passes over the rest.
pub fn read_handshake(payload: &[u8]) -> (r: Result<(), Error>)
    ensures
        r is Ok <==> handshake_ok(payload@),
        r matches Err(e) ==> (e matches Error::Protocol(m) && m@ == spec_my_malformed()),
{
    if payload.len() < 36 {
        Err(my_malformed())
    } else {
        Ok(())
    }
}

/// What the client does after a packet of the authentication result.
pub enum MyAuthStep {
    /// Read the next packet.
    Continue,
    /// Authentication succeeded.
    Authenticated,
    /// The server refused, or sent a malformed packet.
    Failed(Error),
}

/// The authentication result: an OK packet (`0x00`) succeeds, an error
/// packet (`0xFF`) fails, any other packet is passed over.
pub open spec fn auth_result_matches(a: MyAuthStep, p: Seq<u8>) -> bool {
    if p.len() == 0 {
        a matches MyAuthStep::Failed(e) && (e matches Error::Protocol(m) && m@ == spec_my_malformed())
    } else if p[0] == 0x00 {
        a is Authenticated
    } else if p[0] == 0xFF {
        if p.len() < 3 {
            a matches MyAuthStep::Failed(e) && (e matches Error::Protocol(m) && m@ == spec_my_malformed())
        } else {
            a matches MyAuthStep::Failed(e) && (e matches Error::Protocol(m) && m@ == spec_my_server_error(p))
        }
    } else {
        a is Continue
    }
}

/// What to do after the authentication-result packet `payload`.
pub fn auth_result_step(payload: &[u8]) -> (a: MyAuthStep)
    ensures
        auth_result_matches(a, payload@),
{
    if payload.len() == 0 {
        MyAuthStep::Failed(my_malformed())
    } else if payload[0] == 0x00 {
        MyAuthStep::Authenticated
    } else if payload[0] == 0xFF {
        if payload.len() < 3 {
            MyAuthStep::Failed(my_malformed())
        } else {
            MyAuthStep::Failed(my_server_error(payload))
        }
    } else {
        MyAuthStep::Continue
    }
}

/// The length-encoded integer at `pos` and the position after it: `0xFB`
/// reads as 0, `0xFC`, `0xFD` and `0xFE` announce two, three and eight
/// little-endian bytes, any other byte is its own value.
pub open spec fn lenenc_at(b: Seq<u8>, pos: int) -> Option<(nat, int)> {
    if pos < 0 || pos >= b.len() {
        None
    } else if b[pos] == 0xFB {
        Some((0, pos + 1))
    } else if b[pos] == 0xFC {
        if pos + 3 > b.len() {
            None
        } else {
            Some((le16_at(b, pos + 1), pos + 3))
        }
    } else if b[pos] == 0xFD {
        if pos + 4 > b.len() {
            None
        } else {
            Some((le24_at(b, pos + 1), pos + 4))
        }
    } else if b[pos] == 0xFE {
        if pos + 9 > b.len() {
            None
        } else {
            Some((le64_at(b, pos + 1), pos + 9))
        }
    } else {
        Some((b[pos] as nat, pos + 1))
    }
}

/// The length-encoded integer at `pos` and the position after it.
pub fn read_lenenc(b: &[u8], pos: usize) -> (r: Option<(u64, usize)>)
    ensures
        match r {
            Some((v, next)) => lenenc_at(b@, pos as int) == Some((v as nat, next as int)),
            None => lenenc_at(b@, pos as int) is None,
        },
{
    if pos >= b.len() {
        return None;
    }
    let first = b[pos];
    let rest = b.len() - pos;
    if first == 0xFB {
        Some((0, pos + 1))
    } else if first == 0xFC {
        if rest < 3 {
            None
        } else {
            Some((read_le_u16(b, pos + 1) as u64, pos + 3))
        }
    } else if first == 0xFD {
        if rest < 4 {
            None
        } else {
            Some((read_le_u24(b, pos + 1) as u64, pos + 4))
        }
    } else if first == 0xFE {
        if rest < 9 {
            None
        } else {
            Some((read_le_u64(b, pos + 1), pos + 9))
        }
    } else {
        Some((first as u64, pos + 1))
    }
}

/// The column of a column-definition packet, read the way the client reads
/// it: from the first `'c'` byte on it skips four length-prefixed strings,
/// reads the length-prefixed name, skips one more string and one byte, the
/// two-byte character set and the four-byte length, then reads the type
/// byte, the two flag bytes and the decimals byte. `None` when a read falls
/// outside the packet.
pub open spec fn spec_column_def(b: Seq<u8>) -> Option<MyColumnModel> {
    let c = match byte_from(b, 0x63, 0) {
        Some(i) => i,
        None => b.len() as int,
    };
    let p1 = c + 1;
    if p1 >= b.len() {
        None
    } else {
        let p2 = p1 + 1 + b[p1];
        if p2 >= b.len() {
            None
        } else {
            let p3 = p2 + 1 + b[p2];
            if p3 >= b.len() {
                None
            } else {
                let p4 = p3 + 1 + b[p3];
                if p4 >= b.len() {
                    None
                } else {
                    let p5 = p4 + 1 + b[p4];
                    if p5 >= b.len() {
                        None
                    } else {
                        let p6 = p5 + 1;
                        let p7 = p6 + b[p5];
                        if p7 >= b.len() {
                            None
                        } else {
                            let p9 = p7 + 1 + b[p7] + 1;
                            if p9 + 10 > b.len() {
                                None
                            } else {
                                Some(
                                    MyColumnModel {
                                        name: utf8_lossy(b.subrange(p6, p7)),
                                        data_type: b[p9 + 6],
                                        flags: le16_at(b, p9 + 7) as u16,
                                        decimals: b[p9 + 9],
                                    },
                                )
                            }
                        }
                    }
                }
            }
        }
    }
}

/// The position after the length-prefixed string at `p`, if `p` is inside
/// `b` and the position after is too.
fn skip_counted(b: &[u8], p: usize) -> (r: Option<usize>)
    ensures
        match r {
            Some(q) => p < b@.len() && q == p + 1 + b@[p as int] && q < b@.len(),
            None => p >= b@.len() || p + 1 + b@[p as int] >= b@.len(),
        },
{
    if p >= b.len() {
        return None;
    }
    let n = b[p] as usize;
    if b.len() - p <= 1 + n {
        None
    } else {
        Some(p + 1 + n)
    }
}

/// The column of a column-definition packet.
pub fn read_column_definition(b: &[u8]) -> (r: Option<MyColumnInfo>)
    ensures
        match r {
            Some(c) => spec_column_def(b@) == Some(c@),
            None => spec_column_def(b@) is None,
        },
{
    let c = match find_byte(b, 0x63, 0) {
        Some(i) => i,
        None => b.len(),
    };
    proof {
        lemma_byte_from(b@, 0x63, 0);
    }
    if c >= b.len() {
        return None;
    }
    let p1 = c + 1;
    let p2 = match skip_counted(b, p1) {
        Some(q) => q,
        None => {
            return None;
        },
    };
    let p3 = match skip_counted(b, p2) {
        Some(q) => q,
        None => {
            return None;
        },
    };
    let p4 = match skip_counted(b, p3) {
        Some(q) => q,
        None => {
            return None;
        },
    };
    let p5 = match skip_counted(b, p4) {
        Some(q) => q,
        None => {
            return None;
        },
    };
    let p6 = p5 + 1;
    let name_len = b[p5] as usize;
    if b.len() - p6 <= name_len {
        return None;
    }
    let p7 = p6 + name_len;
    let org_len = b[p7] as usize;
    if b.len() - p7 < 12 + org_len {
        return None;
    }
    let p9 = p7 + 1 + org_len + 1;
    let name = lossy_text(byte_range(b, p6, p7).as_slice());
    let col = MyColumnInfo {
        name,
        data_type: b[p9 + 6],
        flags: read_le_u16(b, p9 + 7),
        decimals: b[p9 + 9],
    };
    Some(col)
}

/// `n` more values of a row read from `pos` on, after those in `acc`: a
/// length byte below 251 and that many bytes, a larger length byte for
/// `NULL`, and `NULL` for each value past the end of the packet. `None` when
/// a value runs past the end.
pub open spec fn spec_row_values(b: Seq<u8>, pos: int, n: nat, acc: Seq<Seq<char>>) -> Option<Seq<Seq<char>>>
    decreases n,
{
    if n == 0 {
        Some(acc)
    } else if pos >= b.len() {
        spec_row_values(b, pos, (n - 1) as nat, acc.push("NULL"@))
    } else if b[pos] < 251 {
        if pos + 1 + b[pos] > b.len() {
            None
        } else {
            spec_row_values(
                b,
                pos + 1 + b[pos],
                (n - 1) as nat,
                acc.push(utf8_lossy(b.subrange(pos + 1, pos + 1 + b[pos]))),
            )
        }
    } else {
        spec_row_values(b, pos + 1, (n - 1) as nat, acc.push("NULL"@))
    }
}

/// The texts of strings.
pub open spec fn my_texts(v: Seq<String>) -> Seq<Seq<char>> {
    v.map_values(|s: String| s@)
}

/// The values of the row packet `b` for `n` columns.
pub fn read_row(b: &[u8], n: usize) -> (r: Option<Vec<String>>)
    ensures
        match r {
            Some(v) => spec_row_values(b@, 0, n as nat, Seq::empty()) == Some(my_texts(v@)),
            None => spec_row_values(b@, 0, n as nat, Seq::empty()) is None,
        },
{
    let mut vals: Vec<String> = Vec::new();
    let mut pos: usize = 0;
    let mut i: usize = 0;
    assert(my_texts(vals@) =~= Seq::<Seq<char>>::empty());
    while i < n
        invariant
            i <= n,
            pos <= b@.len(),
            spec_row_values(b@, 0, n as nat, Seq::empty()) == spec_row_values(
                b@,
                pos as int,
                (n - i) as nat,
                my_texts(vals@),
            ),
        decreases n - i,
    {
        let ghost before = my_texts(vals@);
        if pos >= b.len() {
            vals.push(String::from_str("NULL"));
            assert(my_texts(vals@) =~= before.push("NULL"@));
        } else {
            let len = b[pos] as usize;
            if len < 251 {
                if b.len() - pos - 1 < len {
                    return None;
                }
                let t = lossy_text(byte_range(b, pos + 1, pos + 1 + len).as_slice());
                vals.push(t);
                assert(my_texts(vals@) =~= before.push(utf8_lossy(b@.subrange(pos + 1, pos + 1 + len))));
                pos = pos + 1 + len;
            } else {
                vals.push(String::from_str("NULL"));
                assert(my_texts(vals@) =~= before.push("NULL"@));
                pos = pos + 1;
            }
        }
        i = i + 1;
    }
    Some(vals)
}

// ---------------------------------------------------------------------------
// The answer to a query

/// Where the client is in the answer to a query.
#[derive(PartialEq, Eq, Structural, Clone, Copy)]
pub enum MyPhase {
    /// Before the first packet.
    Start,
    /// Reading column definitions.
    Columns,
    /// Expecting the end-of-columns packet.
    Eof,
    /// Reading rows.
    Rows,
}

/// What has been read of an answer so far.
pub struct MyQueryState {
    pub phase: MyPhase,
    /// Column definitions still to come.
    pub remaining: u64,
    pub columns: Vec<MyColumnInfo>,
    pub rows: Vec<Vec<String>>,
}

/// The model of a [`MyQueryState`].
pub struct MyQueryModel {
    pub phase: MyPhase,
    pub remaining: nat,
    pub columns: Seq<MyColumnModel>,
    pub rows: Seq<Seq<Seq<char>>>,
}

impl View for MyQueryState {
    type V = MyQueryModel;

    open spec fn view(&self) -> MyQueryModel {
        MyQueryModel {
            phase: self.phase,
            remaining: self.remaining as nat,
            columns: my_columns_view(self.columns@),
            rows: my_rows_view(self.rows@),
        }
    }
}

/// The state before the first packet of an answer.
pub open spec fn spec_my_start() -> MyQueryModel {
    MyQueryModel { phase: MyPhase::Start, remaining: 0, columns: Seq::empty(), rows: Seq::empty() }
}

/// The outcome of one packet of an answer.
pub enum MyStepModel {
    Continue(MyQueryModel),
    Finished(MyResultModel),
    Failed(Seq<char>),
}

/// The OK packet `p`: affected rows and the last inserted id, both
/// length-encoded after the header byte, then two status and two warning
/// bytes.
pub open spec fn spec_ok_packet(p: Seq<u8>) -> MyStepModel {
    match lenenc_at(p, 1) {
        None => MyStepModel::Failed(spec_my_malformed()),
        Some((affected, q)) => match lenenc_at(p, q) {
            None => MyStepModel::Failed(spec_my_malformed()),
            Some((id, r)) => if r + 4 > p.len() {
                MyStepModel::Failed(spec_my_malformed())
            } else {
                MyStepModel::Finished(MyResultModel::OkPacket(affected as u64, Some(id as i64)))
            },
        },
    }
}

/// One packet of the answer to a query. The first is an OK packet, an error
/// packet, or the number of columns; then come the column definitions, one
/// end-of-columns packet, and the rows, up to a packet shorter than nine
/// bytes that starts with `0xFE`.
pub open spec fn spec_my_step(st: MyQueryModel, p: Seq<u8>) -> MyStepModel {
    match st.phase {
        MyPhase::Start => if p.len() == 0 {
            MyStepModel::Failed(spec_my_malformed())
        } else if p[0] == 0x00 {
            spec_ok_packet(p)
        } else if p[0] == 0xFF {
            if p.len() < 3 {
                MyStepModel::Failed(spec_my_malformed())
            } else {
                MyStepModel::Failed(spec_my_server_error(p))
            }
        } else {
            match lenenc_at(p, 0) {
                None => MyStepModel::Failed(spec_my_malformed()),
                Some((n, _)) => MyStepModel::Continue(
                    MyQueryModel {
                        phase: if n == 0 { MyPhase::Eof } else { MyPhase::Columns },
                        remaining: n,
                        columns: st.columns,
                        rows: st.rows,
                    },
                ),
            }
        },
        MyPhase::Columns => match spec_column_def(p) {
            None => MyStepModel::Failed(spec_my_malformed()),
            Some(c) => MyStepModel::Continue(
                MyQueryModel {
                    phase: if st.remaining <= 1 { MyPhase::Eof } else { MyPhase::Columns },
                    remaining: if st.remaining == 0 { 0 } else { (st.remaining - 1) as nat },
                    columns: st.columns.push(c),
                    rows: st.rows,
                },
            ),
        },
        MyPhase::Eof => MyStepModel::Continue(
            MyQueryModel { phase: MyPhase::Rows, remaining: st.remaining, columns: st.columns, rows: st.rows },
        ),
        MyPhase::Rows => if p.len() == 0 {
            MyStepModel::Failed(spec_my_malformed())
        } else if p.len() < 9 && p[0] == 0xFE {
            MyStepModel::Finished(MyResultModel::Rows(st.rows, st.columns))
        } else {
            match spec_row_values(p, 0, st.columns.len(), Seq::empty()) {
                None => MyStepModel::Failed(spec_my_malformed()),
                Some(row) => MyStepModel::Continue(
                    MyQueryModel { phase: st.phase, remaining: st.remaining, columns: st.columns, rows: st.rows.push(row) },
                ),
            }
        },
    }
}

/// The outcome of reading an answer packet by packet.
pub enum MyStep {
    /// The answer goes on.
    Continue(MyQueryState),
    /// The answer is complete.
    Finished(MyResult),
    /// The server sent an error, or a malformed packet.
    Failed(Error),
}

/// Whether `r` is the outcome modelled by `m`.
pub open spec fn my_step_matches(r: MyStep, m: MyStepModel) -> bool {
    match m {
        MyStepModel::Continue(st) => r matches MyStep::Continue(s) && s@ == st,
        MyStepModel::Finished(res) => r matches MyStep::Finished(x) && x@ == res,
        MyStepModel::Failed(msg) => r matches MyStep::Failed(e) && (e matches Error::Protocol(t) && t@ == msg),
    }
}

fn ok_packet(p: &[u8]) -> (r: MyStep)
    ensures
        my_step_matches(r, spec_ok_packet(p@)),
{
    match read_lenenc(p, 1) {
        None => MyStep::Failed(my_malformed()),
        Some((affected, q)) => match read_lenenc(p, q) {
            None => MyStep::Failed(my_malformed()),
            Some((id, r)) => {
                if p.len() - r < 4 {
                    MyStep::Failed(my_malformed())
                } else {
                    MyStep::Finished(MyResult::OkPacket(affected, Some(id as i64)))
                }
            },
        },
    }
}

impl MyQueryState {
    /// The state before the first packet of an answer.
    pub fn new() -> (s: Self)
        ensures
            s@ == spec_my_start(),
    {
        let s = MyQueryState { phase: MyPhase::Start, remaining: 0, columns: Vec::new(), rows: Vec::new() };
        assert(s@.columns =~= Seq::<MyColumnModel>::empty());
        assert(s@.rows =~= Seq::<Seq<Seq<char>>>::empty());
        s
    }

    /// Takes in the packet `payload`.
    pub fn step(self, payload: &[u8]) -> (r: MyStep)
        ensures
            my_step_matches(r, spec_my_step(self@, payload@)),
    {
        let mut st = self;
        match st.phase {
            MyPhase::Start => {
                if payload.len() == 0 {
                    MyStep::Failed(my_malformed())
                } else if payload[0] == 0x00 {
                    ok_packet(payload)
                } else if payload[0] == 0xFF {
                    if payload.len() < 3 {
                        MyStep::Failed(my_malformed())
                    } else {
                        MyStep::Failed(my_server_error(payload))
                    }
                } else {
                    match read_lenenc(payload, 0) {
                        None => MyStep::Failed(my_malformed()),
                        Some((n, _)) => {
                            st.phase = if n == 0 { MyPhase::Eof } else { MyPhase::Columns };
                            st.remaining = n;
                            MyStep::Continue(st)
                        },
                    }
                }
            },
            MyPhase::Columns => match read_column_definition(payload) {
                None => MyStep::Failed(my_malformed()),
                Some(c) => {
                    let ghost before = my_columns_view(st.columns@);
                    st.columns.push(c);
                    assert(my_columns_view(st.columns@) =~= before.push(c@));
                    st.phase = if st.remaining <= 1 { MyPhase::Eof } else { MyPhase::Columns };
                    st.remaining = if st.remaining == 0 { 0 } else { st.remaining - 1 };
                    MyStep::Continue(st)
                },
            },
            MyPhase::Eof => {
                st.phase = MyPhase::Rows;
                MyStep::Continue(st)
            },
            MyPhase::Rows => {
                if payload.len() == 0 {
                    MyStep::Failed(my_malformed())
                } else if payload.len() < 9 && payload[0] == 0xFE {
                    MyStep::Finished(MyResult::Rows(st.rows, st.columns))
                } else {
                    match read_row(payload, st.columns.len()) {
                        None => MyStep::Failed(my_malformed()),
                        Some(row) => {
                            let ghost before = my_rows_view(st.rows@);
                            st.rows.push(row);
                            assert(my_rows_view(st.rows@) =~= before.push(my_texts(row@)));
                            MyStep::Continue(st)
                        },
                    }
                }
            },
        }
    }
}

/// Reading the packets `ps` in order from the state `st`, up to the one
/// that ends the answer.
pub open spec fn spec_my_run(st: MyQueryModel, ps: Seq<Seq<u8>>) -> MyStepModel
    decreases ps.len(),
{
    if ps.len() == 0 {
        MyStepModel::Continue(st)
    } else {
        match spec_my_step(st, ps[0]) {
            MyStepModel::Continue(next) => spec_my_run(next, ps.drop_first()),
            other => other,
        }
    }
}

/// The payloads of packets.
pub open spec fn payloads_view(ps: Seq<Vec<u8>>) -> Seq<Seq<u8>> {
    ps.map_values(|p: Vec<u8>| p@)
}

/// The answer to a query, read from the server's packets in order: the
/// packets after the one that ends it are not read, and `Continue` means
/// that none ended it.
pub fn read_query_result(packets: &[Vec<u8>]) -> (r: MyStep)
    ensures
        my_step_matches(r, spec_my_run(spec_my_start(), payloads_view(packets@))),
{
    let ghost all = payloads_view(packets@);
    let mut st = MyQueryState::new();
    let mut i: usize = 0;
    assert(all.subrange(0, all.len() as int) =~= all);
    while i < packets.len()
        invariant
            i <= packets@.len(),
            all == payloads_view(packets@),
            spec_my_run(spec_my_start(), all) == spec_my_run(st@, all.subrange(i as int, all.len() as int)),
        decreases packets@.len() - i,
    {
        let ghost rest = all.subrange(i as int, all.len() as int);
        assert(rest[0] == packets@[i as int]@);
        assert(rest.drop_first() =~= all.subrange(i + 1, all.len() as int));
        match st.step(packets[i].as_slice()) {
            MyStep::Continue(next) => {
                st = next;
            },
            other => {
                return other;
            },
        }
        i = i + 1;
    }
    assert(all.subrange(i as int, all.len() as int) =~= Seq::<Seq<u8>>::empty());
    MyStep::Continue(st)
}

} // verus!
