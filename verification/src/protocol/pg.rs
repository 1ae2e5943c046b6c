//! The PostgreSQL frontend/backend protocol, version 3.0: the messages the
//! client sends, and what it makes of each message the server sends back.
//! Reading and writing the socket is left to the caller, which hands every
//! server message in as its type byte and its body (the bytes after the
//! length field).
use vstd::prelude::*;
use vstd::utf8::*;
use md5::Digest;
use crate::error::Error;
use crate::hexenc::{spec_hex, hex_string};
use super::wire::{be16, be32, be_i16, be_i16_at, be_i32, be_i32_at, byte_range, find_zero, lemma_zero_from};
use super::wire::{lossy_text, push_be16_low, push_be32_low, push_be_i16, push_be_i32, push_bytes, push_str_bytes};
use super::wire::{read_be_i16};
use super::wire::{read_be_i32, utf8_lossy, zero_from};

verus! {

/// The protocol version sent in the startup message (3.0).
pub const PG_PROTOCOL_VERSION: i32 = 196608;

/// One column of a row description.
#[derive(Debug, Clone)]
pub struct PgColumnInfo {
    pub name: String,
    pub table_oid: i32,
    pub column_attr: i16,
    pub data_type: i32,
    pub type_size: i16,
    pub type_modifier: i32,
    pub format_code: i16,
}

/// The model of a [`PgColumnInfo`].
pub struct PgColumnModel {
    pub name: Seq<char>,
    pub table_oid: int,
    pub column_attr: int,
    pub data_type: int,
    pub type_size: int,
    pub type_modifier: int,
    pub format_code: int,
}

impl View for PgColumnInfo {
    type V = PgColumnModel;

    open spec fn view(&self) -> PgColumnModel {
        PgColumnModel {
            name: self.name@,
            table_oid: self.table_oid as int,
            column_attr: self.column_attr as int,
            data_type: self.data_type as int,
            type_size: self.type_size as int,
            type_modifier: self.type_modifier as int,
            format_code: self.format_code as int,
        }
    }
}

/// What a query answered.
pub enum PgResult {
    /// Rows (each value as text, `"NULL"` for SQL `NULL`) and their columns.
    Rows(Vec<Vec<String>>, Vec<PgColumnInfo>),
    /// The command tag of a statement that returned no rows.
    CommandComplete(String),
    /// Neither rows nor a command tag.
    Empty,
}

/// The model of a [`PgResult`].
pub enum PgResultModel {
    Rows(Seq<Seq<Seq<char>>>, Seq<PgColumnModel>),
    CommandComplete(Seq<char>),
    Empty,
}

/// The texts of rows of strings.
pub open spec fn rows_view(rows: Seq<Vec<String>>) -> Seq<Seq<Seq<char>>> {
    rows.map_values(|r: Vec<String>| r@.map_values(|s: String| s@))
}

/// The models of columns.
pub open spec fn columns_view(cols: Seq<PgColumnInfo>) -> Seq<PgColumnModel> {
    cols.map_values(|c: PgColumnInfo| c@)
}

impl View for PgResult {
    type V = PgResultModel;

    open spec fn view(&self) -> PgResultModel {
        match self {
            PgResult::Rows(rows, cols) => PgResultModel::Rows(rows_view(rows@), columns_view(cols@)),
            PgResult::CommandComplete(tag) => PgResultModel::CommandComplete(tag@),
            PgResult::Empty => PgResultModel::Empty,
        }
    }
}

// ---------------------------------------------------------------------------
// Messages the client sends

/// A message without a type byte: its length (itself included, as the
/// four big-endian bytes of the low 32 bits), then `content`.
pub open spec fn spec_frame(content: Seq<u8>) -> Seq<u8> {
    be32(content.len() + 4) + content
}

/// A message: its type byte, its length, then `content`.
pub open spec fn spec_tagged(tag: u8, content: Seq<u8>) -> Seq<u8> {
    seq![tag] + spec_frame(content)
}

/// The UTF-8 bytes of `s` followed by a NUL byte.
pub open spec fn cstr(s: Seq<char>) -> Seq<u8> {
    encode_utf8(s) + seq![0u8]
}

/// The content of the startup message.
pub open spec fn spec_startup_content(user: Seq<char>, database: Seq<char>) -> Seq<u8> {
    be_i32(PG_PROTOCOL_VERSION as int) + cstr("user"@) + cstr(user) + cstr("database"@) + cstr(database)
        + seq![0u8]
}

/// Whether a message with `n` content bytes can be counted in memory: its
/// length, with the four bytes of the length field, fits a `usize`.
pub open spec fn fits_frame(n: int) -> bool {
    n + 4 <= usize::MAX
}

fn push_cstr(buf: &mut Vec<u8>, s: &str)
    ensures
        final(buf)@ == old(buf)@ + cstr(s@),
{
    push_str_bytes(buf, s);
    buf.push(0);
}

/// Frames `content`: its length (itself included) then the content.
fn push_frame(buf: &mut Vec<u8>, content: &Vec<u8>)
    requires
        fits_frame(content@.len() as int),
    ensures
        final(buf)@ == old(buf)@ + spec_frame(content@),
{
    push_be32_low(buf, content.len() + 4);
    push_bytes(buf, content.as_slice());
    assert(final(buf)@ =~= old(buf)@ + spec_frame(content@));
}

/// The startup message for `username` and `database`.
pub fn startup_message(username: &str, database: &str) -> (m: Vec<u8>)
    requires
        fits_frame(spec_startup_content(username@, database@).len() as int),
    ensures
        m@ == spec_frame(spec_startup_content(username@, database@)),
{
    let mut content: Vec<u8> = Vec::new();
    push_be_i32(&mut content, PG_PROTOCOL_VERSION);
    push_cstr(&mut content, "user");
    push_cstr(&mut content, username);
    push_cstr(&mut content, "database");
    push_cstr(&mut content, database);
    content.push(0);
    assert(content@ =~= spec_startup_content(username@, database@));
    let mut m: Vec<u8> = Vec::new();
    push_frame(&mut m, &content);
    assert(m@ =~= spec_frame(content@));
    m
}

/// A message of type `tag` whose content is `text` and a NUL byte (the
/// password and the simple-query messages).
pub open spec fn spec_text_message(tag: u8, text: Seq<char>) -> Seq<u8> {
    spec_tagged(tag, cstr(text))
}

fn text_message(tag: u8, text: &str) -> (m: Vec<u8>)
    requires
        fits_frame(cstr(text@).len() as int),
    ensures
        m@ == spec_text_message(tag, text@),
{
    let mut content: Vec<u8> = Vec::new();
    push_cstr(&mut content, text);
    let mut m: Vec<u8> = Vec::new();
    m.push(tag);
    push_frame(&mut m, &content);
    assert(m@ =~= spec_text_message(tag, text@));
    m
}

/// The password message (`'p'`) carrying `password`.
pub fn password_message(password: &str) -> (m: Vec<u8>)
    requires
        fits_frame(cstr(password@).len() as int),
    ensures
        m@ == spec_text_message(0x70, password@),
{
    text_message(0x70, password)
}

/// The simple-query message (`'Q'`) carrying `sql`.
pub fn query_message(sql: &str) -> (m: Vec<u8>)
    requires
        fits_frame(cstr(sql@).len() as int),
    ensures
        m@ == spec_text_message(0x51, sql@),
{
    text_message(0x51, sql)
}

/// The messages that prepare the statement `name`: a Parse message (`'P'`)
/// with no parameter types, then the bytes `'D' 'S' 0`, the length 6 and a
/// NUL byte.
pub open spec fn spec_prepare_messages(name: Seq<char>, sql: Seq<char>) -> Seq<u8> {
    spec_tagged(0x50, cstr(name) + cstr(sql) + be_i16(0)) + seq![0x44u8, 0x53u8, 0u8] + be_i32(6)
        + seq![0u8]
}

/// The messages that prepare the statement `name` as `sql`.
pub fn prepare_messages(name: &str, sql: &str) -> (m: Vec<u8>)
    requires
        fits_frame(cstr(name@).len() + cstr(sql@).len() + 2int),
    ensures
        m@ == spec_prepare_messages(name@, sql@),
{
    let mut content: Vec<u8> = Vec::new();
    push_cstr(&mut content, name);
    push_cstr(&mut content, sql);
    push_be_i16(&mut content, 0);
    let mut m: Vec<u8> = Vec::new();
    m.push(0x50);
    push_frame(&mut m, &content);
    m.push(0x44);
    m.push(0x53);
    m.push(0);
    push_be_i32(&mut m, 6);
    m.push(0);
    assert(m@ =~= spec_prepare_messages(name@, sql@));
    m
}

/// Whether a parameter is sent as SQL `NULL`: it is empty or `"NULL"`.
pub open spec fn is_null_param(p: Seq<char>) -> bool {
    p.len() == 0 || p == "NULL"@
}

/// The bytes of one Bind parameter: length `-1` for `NULL`, else the length
/// of its UTF-8 bytes and the bytes.
pub open spec fn spec_bind_param(p: Seq<char>) -> Seq<u8> {
    if is_null_param(p) {
        be_i32(-1)
    } else {
        be32(encode_utf8(p).len()) + encode_utf8(p)
    }
}

/// The Bind parameters, in order.
pub open spec fn spec_bind_params(ps: Seq<Seq<char>>) -> Seq<u8>
    decreases ps.len(),
{
    if ps.len() == 0 {
        Seq::empty()
    } else {
        spec_bind_params(ps.drop_last()) + spec_bind_param(ps.last())
    }
}

/// The content of the Bind message for statement `name`: unnamed portal, no
/// format codes, the parameters, no result format codes.
pub open spec fn spec_bind_content(name: Seq<char>, ps: Seq<Seq<char>>) -> Seq<u8> {
    seq![0u8] + cstr(name) + be_i16(0) + be16(ps.len()) + spec_bind_params(ps) + be_i16(0)
}

/// Bind (`'B'`), Execute (`'E'`, unnamed portal, no row limit) and Sync
/// (`'S'`).
pub open spec fn spec_execute_messages(name: Seq<char>, ps: Seq<Seq<char>>) -> Seq<u8> {
    spec_tagged(0x42, spec_bind_content(name, ps)) + spec_tagged(0x45, seq![0u8] + be_i32(0))
        + seq![0x53u8] + be_i32(4)
}

/// The texts of strings.
pub open spec fn texts(v: Seq<String>) -> Seq<Seq<char>> {
    v.map_values(|s: String| s@)
}

fn is_null_text(p: &str) -> (r: bool)
    ensures
        r == is_null_param(p@),
{
    let cs = crate::text::chars_of(p);
    if cs.len() == 0 {
        return true;
    }
    let n = crate::text::chars_of("NULL");
    let r = crate::text::chars_eq(cs.as_slice(), n.as_slice());
    r
}

/// The messages that run the prepared statement `name` with `params`.
pub fn execute_messages(name: &str, params: &[String]) -> (m: Vec<u8>)
    requires
        fits_frame(spec_bind_content(name@, texts(params@)).len() as int),
    ensures
        m@ == spec_execute_messages(name@, texts(params@)),
{
    let mut content: Vec<u8> = Vec::new();
    content.push(0);
    push_cstr(&mut content, name);
    push_be_i16(&mut content, 0);
    push_be16_low(&mut content, params.len());
    let ghost head = content@;
    let mut i: usize = 0;
    while i < params.len()
        invariant
            i <= params@.len(),
            content@ == head + spec_bind_params(texts(params@).subrange(0, i as int)),
            fits_frame(spec_bind_content(name@, texts(params@)).len() as int),
            head == seq![0u8] + cstr(name@) + be_i16(0) + be16(params@.len()),
        decreases params@.len() - i,
    {
        let p = params[i].as_str();
        proof {
            let ps = texts(params@);
            assert(ps.subrange(0, i + 1).drop_last() == ps.subrange(0, i as int));
            assert(ps.subrange(0, i + 1).last() == p@);
        }
        if is_null_text(p) {
            push_be_i32(&mut content, -1);
        } else {
            let b = p.as_bytes();
            push_be32_low(&mut content, b.len());
            push_bytes(&mut content, b);
        }
        i = i + 1;
    }
    assert(texts(params@).subrange(0, params@.len() as int) == texts(params@));
    push_be_i16(&mut content, 0);
    assert(content@ =~= spec_bind_content(name@, texts(params@)));
    let mut m: Vec<u8> = Vec::new();
    m.push(0x42);
    push_frame(&mut m, &content);
    m.push(0x45);
    push_be_i32(&mut m, 9);
    m.push(0);
    push_be_i32(&mut m, 0);
    m.push(0x53);
    push_be_i32(&mut m, 4);
    assert(m@ =~= spec_execute_messages(name@, texts(params@)));
    m
}

// ---------------------------------------------------------------------------
// MD5 authentication

/// The MD5 digest of `data`, as the `md-5` crate computes it.
pub uninterp spec fn md5_digest(data: Seq<u8>) -> Seq<u8>;

/// `md5::Md5::digest`: the sixteen-byte MD5 digest of `data`. The contract
/// names the digest (a function of the bytes alone) and states its length.
#[verifier::external_body]
fn md5_of(data: &[u8]) -> (d: Vec<u8>)
    ensures
        d@ == md5_digest(data@),
        d@.len() == 16,
{
    md5::Md5::digest(data).to_vec()
}

/// The answer to an MD5 password request: `"md5"` and the hexadecimal MD5
/// of the hexadecimal MD5 of password and user name, followed by the salt.
pub open spec fn spec_md5_password(user: Seq<char>, password: Seq<char>, salt: Seq<u8>) -> Seq<char> {
    let inner = spec_hex(md5_digest(encode_utf8(password) + encode_utf8(user)));
    "md5"@ + spec_hex(md5_digest(encode_utf8(inner) + salt))
}

/// The answer to an MD5 password request with `salt`.
pub fn md5_password(username: &str, password: &str, salt: &[u8]) -> (s: String)
    ensures
        s@ == spec_md5_password(username@, password@, salt@),
        s@.len() == 35,
        is_ascii_chars(s@),
{
    let mut first: Vec<u8> = Vec::new();
    push_str_bytes(&mut first, password);
    push_str_bytes(&mut first, username);
    let inner = hex_string(md5_of(first.as_slice()).as_slice());
    let mut second: Vec<u8> = Vec::new();
    push_str_bytes(&mut second, inner.as_str());
    push_bytes(&mut second, salt);
    let d = md5_of(second.as_slice());
    let outer = hex_string(d.as_slice());
    proof {
        crate::hexenc::lemma_hex_ascii(d@);
    }
    let mut s = String::from_str("md5");
    crate::text::push_str(&mut s, outer.as_str());
    proof {
        reveal_strlit("md5");
        assert(is_ascii_chars("md5"@));
        assert(is_ascii_chars(s@)) by {
            assert forall|i: int| 0 <= i < s@.len() implies '\0' <= #[trigger] s@[i] <= '\u{7f}' by {
                if i >= 3 {
                    assert(s@[i] == outer@[i - 3]);
                }
            }
        }
    }
    s
}


// ---------------------------------------------------------------------------
// Messages the server sends

/// The body length announced by a length field: the length less the four
/// bytes of the field itself; `None` when the length is below four.
pub open spec fn spec_body_length(header: Seq<u8>) -> Option<int> {
    if be_i32_at(header, 0) < 4 {
        None
    } else {
        Some(be_i32_at(header, 0) - 4)
    }
}

/// The body length announced by the four bytes of a length field.
pub fn body_length(header: &[u8]) -> (r: Option<usize>)
    requires
        header@.len() >= 4,
    ensures
        match r {
            Some(n) => spec_body_length(header@) == Some(n as int),
            None => spec_body_length(header@) is None,
        },
{
    let n = read_be_i32(header, 0);
    if n < 4 {
        None
    } else {
        Some((n - 4) as usize)
    }
}

/// The error text for an error message (`'E'`) with `body`.
pub open spec fn spec_server_error(body: Seq<u8>) -> Seq<char> {
    "PostgreSQL error: "@ + utf8_lossy(body)
}

/// The error text for a message whose body is shorter than its fields.
pub open spec fn spec_malformed() -> Seq<char> {
    "malformed PostgreSQL message"@
}

fn server_error(body: &[u8]) -> (e: Error)
    ensures
        e matches Error::Protocol(m) && m@ == spec_server_error(body@),
{
    let mut m = String::from_str("PostgreSQL error: ");
    let t = lossy_text(body);
    crate::text::push_str(&mut m, t.as_str());
    Error::Protocol(m)
}

fn malformed() -> (e: Error)
    ensures
        e matches Error::Protocol(m) && m@ == spec_malformed(),
{
    Error::Protocol(String::from_str("malformed PostgreSQL message"))
}

/// What the client does after a message during authentication.
pub enum PgAuthAction {
    /// Read the next message.
    Continue,
    /// Send these bytes, then read the next message.
    SendPassword(Vec<u8>),
    /// Authentication succeeded.
    Authenticated,
    /// The server refused, or sent a malformed message.
    Failed(Error),
}

/// The model of a [`PgAuthAction`].
pub enum PgAuthModel {
    Continue,
    SendPassword(Seq<u8>),
    Authenticated,
    Failed(Seq<char>),
}

/// The authentication step: an authentication request (`'R'`) with code 0
/// succeeds, one with code 5 (MD5, with a four-byte salt) is answered with the
/// MD5 password message, other codes and other message types are passed
/// over, and an error message (`'E'`) fails.
pub open spec fn spec_auth_step(tag: u8, body: Seq<u8>, user: Seq<char>, password: Seq<char>) -> PgAuthModel {
    if tag == 0x52 {
        if body.len() < 4 {
            PgAuthModel::Failed(spec_malformed())
        } else if be_i32_at(body, 0) == 0 {
            PgAuthModel::Authenticated
        } else if be_i32_at(body, 0) == 5 {
            if body.len() < 8 {
                PgAuthModel::Failed(spec_malformed())
            } else {
                PgAuthModel::SendPassword(
                    spec_text_message(0x70, spec_md5_password(user, password, body.subrange(4, 8))),
                )
            }
        } else {
            PgAuthModel::Continue
        }
    } else if tag == 0x45 {
        PgAuthModel::Failed(spec_server_error(body))
    } else {
        PgAuthModel::Continue
    }
}

/// Whether `a` is the action modelled by `m`.
pub open spec fn auth_matches(a: PgAuthAction, m: PgAuthModel) -> bool {
    match m {
        PgAuthModel::Continue => a is Continue,
        PgAuthModel::SendPassword(bytes) => a matches PgAuthAction::SendPassword(v) && v@ == bytes,
        PgAuthModel::Authenticated => a is Authenticated,
        PgAuthModel::Failed(msg) => a matches PgAuthAction::Failed(e) && (e matches Error::Protocol(t) && t@ == msg),
    }
}

/// What to do after the authentication message `tag` with `body`, for the
/// user `username` with `password`.
pub fn authentication_step(tag: u8, body: &[u8], username: &str, password: &str) -> (a: PgAuthAction)
    ensures
        auth_matches(a, spec_auth_step(tag, body@, username@, password@)),
{
    if tag == 0x52 {
        if body.len() < 4 {
            return PgAuthAction::Failed(malformed());
        }
        let code = read_be_i32(body, 0);
        if code == 0 {
            PgAuthAction::Authenticated
        } else if code == 5 {
            if body.len() < 8 {
                return PgAuthAction::Failed(malformed());
            }
            let salt = byte_range(body, 4, 8);
            let pw = md5_password(username, password, salt.as_slice());
            proof {
                is_ascii_chars_encode_utf8(pw@);
            }
            PgAuthAction::SendPassword(password_message(pw.as_str()))
        } else {
            PgAuthAction::Continue
        }
    } else if tag == 0x45 {
        PgAuthAction::Failed(server_error(body))
    } else {
        PgAuthAction::Continue
    }
}

/// What the client does after a message while it waits for the server to be
/// ready.
pub enum PgReadyAction {
    /// Read the next message.
    Continue,
    /// The server is ready for a query (`'Z'`).
    Ready,
    /// The server sent an error message.
    Failed(Error),
}

/// Whether `a` is what a message with `tag` and `body` calls for while the
/// client waits for the server to be ready.
pub open spec fn ready_matches(a: PgReadyAction, tag: u8, body: Seq<u8>) -> bool {
    if tag == 0x5a {
        a is Ready
    } else if tag == 0x45 {
        a matches PgReadyAction::Failed(e) && (e matches Error::Protocol(t) && t@ == spec_server_error(body))
    } else {
        a is Continue
    }
}

/// What to do after the message `tag` with `body` while waiting for the
/// server to be ready.
pub fn ready_step(tag: u8, body: &[u8]) -> (a: PgReadyAction)
    ensures
        ready_matches(a, tag, body@),
{
    if tag == 0x5a {
        PgReadyAction::Ready
    } else if tag == 0x45 {
        PgReadyAction::Failed(server_error(body))
    } else {
        PgReadyAction::Continue
    }
}


// ---------------------------------------------------------------------------
// The answer to a query

/// The column whose name runs from `pos` to the NUL byte at `z`, with its
/// six numeric fields after the NUL.
pub open spec fn spec_column_at(b: Seq<u8>, pos: int, z: int) -> PgColumnModel {
    PgColumnModel {
        name: utf8_lossy(b.subrange(pos, z)),
        table_oid: be_i32_at(b, z + 1),
        column_attr: be_i16_at(b, z + 5),
        data_type: be_i32_at(b, z + 7),
        type_size: be_i16_at(b, z + 11),
        type_modifier: be_i32_at(b, z + 13),
        format_code: be_i16_at(b, z + 17),
    }
}

/// `n` more columns read from `pos` on, after those in `acc`; `None` when
/// the body ends first.
pub open spec fn spec_columns(b: Seq<u8>, pos: int, n: nat, acc: Seq<PgColumnModel>) -> Option<Seq<PgColumnModel>>
    decreases n,
{
    if n == 0 {
        Some(acc)
    } else {
        match zero_from(b, pos) {
            None => None,
            Some(z) => if z + 19 > b.len() {
                None
            } else {
                spec_columns(b, z + 19, (n - 1) as nat, acc.push(spec_column_at(b, pos, z)))
            },
        }
    }
}

/// The columns of a row description (`'T'`): a 16-bit count, then the
/// columns. `None` for a negative count or a body that ends too soon.
pub open spec fn spec_row_description(b: Seq<u8>) -> Option<Seq<PgColumnModel>> {
    if b.len() < 2 || be_i16_at(b, 0) < 0 {
        None
    } else {
        spec_columns(b, 2, be_i16_at(b, 0) as nat, Seq::empty())
    }
}

/// `n` more values read from `pos` on, after those in `acc`: each a 32-bit
/// length and that many bytes, the length `-1` standing for `NULL` (read as
/// the text `"NULL"`).
pub open spec fn spec_values(b: Seq<u8>, pos: int, n: nat, acc: Seq<Seq<char>>) -> Option<Seq<Seq<char>>>
    decreases n,
{
    if n == 0 {
        Some(acc)
    } else if pos + 4 > b.len() {
        None
    } else if be_i32_at(b, pos) == -1 {
        spec_values(b, pos + 4, (n - 1) as nat, acc.push("NULL"@))
    } else if be_i32_at(b, pos) < 0 || pos + 4 + be_i32_at(b, pos) > b.len() {
        None
    } else {
        spec_values(
            b,
            pos + 4 + be_i32_at(b, pos),
            (n - 1) as nat,
            acc.push(utf8_lossy(b.subrange(pos + 4, pos + 4 + be_i32_at(b, pos)))),
        )
    }
}

/// The values of a data row (`'D'`): a 16-bit count, then the values.
pub open spec fn spec_data_row(b: Seq<u8>) -> Option<Seq<Seq<char>>> {
    if b.len() < 2 || be_i16_at(b, 0) < 0 {
        None
    } else {
        spec_values(b, 2, be_i16_at(b, 0) as nat, Seq::empty())
    }
}

/// The tag of a command-complete message (`'C'`): the text before the
/// first NUL byte.
pub open spec fn spec_command_tag(b: Seq<u8>) -> Seq<char> {
    match zero_from(b, 0) {
        Some(z) => utf8_lossy(b.subrange(0, z)),
        None => utf8_lossy(b),
    }
}

/// What has been read of an answer so far.
pub struct PgQueryState {
    pub columns: Vec<PgColumnInfo>,
    pub rows: Vec<Vec<String>>,
    pub command_tag: String,
}

/// The model of a [`PgQueryState`].
pub struct PgQueryModel {
    pub columns: Seq<PgColumnModel>,
    pub rows: Seq<Seq<Seq<char>>>,
    pub tag: Seq<char>,
}

impl View for PgQueryState {
    type V = PgQueryModel;

    open spec fn view(&self) -> PgQueryModel {
        PgQueryModel { columns: columns_view(self.columns@), rows: rows_view(self.rows@), tag: self.command_tag@ }
    }
}

/// The state before the first message of an answer.
pub open spec fn spec_query_start() -> PgQueryModel {
    PgQueryModel { columns: Seq::empty(), rows: Seq::empty(), tag: Seq::empty() }
}

/// The result once the server is ready again: the rows if a row description
/// came, else the command tag if one came, else nothing.
pub open spec fn spec_result(st: PgQueryModel) -> PgResultModel {
    if st.columns.len() > 0 {
        PgResultModel::Rows(st.rows, st.columns)
    } else if st.tag.len() > 0 {
        PgResultModel::CommandComplete(st.tag)
    } else {
        PgResultModel::Empty
    }
}

/// The outcome of one message of an answer.
pub enum PgStepModel {
    Continue(PgQueryModel),
    Finished(PgResultModel),
    Failed(Seq<char>),
}

/// One message of the answer to a query: a row description replaces the
/// columns, a data row adds a row, a command-complete message sets the tag,
/// ready-for-query (`'Z'`) ends the answer, an error message fails it, and
/// any other message is passed over.
pub open spec fn spec_query_step(st: PgQueryModel, tag: u8, body: Seq<u8>) -> PgStepModel {
    if tag == 0x54 {
        match spec_row_description(body) {
            Some(cols) => PgStepModel::Continue(PgQueryModel { columns: cols, rows: st.rows, tag: st.tag }),
            None => PgStepModel::Failed(spec_malformed()),
        }
    } else if tag == 0x44 {
        match spec_data_row(body) {
            Some(row) => PgStepModel::Continue(
                PgQueryModel { columns: st.columns, rows: st.rows.push(row), tag: st.tag },
            ),
            None => PgStepModel::Failed(spec_malformed()),
        }
    } else if tag == 0x43 {
        PgStepModel::Continue(PgQueryModel { columns: st.columns, rows: st.rows, tag: spec_command_tag(body) })
    } else if tag == 0x5a {
        PgStepModel::Finished(spec_result(st))
    } else if tag == 0x45 {
        PgStepModel::Failed(spec_server_error(body))
    } else {
        PgStepModel::Continue(st)
    }
}

/// The outcome of reading an answer message by message.
pub enum PgStep {
    /// The answer goes on.
    Continue(PgQueryState),
    /// The answer is complete.
    Finished(PgResult),
    /// The server sent an error, or a malformed message.
    Failed(Error),
}

/// Whether `r` is the outcome modelled by `m`.
pub open spec fn step_matches(r: PgStep, m: PgStepModel) -> bool {
    match m {
        PgStepModel::Continue(st) => r matches PgStep::Continue(s) && s@ == st,
        PgStepModel::Finished(res) => r matches PgStep::Finished(x) && x@ == res,
        PgStepModel::Failed(msg) => r matches PgStep::Failed(e) && (e matches Error::Protocol(t) && t@ == msg),
    }
}

fn parse_row_description(b: &[u8]) -> (r: Option<Vec<PgColumnInfo>>)
    ensures
        match r {
            Some(v) => spec_row_description(b@) == Some(columns_view(v@)),
            None => spec_row_description(b@) is None,
        },
{
    if b.len() < 2 {
        return None;
    }
    let n = read_be_i16(b, 0);
    if n < 0 {
        return None;
    }
    let mut cols: Vec<PgColumnInfo> = Vec::new();
    let mut pos: usize = 2;
    let mut i: i16 = 0;
    assert(columns_view(cols@) =~= Seq::<PgColumnModel>::empty());
    while i < n
        invariant
            0 <= i <= n,
            n == be_i16_at(b@, 0),
            b@.len() >= 2,
            spec_row_description(b@) == spec_columns(b@, pos as int, (n - i) as nat, columns_view(cols@)),
        decreases n - i,
    {
        match find_zero(b, pos) {
            None => {
                return None;
            },
            Some(z) => {
                proof {
                    lemma_zero_from(b@, pos as int);
                }
                if b.len() - z < 19 {
                    return None;
                }
                let name = lossy_text(byte_range(b, pos, z).as_slice());
                let col = PgColumnInfo {
                    name,
                    table_oid: read_be_i32(b, z + 1),
                    column_attr: read_be_i16(b, z + 5),
                    data_type: read_be_i32(b, z + 7),
                    type_size: read_be_i16(b, z + 11),
                    type_modifier: read_be_i32(b, z + 13),
                    format_code: read_be_i16(b, z + 17),
                };
                let ghost before = columns_view(cols@);
                cols.push(col);
                assert(columns_view(cols@) =~= before.push(spec_column_at(b@, pos as int, z as int)));
                pos = z + 19;
                i = i + 1;
            },
        }
    }
    Some(cols)
}

fn parse_data_row(b: &[u8]) -> (r: Option<Vec<String>>)
    ensures
        match r {
            Some(v) => spec_data_row(b@) == Some(texts(v@)),
            None => spec_data_row(b@) is None,
        },
{
    if b.len() < 2 {
        return None;
    }
    let n = read_be_i16(b, 0);
    if n < 0 {
        return None;
    }
    let mut vals: Vec<String> = Vec::new();
    let mut pos: usize = 2;
    let mut i: i16 = 0;
    assert(texts(vals@) =~= Seq::<Seq<char>>::empty());
    while i < n
        invariant
            0 <= i <= n,
            n == be_i16_at(b@, 0),
            b@.len() >= 2,
            pos <= b@.len(),
            spec_data_row(b@) == spec_values(b@, pos as int, (n - i) as nat, texts(vals@)),
        decreases n - i,
    {
        if b.len() - pos < 4 {
            return None;
        }
        let len = read_be_i32(b, pos);
        let ghost before = texts(vals@);
        if len == -1 {
            vals.push(String::from_str("NULL"));
            assert(texts(vals@) =~= before.push("NULL"@));
            pos = pos + 4;
        } else {
            if len < 0 || (len as usize) > b.len() - (pos + 4) {
                return None;
            }
            let end = pos + 4 + len as usize;
            let t = lossy_text(byte_range(b, pos + 4, end).as_slice());
            vals.push(t);
            assert(texts(vals@) =~= before.push(utf8_lossy(b@.subrange(pos + 4, end as int))));
            pos = end;
        }
        i = i + 1;
    }
    Some(vals)
}

fn command_tag(b: &[u8]) -> (t: String)
    ensures
        t@ == spec_command_tag(b@),
{
    match find_zero(b, 0) {
        Some(z) => {
            proof {
                lemma_zero_from(b@, 0);
            }
            lossy_text(byte_range(b, 0, z).as_slice())
        },
        None => {
            assert(b@.subrange(0, b@.len() as int) =~= b@);
            lossy_text(byte_range(b, 0, b.len()).as_slice())
        },
    }
}

impl PgQueryState {
    /// The state before the first message of an answer.
    pub fn new() -> (s: Self)
        ensures
            s@ == spec_query_start(),
    {
        let s = PgQueryState { columns: Vec::new(), rows: Vec::new(), command_tag: String::new() };
        assert(s@.columns =~= Seq::<PgColumnModel>::empty());
        assert(s@.rows =~= Seq::<Seq<Seq<char>>>::empty());
        s
    }

    /// The result the state stands for once the answer is complete.
    pub fn into_result(self) -> (r: PgResult)
        ensures
            r@ == spec_result(self@),
    {
        if self.columns.len() > 0 {
            PgResult::Rows(self.rows, self.columns)
        } else if self.command_tag.as_str().unicode_len() > 0 {
            PgResult::CommandComplete(self.command_tag)
        } else {
            PgResult::Empty
        }
    }

    /// Takes in the message `tag` with `body`.
    pub fn step(self, tag: u8, body: &[u8]) -> (r: PgStep)
        ensures
            step_matches(r, spec_query_step(self@, tag, body@)),
    {
        let mut st = self;
        if tag == 0x54 {
            match parse_row_description(body) {
                Some(cols) => {
                    st.columns = cols;
                    PgStep::Continue(st)
                },
                None => PgStep::Failed(malformed()),
            }
        } else if tag == 0x44 {
            match parse_data_row(body) {
                Some(row) => {
                    let ghost before = rows_view(st.rows@);
                    st.rows.push(row);
                    assert(rows_view(st.rows@) =~= before.push(row@.map_values(|s: String| s@)));
                    PgStep::Continue(st)
                },
                None => PgStep::Failed(malformed()),
            }
        } else if tag == 0x43 {
            st.command_tag = command_tag(body);
            PgStep::Continue(st)
        } else if tag == 0x5a {
            PgStep::Finished(st.into_result())
        } else if tag == 0x45 {
            PgStep::Failed(server_error(body))
        } else {
            PgStep::Continue(st)
        }
    }
}

/// A message from the server: its type byte and its body.
pub struct PgMessage {
    pub tag: u8,
    pub body: Vec<u8>,
}

/// The type bytes and bodies of messages.
pub open spec fn messages_view(m: Seq<PgMessage>) -> Seq<(u8, Seq<u8>)> {
    m.map_values(|x: PgMessage| (x.tag, x.body@))
}

/// Reading the messages `msgs` in order from the state `st`, up to the one
/// that ends the answer.
pub open spec fn spec_run(st: PgQueryModel, msgs: Seq<(u8, Seq<u8>)>) -> PgStepModel
    decreases msgs.len(),
{
    if msgs.len() == 0 {
        PgStepModel::Continue(st)
    } else {
        match spec_query_step(st, msgs[0].0, msgs[0].1) {
            PgStepModel::Continue(next) => spec_run(next, msgs.drop_first()),
            other => other,
        }
    }
}

/// The answer to a query, read from the server's messages in order: the
/// messages after the one that ends it are not read, and `Continue` means
/// that none ended it.
pub fn read_query_result(messages: &[PgMessage]) -> (r: PgStep)
    ensures
        step_matches(r, spec_run(spec_query_start(), messages_view(messages@))),
{
    let ghost all = messages_view(messages@);
    let mut st = PgQueryState::new();
    let mut i: usize = 0;
    assert(all.subrange(0, all.len() as int) =~= all);
    while i < messages.len()
        invariant
            i <= messages@.len(),
            all == messages_view(messages@),
            spec_run(spec_query_start(), all) == spec_run(st@, all.subrange(i as int, all.len() as int)),
        decreases messages@.len() - i,
    {
        let ghost rest = all.subrange(i as int, all.len() as int);
        assert(rest[0] == (messages@[i as int].tag, messages@[i as int].body@));
        assert(rest.drop_first() =~= all.subrange(i + 1, all.len() as int));
        let m = &messages[i];
        match st.step(m.tag, m.body.as_slice()) {
            PgStep::Continue(next) => {
                st = next;
            },
            other => {
                return other;
            },
        }
        i = i + 1;
    }
    assert(all.subrange(i as int, all.len() as int) =~= Seq::<(u8, Seq<u8>)>::empty());
    PgStep::Continue(st)
}

} // verus!
