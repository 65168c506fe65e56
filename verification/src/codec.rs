//! The framed binary codec: a message becomes a tag byte followed by
//! its fields, each string or byte field carried as a 4-byte
//! big-endian length and its bytes; a frame wraps the encoded payload
//! in one more 4-byte big-endian length. Decoding is specified as the
//! exact inverse, and the round-trip laws are proved below.
use vstd::prelude::*;
use vstd::slice::{slice_subrange, slice_to_vec};
use vstd::string::StrSliceExecFns;
use vstd::utf8::{decode_utf8, encode_utf8, encode_utf8_decode_utf8, encode_utf8_valid_utf8,
    valid_utf8};

use crate::async_chat_msg::{AsyncChatMsg, MsgVal};
use crate::wire::{be32, be32_val, lemma_be32_roundtrip, u32_from_be_bytes, u32_to_be_bytes};

verus! {

/// Why a message could not be encoded.
#[derive(Clone, Copy, PartialEq, Eq, Structural, Debug)]
pub enum EncodingError {
    /// A field or the whole payload does not fit behind a 32-bit length.
    TooLong,
}

/// Why a byte sequence could not be decoded.
#[derive(Clone, Copy, PartialEq, Eq, Structural, Debug)]
pub enum DecodingError {
    /// The input ends before a length prefix or a counted field is complete.
    Truncated,
    /// A string field does not hold well-formed UTF-8.
    InvalidUtf8,
    /// The leading tag byte names no message variant.
    UnknownTag,
    /// Bytes remain after the last field of the message.
    TrailingBytes,
}

/// The tag byte of each message variant.
pub const TAG_TEXT: u8 = 0;

pub const TAG_FILE: u8 = 1;

pub const TAG_IMAGE: u8 = 2;

pub const TAG_LOGIN: u8 = 3;

/// How many bytes the UTF-8 form of a string takes.
pub open spec fn utf8_len(s: Seq<char>) -> nat {
    encode_utf8(s).len()
}

/// A string fits behind a 32-bit length prefix.
pub open spec fn str_field_ok(s: Seq<char>) -> bool {
    utf8_len(s) <= u32::MAX
}

/// The wire form of one string field.
pub open spec fn str_field(s: Seq<char>) -> Seq<u8>
    recommends
        str_field_ok(s),
{
    be32(utf8_len(s) as u32) + encode_utf8(s)
}

/// A byte payload fits behind a 32-bit length prefix.
pub open spec fn bytes_field_ok(b: Seq<u8>) -> bool {
    b.len() <= u32::MAX
}

/// The wire form of one byte payload field.
pub open spec fn bytes_field(b: Seq<u8>) -> Seq<u8>
    recommends
        bytes_field_ok(b),
{
    be32(b.len() as u32) + b
}

/// Every field of the message fits behind its length prefix.
pub open spec fn representable(m: MsgVal) -> bool {
    match m {
        MsgVal::Text { from, body } => str_field_ok(from) && str_field_ok(body),
        MsgVal::File { from, filename, bytes } => str_field_ok(from) && str_field_ok(filename)
            && bytes_field_ok(bytes),
        MsgVal::Image { from, filename, bytes } => str_field_ok(from) && str_field_ok(filename)
            && bytes_field_ok(bytes),
        MsgVal::Login { login, password } => str_field_ok(login) && str_field_ok(password),
    }
}

/// The encoded payload of a message: its tag byte followed by its fields.
pub open spec fn spec_encode(m: MsgVal) -> Seq<u8>
    recommends
        representable(m),
{
    match m {
        MsgVal::Text { from, body } => seq![TAG_TEXT] + str_field(from) + str_field(body),
        MsgVal::File { from, filename, bytes } => seq![TAG_FILE] + str_field(from) + str_field(
            filename,
        ) + bytes_field(bytes),
        MsgVal::Image { from, filename, bytes } => seq![TAG_IMAGE] + str_field(from) + str_field(
            filename,
        ) + bytes_field(bytes),
        MsgVal::Login { login, password } => seq![TAG_LOGIN] + str_field(login) + str_field(
            password,
        ),
    }
}

/// Reads one string field at offset `i`: the value and the offset
/// just past it, or the first failure.
pub open spec fn take_str(data: Seq<u8>, i: int) -> Result<(Seq<char>, int), DecodingError>
    recommends
        0 <= i <= data.len(),
{
    if data.len() - i < 4 {
        Err(DecodingError::Truncated)
    } else {
        let n = be32_val(data.subrange(i, i + 4)) as int;
        if data.len() - (i + 4) < n {
            Err(DecodingError::Truncated)
        } else {
            let b = data.subrange(i + 4, i + 4 + n);
            if valid_utf8(b) {
                Ok((decode_utf8(b), i + 4 + n))
            } else {
                Err(DecodingError::InvalidUtf8)
            }
        }
    }
}

/// Reads one byte payload field at offset `i`.
pub open spec fn take_bytes(data: Seq<u8>, i: int) -> Result<(Seq<u8>, int), DecodingError>
    recommends
        0 <= i <= data.len(),
{
    if data.len() - i < 4 {
        Err(DecodingError::Truncated)
    } else {
        let n = be32_val(data.subrange(i, i + 4)) as int;
        if data.len() - (i + 4) < n {
            Err(DecodingError::Truncated)
        } else {
            Ok((data.subrange(i + 4, i + 4 + n), i + 4 + n))
        }
    }
}

/// The message held in an encoded payload, or the exact failure:
/// the inverse of `spec_encode`.
pub open spec fn spec_decode(data: Seq<u8>) -> Result<MsgVal, DecodingError> {
    if data.len() == 0 {
        Err(DecodingError::Truncated)
    } else if data[0] == TAG_TEXT {
        match take_str(data, 1) {
            Ok((from, i)) => match take_str(data, i) {
                Ok((body, j)) => if j == data.len() {
                    Ok(MsgVal::Text { from, body })
                } else {
                    Err(DecodingError::TrailingBytes)
                },
                Err(e) => Err(e),
            },
            Err(e) => Err(e),
        }
    } else if data[0] == TAG_FILE {
        match take_str(data, 1) {
            Ok((from, i)) => match take_str(data, i) {
                Ok((filename, j)) => match take_bytes(data, j) {
                    Ok((bytes, k)) => if k == data.len() {
                        Ok(MsgVal::File { from, filename, bytes })
                    } else {
                        Err(DecodingError::TrailingBytes)
                    },
                    Err(e) => Err(e),
                },
                Err(e) => Err(e),
            },
            Err(e) => Err(e),
        }
    } else if data[0] == TAG_IMAGE {
        match take_str(data, 1) {
            Ok((from, i)) => match take_str(data, i) {
                Ok((filename, j)) => match take_bytes(data, j) {
                    Ok((bytes, k)) => if k == data.len() {
                        Ok(MsgVal::Image { from, filename, bytes })
                    } else {
                        Err(DecodingError::TrailingBytes)
                    },
                    Err(e) => Err(e),
                },
                Err(e) => Err(e),
            },
            Err(e) => Err(e),
        }
    } else if data[0] == TAG_LOGIN {
        match take_str(data, 1) {
            Ok((login, i)) => match take_str(data, i) {
                Ok((password, j)) => if j == data.len() {
                    Ok(MsgVal::Login { login, password })
                } else {
                    Err(DecodingError::TrailingBytes)
                },
                Err(e) => Err(e),
            },
            Err(e) => Err(e),
        }
    } else {
        Err(DecodingError::UnknownTag)
    }
}

/// Relies on `String::from_utf8`: it returns the decoded string
/// exactly when the bytes are well-formed UTF-8, and refuses exactly
/// the rest.
#[verifier::external_body]
fn string_from_utf8(v: Vec<u8>) -> (r: Option<String>)
    ensures
        match r {
            Some(s) => valid_utf8(v@) && s@ == decode_utf8(v@),
            None => !valid_utf8(v@),
        },
{
    String::from_utf8(v).ok()
}

/// Appends one string field to `out`; refuses a string whose UTF-8
/// form does not fit behind the length prefix, leaving `out` as it was.
fn push_str_field(out: &mut Vec<u8>, s: &str) -> (ok: bool)
    ensures
        ok == str_field_ok(s@),
        ok ==> final(out)@ == old(out)@ + str_field(s@),
        !ok ==> final(out)@ == old(out)@,
{
    let bytes = s.as_bytes_vec();
    if bytes.len() > u32::MAX as usize {
        return false;
    }
    let mut hdr = u32_to_be_bytes(bytes.len() as u32);
    out.append(&mut hdr);
    let mut b = bytes;
    out.append(&mut b);
    proof {
        assert(final(out)@ =~= old(out)@ + str_field(s@));
    }
    true
}

/// Appends one byte payload field to `out`; refuses a payload that
/// does not fit behind the length prefix, leaving `out` as it was.
fn push_bytes_field(out: &mut Vec<u8>, data: &Vec<u8>) -> (ok: bool)
    ensures
        ok == bytes_field_ok(data@),
        ok ==> final(out)@ == old(out)@ + bytes_field(data@),
        !ok ==> final(out)@ == old(out)@,
{
    if data.len() > u32::MAX as usize {
        return false;
    }
    let mut hdr = u32_to_be_bytes(data.len() as u32);
    out.append(&mut hdr);
    let mut b = slice_to_vec(data.as_slice());
    out.append(&mut b);
    proof {
        assert(final(out)@ =~= old(out)@ + bytes_field(data@));
    }
    true
}

/// Encodes a message into its payload bytes. Succeeds on exactly the
/// representable messages and returns exactly `spec_encode`.
pub fn serialize_msg(msg: &AsyncChatMsg) -> (r: Result<Vec<u8>, EncodingError>)
    ensures
        r matches Ok(v) ==> representable(msg@) && v@ == spec_encode(msg@),
        r is Err <==> !representable(msg@),
{
    let mut out: Vec<u8> = Vec::new();
    match msg {
        AsyncChatMsg::Text(from, body) => {
            out.push(TAG_TEXT);
            if !push_str_field(&mut out, from.as_str()) {
                return Err(EncodingError::TooLong);
            }
            if !push_str_field(&mut out, body.as_str()) {
                return Err(EncodingError::TooLong);
            }
            proof {
                assert(out@ =~= spec_encode(msg@));
            }
            Ok(out)
        },
        AsyncChatMsg::File(from, filename, bytes) => {
            out.push(TAG_FILE);
            if !push_str_field(&mut out, from.as_str()) {
                return Err(EncodingError::TooLong);
            }
            if !push_str_field(&mut out, filename.as_str()) {
                return Err(EncodingError::TooLong);
            }
            if !push_bytes_field(&mut out, bytes) {
                return Err(EncodingError::TooLong);
            }
            proof {
                assert(out@ =~= spec_encode(msg@));
            }
            Ok(out)
        },
        AsyncChatMsg::Image(from, filename, bytes) => {
            out.push(TAG_IMAGE);
            if !push_str_field(&mut out, from.as_str()) {
                return Err(EncodingError::TooLong);
            }
            if !push_str_field(&mut out, filename.as_str()) {
                return Err(EncodingError::TooLong);
            }
            if !push_bytes_field(&mut out, bytes) {
                return Err(EncodingError::TooLong);
            }
            proof {
                assert(out@ =~= spec_encode(msg@));
            }
            Ok(out)
        },
        AsyncChatMsg::Login(login, password) => {
            out.push(TAG_LOGIN);
            if !push_str_field(&mut out, login.as_str()) {
                return Err(EncodingError::TooLong);
            }
            if !push_str_field(&mut out, password.as_str()) {
                return Err(EncodingError::TooLong);
            }
            proof {
                assert(out@ =~= spec_encode(msg@));
            }
            Ok(out)
        },
    }
}

/// Reads one string field at offset `i`, following `take_str` exactly.
fn read_str(data: &Vec<u8>, i: usize) -> (r: Result<(String, usize), DecodingError>)
    requires
        i <= data@.len(),
    ensures
        match r {
            Ok(p) => take_str(data@, i as int) == Ok::<(Seq<char>, int), DecodingError>(
                (p.0@, p.1 as int),
            ) && i < p.1 <= data@.len(),
            Err(e) => take_str(data@, i as int) == Err::<(Seq<char>, int), DecodingError>(e),
        },
{
    if data.len() - i < 4 {
        return Err(DecodingError::Truncated);
    }
    let n32 = u32_from_be_bytes(data[i], data[i + 1], data[i + 2], data[i + 3]);
    proof {
        assert(seq![data@[i as int], data@[i as int + 1], data@[i as int + 2], data@[i as int + 3]]
            =~= data@.subrange(i as int, i as int + 4));
    }
    let n = n32 as usize;
    if data.len() - (i + 4) < n {
        return Err(DecodingError::Truncated);
    }
    let end = i + 4 + n;
    let bytes = slice_to_vec(slice_subrange(data.as_slice(), i + 4, end));
    match string_from_utf8(bytes) {
        Some(s) => Ok((s, end)),
        None => Err(DecodingError::InvalidUtf8),
    }
}

/// Reads one byte payload field at offset `i`, following `take_bytes`
/// exactly.
fn read_bytes(data: &Vec<u8>, i: usize) -> (r: Result<(Vec<u8>, usize), DecodingError>)
    requires
        i <= data@.len(),
    ensures
        match r {
            Ok(p) => take_bytes(data@, i as int) == Ok::<(Seq<u8>, int), DecodingError>(
                (p.0@, p.1 as int),
            ) && i < p.1 <= data@.len(),
            Err(e) => take_bytes(data@, i as int) == Err::<(Seq<u8>, int), DecodingError>(e),
        },
{
    if data.len() - i < 4 {
        return Err(DecodingError::Truncated);
    }
    let n32 = u32_from_be_bytes(data[i], data[i + 1], data[i + 2], data[i + 3]);
    proof {
        assert(seq![data@[i as int], data@[i as int + 1], data@[i as int + 2], data@[i as int + 3]]
            =~= data@.subrange(i as int, i as int + 4));
    }
    let n = n32 as usize;
    if data.len() - (i + 4) < n {
        return Err(DecodingError::Truncated);
    }
    let end = i + 4 + n;
    let bytes = slice_to_vec(slice_subrange(data.as_slice(), i + 4, end));
    Ok((bytes, end))
}

/// Decodes a payload back into a message, following `spec_decode`
/// exactly: it succeeds on exactly the well-formed encodings and
/// reports the first failure otherwise.
pub fn deserialize_msg(data: Vec<u8>) -> (r: Result<AsyncChatMsg, DecodingError>)
    ensures
        match r {
            Ok(m) => spec_decode(data@) == Ok::<MsgVal, DecodingError>(m@),
            Err(e) => spec_decode(data@) == Err::<MsgVal, DecodingError>(e),
        },
{
    if data.len() == 0 {
        return Err(DecodingError::Truncated);
    }
    let tag = data[0];
    if tag == TAG_TEXT {
        let (from, i) = match read_str(&data, 1) {
            Ok(p) => p,
            Err(e) => { return Err(e) },
        };
        let (body, j) = match read_str(&data, i) {
            Ok(p) => p,
            Err(e) => { return Err(e) },
        };
        if j != data.len() {
            return Err(DecodingError::TrailingBytes);
        }
        Ok(AsyncChatMsg::Text(from, body))
    } else if tag == TAG_FILE {
        let (from, i) = match read_str(&data, 1) {
            Ok(p) => p,
            Err(e) => { return Err(e) },
        };
        let (filename, j) = match read_str(&data, i) {
            Ok(p) => p,
            Err(e) => { return Err(e) },
        };
        let (bytes, k) = match read_bytes(&data, j) {
            Ok(p) => p,
            Err(e) => { return Err(e) },
        };
        if k != data.len() {
            return Err(DecodingError::TrailingBytes);
        }
        Ok(AsyncChatMsg::File(from, filename, bytes))
    } else if tag == TAG_IMAGE {
        let (from, i) = match read_str(&data, 1) {
            Ok(p) => p,
            Err(e) => { return Err(e) },
        };
        let (filename, j) = match read_str(&data, i) {
            Ok(p) => p,
            Err(e) => { return Err(e) },
        };
        let (bytes, k) = match read_bytes(&data, j) {
            Ok(p) => p,
            Err(e) => { return Err(e) },
        };
        if k != data.len() {
            return Err(DecodingError::TrailingBytes);
        }
        Ok(AsyncChatMsg::Image(from, filename, bytes))
    } else if tag == TAG_LOGIN {
        let (login, i) = match read_str(&data, 1) {
            Ok(p) => p,
            Err(e) => { return Err(e) },
        };
        let (password, j) = match read_str(&data, i) {
            Ok(p) => p,
            Err(e) => { return Err(e) },
        };
        if j != data.len() {
            return Err(DecodingError::TrailingBytes);
        }
        Ok(AsyncChatMsg::Login(login, password))
    } else {
        Err(DecodingError::UnknownTag)
    }
}

/// The envelope on the wire: the payload byte count as a 4-byte
/// big-endian length, then the payload.
pub open spec fn spec_frame(payload: Seq<u8>) -> Seq<u8>
    recommends
        payload.len() <= u32::MAX,
{
    be32(payload.len() as u32) + payload
}

/// A message whose encoded payload also fits behind the frame's
/// length prefix.
pub open spec fn frame_ok(m: MsgVal) -> bool {
    representable(m) && spec_encode(m).len() <= u32::MAX
}

/// Encodes a message and wraps it in its frame. Succeeds on exactly
/// the messages whose fields and whole payload fit their prefixes.
pub fn encode_frame(msg: &AsyncChatMsg) -> (r: Result<Vec<u8>, EncodingError>)
    ensures
        r matches Ok(v) ==> frame_ok(msg@) && v@ == spec_frame(spec_encode(msg@)),
        r is Err <==> !frame_ok(msg@),
{
    let payload = match serialize_msg(msg) {
        Ok(p) => p,
        Err(e) => { return Err(e) },
    };
    if payload.len() > u32::MAX as usize {
        return Err(EncodingError::TooLong);
    }
    let mut out = u32_to_be_bytes(payload.len() as u32);
    let mut p = payload;
    out.append(&mut p);
    proof {
        assert(out@ =~= spec_frame(spec_encode(msg@)));
    }
    Ok(out)
}

/// The message held in a buffered frame and the frame's total byte
/// count, or the exact failure; an incomplete header or payload is
/// `Truncated`.
pub open spec fn spec_decode_frame(buf: Seq<u8>) -> Result<(MsgVal, int), DecodingError> {
    if buf.len() < 4 {
        Err(DecodingError::Truncated)
    } else {
        let n = be32_val(buf.subrange(0, 4)) as int;
        if buf.len() - 4 < n {
            Err(DecodingError::Truncated)
        } else {
            match spec_decode(buf.subrange(4, 4 + n)) {
                Ok(m) => Ok((m, 4 + n)),
                Err(e) => Err(e),
            }
        }
    }
}

/// Reads one whole frame from the front of a buffer, following
/// `spec_decode_frame` exactly: the decoded message and how many
/// bytes the frame took.
pub fn decode_frame(buf: &Vec<u8>) -> (r: Result<(AsyncChatMsg, usize), DecodingError>)
    ensures
        match r {
            Ok(p) => spec_decode_frame(buf@) == Ok::<(MsgVal, int), DecodingError>(
                (p.0@, p.1 as int),
            ),
            Err(e) => spec_decode_frame(buf@) == Err::<(MsgVal, int), DecodingError>(e),
        },
{
    if buf.len() < 4 {
        return Err(DecodingError::Truncated);
    }
    let n32 = u32_from_be_bytes(buf[0], buf[1], buf[2], buf[3]);
    proof {
        assert(seq![buf@[0], buf@[1], buf@[2], buf@[3]] =~= buf@.subrange(0, 4));
    }
    let n = n32 as usize;
    if buf.len() - 4 < n {
        return Err(DecodingError::Truncated);
    }
    let payload = slice_to_vec(slice_subrange(buf.as_slice(), 4, 4 + n));
    match deserialize_msg(payload) {
        Ok(m) => Ok((m, 4 + n)),
        Err(e) => Err(e),
    }
}

/// Decoding a string field laid down at offset `i` yields that string
/// and stops just past it.
proof fn lemma_take_str_exact(data: Seq<u8>, i: int, s: Seq<char>)
    requires
        str_field_ok(s),
        0 <= i,
        i + str_field(s).len() <= data.len(),
        data.subrange(i, i + str_field(s).len() as int) == str_field(s),
    ensures
        take_str(data, i) == Ok::<(Seq<char>, int), DecodingError>(
            (s, i + str_field(s).len() as int),
        ),
{
    let eb = encode_utf8(s);
    let n = eb.len() as int;
    let sf = str_field(s);
    assert(sf.len() == 4 + n);
    assert forall|k: int| 0 <= k < sf.len() implies data[i + k] == sf[k] by {
        assert(data.subrange(i, i + sf.len() as int)[k] == data[i + k]);
    }
    assert(data.subrange(i, i + 4) =~= be32(n as u32));
    lemma_be32_roundtrip(n as u32);
    assert(be32_val(data.subrange(i, i + 4)) == n as u32);
    assert forall|j: int| 0 <= j < n implies data.subrange(i + 4, i + 4 + n)[j] == eb[j] by {
        assert(data[i + 4 + j] == sf[4 + j]);
        assert(sf[4 + j] == eb[j]);
    }
    assert(data.subrange(i + 4, i + 4 + n) =~= eb);
    encode_utf8_valid_utf8(s);
    encode_utf8_decode_utf8(s);
}

/// Decoding a byte payload field laid down at offset `i` yields that
/// payload and stops just past it.
proof fn lemma_take_bytes_exact(data: Seq<u8>, i: int, b: Seq<u8>)
    requires
        bytes_field_ok(b),
        0 <= i,
        i + bytes_field(b).len() <= data.len(),
        data.subrange(i, i + bytes_field(b).len() as int) == bytes_field(b),
    ensures
        take_bytes(data, i) == Ok::<(Seq<u8>, int), DecodingError>(
            (b, i + bytes_field(b).len() as int),
        ),
{
    let n = b.len() as int;
    let bf = bytes_field(b);
    assert(bf.len() == 4 + n);
    assert forall|k: int| 0 <= k < bf.len() implies data[i + k] == bf[k] by {
        assert(data.subrange(i, i + bf.len() as int)[k] == data[i + k]);
    }
    assert(data.subrange(i, i + 4) =~= be32(n as u32));
    lemma_be32_roundtrip(n as u32);
    assert(be32_val(data.subrange(i, i + 4)) == n as u32);
    assert forall|j: int| 0 <= j < n implies data.subrange(i + 4, i + 4 + n)[j] == b[j] by {
        assert(data[i + 4 + j] == bf[4 + j]);
        assert(bf[4 + j] == b[j]);
    }
    assert(data.subrange(i + 4, i + 4 + n) =~= b);
}

/// The round-trip law of the payload codec: decoding the encoding of
/// any representable message yields exactly that message.
#[verifier::rlimit(60)]
pub proof fn lemma_codec_roundtrip(m: MsgVal)
    requires
        representable(m),
    ensures
        spec_decode(spec_encode(m)) == Ok::<MsgVal, DecodingError>(m),
{
    let data = spec_encode(m);
    match m {
        MsgVal::Text { from, body } => {
            let f1 = str_field(from);
            let f2 = str_field(body);
            assert(data.subrange(1, 1 + f1.len() as int) =~= f1);
            lemma_take_str_exact(data, 1, from);
            assert(data.subrange(1 + f1.len() as int, 1 + f1.len() + f2.len() as int) =~= f2);
            lemma_take_str_exact(data, 1 + f1.len() as int, body);
        },
        MsgVal::File { from, filename, bytes } => {
            let f1 = str_field(from);
            let f2 = str_field(filename);
            let f3 = bytes_field(bytes);
            assert(data.subrange(1, 1 + f1.len() as int) =~= f1);
            lemma_take_str_exact(data, 1, from);
            assert(data.subrange(1 + f1.len() as int, 1 + f1.len() + f2.len() as int) =~= f2);
            lemma_take_str_exact(data, 1 + f1.len() as int, filename);
            assert(data.subrange(
                1 + f1.len() + f2.len() as int,
                1 + f1.len() + f2.len() + f3.len() as int,
            ) =~= f3);
            lemma_take_bytes_exact(data, 1 + f1.len() + f2.len() as int, bytes);
        },
        MsgVal::Image { from, filename, bytes } => {
            let f1 = str_field(from);
            let f2 = str_field(filename);
            let f3 = bytes_field(bytes);
            assert(data.subrange(1, 1 + f1.len() as int) =~= f1);
            lemma_take_str_exact(data, 1, from);
            assert(data.subrange(1 + f1.len() as int, 1 + f1.len() + f2.len() as int) =~= f2);
            lemma_take_str_exact(data, 1 + f1.len() as int, filename);
            assert(data.subrange(
                1 + f1.len() + f2.len() as int,
                1 + f1.len() + f2.len() + f3.len() as int,
            ) =~= f3);
            lemma_take_bytes_exact(data, 1 + f1.len() + f2.len() as int, bytes);
        },
        MsgVal::Login { login, password } => {
            let f1 = str_field(login);
            let f2 = str_field(password);
            assert(data.subrange(1, 1 + f1.len() as int) =~= f1);
            lemma_take_str_exact(data, 1, login);
            assert(data.subrange(1 + f1.len() as int, 1 + f1.len() + f2.len() as int) =~= f2);
            lemma_take_str_exact(data, 1 + f1.len() as int, password);
        },
    }
}

/// The round-trip law of the framing: reading a whole buffered frame
/// back yields the framed message and consumes the whole frame.
pub proof fn lemma_frame_roundtrip(m: MsgVal)
    requires
        frame_ok(m),
    ensures
        spec_decode_frame(spec_frame(spec_encode(m))) == Ok::<(MsgVal, int), DecodingError>(
            (m, spec_frame(spec_encode(m)).len() as int),
        ),
{
    let p = spec_encode(m);
    let buf = spec_frame(p);
    lemma_be32_roundtrip(p.len() as u32);
    assert(buf.subrange(0, 4) =~= be32(p.len() as u32));
    assert(buf.subrange(4, 4 + p.len() as int) =~= p);
    lemma_codec_roundtrip(m);
}

/// A truncated frame never decodes: any proper prefix of a frame is
/// refused as incomplete, never read as a message.
pub proof fn lemma_frame_truncated(m: MsgVal, k: int)
    requires
        frame_ok(m),
        0 <= k < spec_frame(spec_encode(m)).len(),
    ensures
        spec_decode_frame(spec_frame(spec_encode(m)).subrange(0, k)) == Err::<
            (MsgVal, int),
            DecodingError,
        >(DecodingError::Truncated),
{
    let p = spec_encode(m);
    let buf = spec_frame(p);
    let pre = buf.subrange(0, k);
    if k >= 4 {
        assert(pre.subrange(0, 4) =~= be32(p.len() as u32));
        lemma_be32_roundtrip(p.len() as u32);
        assert(pre.len() - 4 < p.len());
    }
}

} // verus!

