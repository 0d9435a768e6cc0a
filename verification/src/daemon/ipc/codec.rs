//! Frame rules for the IPC stream.
//!
//! Frame layout: `u32_be(body_len) || cbor(body)`. `body_len` is capped by
//! [`MAX_IPC_BODY`] and may not be zero on read.

use vstd::prelude::*;
use crate::daemon::ipc::wire::MAX_IPC_BODY;

verus! {

/// `std::io::Error`, carried through without being inspected.
#[verifier::external_type_specification]
#[verifier::external_body]
pub struct ExIoError(std::io::Error);

/// Codec-layer errors.
#[derive(Debug)]
pub enum CodecError {
    /// I/O failure during read/write.
    Io(std::io::Error),
    /// Declared length exceeded `MAX_IPC_BODY`.
    FrameTooLarge {
        /// Declared length.
        got: u32,
        /// Maximum accepted length.
        max: u32,
    },
    /// Declared length was zero.
    EmptyFrame,
    /// CBOR serialize/deserialize failure.
    Cbor(String),
}

/// Big-endian value of a 4-byte length prefix.
pub open spec fn be_u32(h: Seq<u8>) -> int {
    h[0] as int * 0x100_0000 + h[1] as int * 0x1_0000 + h[2] as int * 0x100 + h[3] as int
}

/// Decode a 4-byte big-endian length prefix.
pub fn decode_length_prefix(h: [u8; 4]) -> (n: u32)
    ensures
        n as int == be_u32(h@),
{
    (h[0] as u32) * 0x100_0000 + (h[1] as u32) * 0x1_0000 + (h[2] as u32) * 0x100 + (h[3] as u32)
}

/// The verdict of the reader on a declared body length.
pub open spec fn read_len_ok(n: u32) -> bool {
    0 < n <= MAX_IPC_BODY
}

/// Check a declared body length before reading the body: zero is an empty
/// frame, more than `MAX_IPC_BODY` is too large.
pub fn check_read_len(n: u32) -> (r: Result<u32, CodecError>)
    ensures
        n == 0 ==> r matches Err(CodecError::EmptyFrame),
        n > MAX_IPC_BODY ==> (r matches Err(CodecError::FrameTooLarge { got, max }) && got == n
            && max == MAX_IPC_BODY),
        read_len_ok(n) ==> (r matches Ok(m) && m == n),
{
    if n == 0 {
        return Err(CodecError::EmptyFrame);
    }
    if n > MAX_IPC_BODY {
        return Err(CodecError::FrameTooLarge { got: n, max: MAX_IPC_BODY });
    }
    Ok(n)
}

/// The length prefix for an encoded body of `len` bytes: a body longer than
/// `MAX_IPC_BODY` is refused (reported as `u32::MAX` when it does not even fit
/// in 32 bits).
pub fn frame_header(len: usize) -> (r: Result<[u8; 4], CodecError>)
    ensures
        len > u32::MAX ==> (r matches Err(CodecError::FrameTooLarge { got, max }) && got
            == u32::MAX && max == MAX_IPC_BODY),
        len <= u32::MAX && len > MAX_IPC_BODY ==> (r matches Err(
            CodecError::FrameTooLarge { got, max },
        ) && got == len && max == MAX_IPC_BODY),
        len <= MAX_IPC_BODY ==> (r matches Ok(h) && be_u32(h@) == len),
{
    if len > 0xffff_ffff {
        return Err(CodecError::FrameTooLarge { got: 0xffff_ffff, max: MAX_IPC_BODY });
    }
    let n = len as u32;
    if n > MAX_IPC_BODY {
        return Err(CodecError::FrameTooLarge { got: n, max: MAX_IPC_BODY });
    }
    let h: [u8; 4] = [(n / 0x100_0000) as u8, ((n / 0x1_0000) % 0x100) as u8, ((n / 0x100) % 0x100) as u8, (n % 0x100) as u8];
    assert(be_u32(h@) == n) by {
        assert(h@[0] == n / 0x100_0000);
        assert(h@[1] == (n / 0x1_0000) % 0x100);
        assert(h@[2] == (n / 0x100) % 0x100);
        assert(h@[3] == n % 0x100);
    }
    Ok(h)
}

/// Every non-empty body the writer frames is one the reader accepts, with
/// the same length: the prefix written for a body of `len` bytes, with
/// `0 < len <= MAX_IPC_BODY`, decodes to `len` and passes the read check.
pub proof fn lemma_frame_header_roundtrip(h: Seq<u8>, len: int)
    requires
        h.len() == 4,
        0 < len <= MAX_IPC_BODY,
        be_u32(h) == len,
    ensures
        read_len_ok(be_u32(h) as u32),
        be_u32(h) as u32 == len,
{
}

/// The four big-endian bytes of a length below 2^32.
pub open spec fn be4(n: nat) -> Seq<u8> {
    seq![
        ((n / 0x100_0000) % 0x100) as u8,
        ((n / 0x1_0000) % 0x100) as u8,
        ((n / 0x100) % 0x100) as u8,
        (n % 0x100) as u8,
    ]
}

/// A frame: the body's length as four big-endian bytes, then the body.
pub open spec fn framed(body: Seq<u8>) -> Seq<u8> {
    be4(body.len()) + body
}

/// The frame carrying `body`; a body longer than `MAX_IPC_BODY` is refused
/// as `frame_header` refuses it.
pub fn encode_frame(body: &[u8]) -> (r: Result<Vec<u8>, CodecError>)
    ensures
        body@.len() <= MAX_IPC_BODY ==> (r matches Ok(v) && v@ == framed(body@)),
        body@.len() > MAX_IPC_BODY ==> (r matches Err(CodecError::FrameTooLarge { max, .. })
            && max == MAX_IPC_BODY),
{
    let h = match frame_header(body.len()) {
        Ok(h) => h,
        Err(e) => return Err(e),
    };
    let mut out: Vec<u8> = Vec::new();
    out.push(h[0]);
    out.push(h[1]);
    out.push(h[2]);
    out.push(h[3]);
    let mut i: usize = 0;
    while i < body.len()
        invariant
            i <= body@.len(),
            out@ == h@ + body@.take(i as int),
        decreases body@.len() - i,
    {
        out.push(body[i]);
        i += 1;
        assert(out@ =~= h@ + body@.take(i as int));
    }
    assert(body@.take(body@.len() as int) =~= body@);
    proof {
        let n = body@.len();
        assert(be_u32(h@) == n);
        assert(h@ =~= be4(n)) by {
            assert(h@[0] as int * 0x100_0000 + h@[1] as int * 0x1_0000 + h@[2] as int * 0x100
                + h@[3] as int == n);
            assert(h@[0] == ((n / 0x100_0000) % 0x100) as u8) by (nonlinear_arith)
                requires
                    h@[0] as int * 0x100_0000 + h@[1] as int * 0x1_0000 + h@[2] as int * 0x100
                        + h@[3] as int == n,
                    h@[0] < 256,
                    h@[1] < 256,
                    h@[2] < 256,
                    h@[3] < 256,
                    n <= MAX_IPC_BODY,
            ;
            assert(h@[1] == ((n / 0x1_0000) % 0x100) as u8) by (nonlinear_arith)
                requires
                    h@[0] as int * 0x100_0000 + h@[1] as int * 0x1_0000 + h@[2] as int * 0x100
                        + h@[3] as int == n,
                    h@[0] < 256,
                    h@[1] < 256,
                    h@[2] < 256,
                    h@[3] < 256,
            ;
            assert(h@[2] == ((n / 0x100) % 0x100) as u8) by (nonlinear_arith)
                requires
                    h@[0] as int * 0x100_0000 + h@[1] as int * 0x1_0000 + h@[2] as int * 0x100
                        + h@[3] as int == n,
                    h@[0] < 256,
                    h@[1] < 256,
                    h@[2] < 256,
                    h@[3] < 256,
            ;
            assert(h@[3] == (n % 0x100) as u8) by (nonlinear_arith)
                requires
                    h@[0] as int * 0x100_0000 + h@[1] as int * 0x1_0000 + h@[2] as int * 0x100
                        + h@[3] as int == n,
                    h@[0] < 256,
                    h@[1] < 256,
                    h@[2] < 256,
                    h@[3] < 256,
            ;
        }
    }
    Ok(out)
}

/// Law: a frame reads back as written. For a body of `0 < len <=
/// MAX_IPC_BODY` bytes, the frame is `4 + len` bytes long; its first four
/// bytes decode to `len`, which the reader's length check accepts; and the
/// `len` bytes after them are the body.
pub proof fn lemma_frame_reads_back(body: Seq<u8>)
    requires
        0 < body.len() <= MAX_IPC_BODY,
    ensures
        framed(body).len() == 4 + body.len(),
        be_u32(framed(body).take(4)) == body.len(),
        read_len_ok(be_u32(framed(body).take(4)) as u32),
        framed(body).subrange(4, 4 + body.len() as int) == body,
{
    let n = body.len();
    let f = framed(body);
    assert(f.take(4) =~= be4(n));
    assert(f.subrange(4, 4 + n as int) =~= body);
    assert(be_u32(be4(n)) == n) by (nonlinear_arith)
        requires
            be4(n)[0] == ((n / 0x100_0000) % 0x100) as u8,
            be4(n)[1] == ((n / 0x1_0000) % 0x100) as u8,
            be4(n)[2] == ((n / 0x100) % 0x100) as u8,
            be4(n)[3] == (n % 0x100) as u8,
            n <= MAX_IPC_BODY,
    ;
}

} // verus!
