//! The frame of a serialized machine: two decimal digits for the version
//! of the format, then the base64 text of the zlib-compressed bytes of the
//! machine. The library makes and opens the frame; what the bytes inside
//! say of a machine is the embedder's to write and to read.

use vstd::prelude::*;
use vstd::slice::slice_subrange;
use base64::Engine;
use std::io::{Read, Write};
use crate::constants::{MAX_DECOMPRESSED_SIZE, VERSION};
use crate::error::Error;

verus! {

/// `base64::DecodeError`, carried through unopened.
#[verifier::external_type_specification]
#[verifier::external_body]
pub struct ExDecodeError(base64::DecodeError);

/// `std::io::Error`, carried through unopened.
#[verifier::external_type_specification]
#[verifier::external_body]
pub struct ExIoError(std::io::Error);

/// The zlib stream that the compressor makes of the data at its best
/// level; nothing where the compressor reports an error.
pub uninterp spec fn zlib_of(data: Seq<u8>) -> Option<Seq<u8>>;

/// The first `cap` bytes, at most, of what a zlib stream decompresses to;
/// nothing if the bytes are no zlib stream.
pub uninterp spec fn inflated(data: Seq<u8>, cap: u64) -> Option<Seq<u8>>;

/// How many of the bytes the decompressor has taken in when it has given
/// out the first `cap` bytes, at most, of what they decompress to.
pub uninterp spec fn inflate_consumed(data: Seq<u8>, cap: u64) -> u64;

/// The text of the data in base64, with the standard alphabet and
/// padding, as ASCII bytes.
pub uninterp spec fn base64_of(data: Seq<u8>) -> Seq<u8>;

/// The data that a base64 text stands for; nothing if the text is not
/// base64.
pub uninterp spec fn base64_decoded(text: Seq<u8>) -> Option<Seq<u8>>;

/// `flate2::write::ZlibEncoder` at `flate2::Compression::best()`, given
/// all the data and finished. It writes to memory, so whether the encoder
/// reports an error, and what it wrote if not, is a function of the data
/// alone.
#[verifier::external_body]
fn zlib_compress(data: &[u8]) -> (r: Result<Vec<u8>, std::io::Error>)
    ensures
        match zlib_of(data@) {
            Some(stream) => r is Ok && r->Ok_0@ == stream,
            None => r is Err,
        },
{
    let mut encoder = flate2::write::ZlibEncoder::new(Vec::new(), flate2::Compression::best());
    encoder.write_all(data)?;
    encoder.finish()
}

/// `flate2::read::ZlibDecoder`, read to its end through `Read::take`
/// with `cap`, and then asked with `total_in` how many bytes it took in.
/// At most `cap` bytes come out, and whether, what and how many is a
/// function of the data and `cap` alone. Of the zlib stream that the
/// compressor made of less than `cap` bytes, these bytes come out and
/// the whole stream is taken in.
#[verifier::external_body]
fn zlib_inflate(data: &[u8], cap: u64) -> (r: Result<(Vec<u8>, u64), std::io::Error>)
    ensures
        r is Ok ==> inflated(data@, cap) == Some(r->Ok_0.0@) && r->Ok_0.0@.len() <= cap
            && r->Ok_0.1 == inflate_consumed(data@, cap),
        r is Err ==> inflated(data@, cap).is_none(),
        forall|d: Seq<u8>|
            zlib_of(d) == Some(data@) && d.len() < cap ==> r is Ok && r->Ok_0.0@ == d && r->Ok_0.1
                == data@.len(),
{
    let mut decoder = flate2::read::ZlibDecoder::new(data);
    let mut out = Vec::new();
    decoder.by_ref().take(cap).read_to_end(&mut out)?;
    Ok((out, decoder.total_in()))
}

/// `base64::Engine::encode` of `base64::prelude::BASE64_STANDARD`, as
/// bytes: the base64 text of the data, a function of the data alone. The
/// call panics where the length of the text cannot be counted, which the
/// precondition rules out.
#[verifier::external_body]
fn base64_encode(data: &[u8]) -> (r: Vec<u8>)
    requires
        data@.len() <= usize::MAX / 2,
    ensures
        r@ == base64_of(data@),
{
    base64::prelude::BASE64_STANDARD.encode(data).into_bytes()
}

/// `base64::Engine::decode` of `base64::prelude::BASE64_STANDARD`:
/// whether and what it decodes is a function of the text alone. Of the
/// base64 text of some data, the data comes out.
#[verifier::external_body]
fn base64_decode(text: &[u8]) -> (r: Result<Vec<u8>, base64::DecodeError>)
    ensures
        r is Ok ==> base64_decoded(text@) == Some(r->Ok_0@),
        r is Err ==> base64_decoded(text@).is_none(),
        forall|d: Seq<u8>| text@ == base64_of(d) ==> r is Ok && r->Ok_0@ == d,
{
    base64::prelude::BASE64_STANDARD.decode(text)
}

/// The two decimal digits of the version of the format.
pub open spec fn version_digits() -> Seq<u8> {
    seq![(48 + VERSION / 10) as u8, (48 + VERSION % 10) as u8]
}

/// Whether bytes can be framed: the compressor makes a stream of them,
/// the stream is short enough for the length of its base64 text to be
/// counted, and that text is not empty.
pub open spec fn can_frame(payload: Seq<u8>) -> bool {
    &&& zlib_of(payload).is_some()
    &&& zlib_of(payload).unwrap().len() <= usize::MAX / 2
    &&& base64_of(zlib_of(payload).unwrap()).len() > 0
}

/// The frame around the bytes of a machine: the digits of the version,
/// then the base64 text of the zlib stream of the bytes.
pub open spec fn framed(payload: Seq<u8>) -> Seq<u8> {
    version_digits() + base64_of(zlib_of(payload).unwrap())
}

/// What is in a frame. There is nothing in a text of less than three
/// bytes, nor in one that begins with other digits than those of the
/// version, nor where what follows them is not base64 of a zlib stream,
/// nor where bytes follow the end of the stream, nor where the stream
/// holds more than `MAX_DECOMPRESSED_SIZE` bytes.
pub open spec fn unframed(text: Seq<u8>) -> Result<Seq<u8>, Error> {
    let cap = (MAX_DECOMPRESSED_SIZE + 1) as u64;
    if text.len() < 3 || text[0] != version_digits()[0] || text[1] != version_digits()[1] {
        Err(Error::Serialization)
    } else {
        match base64_decoded(text.skip(2)) {
            None => Err(Error::Serialization),
            Some(compressed) => match inflated(compressed, cap) {
                None => Err(Error::Serialization),
                Some(payload) => if payload.len() > MAX_DECOMPRESSED_SIZE || inflate_consumed(
                    compressed,
                    cap,
                ) != compressed.len() {
                    Err(Error::Serialization)
                } else {
                    Ok(payload)
                },
            },
        }
    }
}

/// Puts the bytes of a machine in a frame. It fails where the compressor
/// reports an error, where the compressed bytes are too many for the
/// length of their base64 text to be counted, and where that text is
/// empty; nowhere else. A frame has three bytes or more.
pub fn encode(payload: &[u8]) -> (r: Result<Vec<u8>, Error>)
    ensures
        r is Ok <==> can_frame(payload@),
        r is Ok ==> r->Ok_0@ == framed(payload@) && r->Ok_0@.len() >= 3,
        r is Err ==> r->Err_0 == Error::Serialization,
{
    let compressed = match zlib_compress(payload) {
        Ok(c) => c,
        Err(_) => {
            return Err(Error::Serialization);
        },
    };
    if compressed.len() > usize::MAX / 2 {
        return Err(Error::Serialization);
    }
    let text = base64_encode(compressed.as_slice());
    if text.len() == 0 {
        return Err(Error::Serialization);
    }
    let mut out: Vec<u8> = Vec::new();
    out.push(48 + VERSION / 10);
    out.push(48 + VERSION % 10);
    let mut k: usize = 0;
    while k < text.len()
        invariant
            k <= text.len(),
            out@ == version_digits() + text@.take(k as int),
        decreases text.len() - k,
    {
        out.push(text[k]);
        k = k + 1;
    }
    Ok(out)
}

/// Opens a frame and returns the bytes of the machine in it. A text of
/// less than three bytes holds no frame. Of every frame that [`encode`]
/// makes of `MAX_DECOMPRESSED_SIZE` bytes or less, these bytes come out
/// again.
pub fn decode(text: &[u8]) -> (r: Result<Vec<u8>, Error>)
    ensures
        match unframed(text@) {
            Ok(payload) => r is Ok && r->Ok_0@ == payload,
            Err(e) => r is Err && r->Err_0 == e,
        },
        text@.len() < 3 ==> r is Err,
        forall|payload: Seq<u8>|
            payload.len() <= MAX_DECOMPRESSED_SIZE && can_frame(payload) && text@
                == #[trigger] framed(payload) ==> r is Ok && r->Ok_0@ == payload,
{
    if text.len() < 3 {
        return Err(Error::Serialization);
    }
    if text[0] != 48 + VERSION / 10 || text[1] != 48 + VERSION % 10 {
        return Err(Error::Serialization);
    }
    let rest = slice_subrange(text, 2, text.len());
    assert forall|payload: Seq<u8>| text@ == #[trigger] framed(payload) implies rest@ == base64_of(
        zlib_of(payload).unwrap(),
    ) by {}
    let compressed = match base64_decode(rest) {
        Ok(c) => c,
        Err(_) => {
            return Err(Error::Serialization);
        },
    };
    let (payload, consumed) = match zlib_inflate(
        compressed.as_slice(),
        MAX_DECOMPRESSED_SIZE as u64 + 1,
    ) {
        Ok(p) => p,
        Err(_) => {
            return Err(Error::Serialization);
        },
    };
    if payload.len() > MAX_DECOMPRESSED_SIZE || consumed != compressed.len() as u64 {
        return Err(Error::Serialization);
    }
    Ok(payload)
}

} // verus!
