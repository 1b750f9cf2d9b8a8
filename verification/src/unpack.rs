use vstd::prelude::*;
use crate::error::CorruptStreamError;

verus! {

/// Width in bits of the symbols of the tile stream; its codes start one bit
/// wider.
pub const SYMBOL_BITS: u8 = 8;

/// A decoder of the `lzw` crate that reads its codes least significant bit
/// first. Nothing of its inside is known here.
#[verifier::external_body]
pub struct CodeDecoder {
    inner: lzw::Decoder<lzw::LsbReader>,
}

/// What made a decoder the one it is: the symbol width that it was made with
/// and the inputs of the calls of `decode_bytes` on it since, in their order.
pub uninterp spec fn lzw_history(decoder: CodeDecoder) -> (u8, Seq<Seq<u8>>);

/// What `decode_bytes` returns for `input` on a decoder with this history:
/// `None` where it fails, else the number of bytes that it took from the
/// input and the bytes of the one code that it decoded.
pub uninterp spec fn lzw_step(history: (u8, Seq<Seq<u8>>), input: Seq<u8>) -> Option<(nat, Seq<u8>)>;

/// `lzw::Decoder::new` over `lzw::LsbReader::new()`: a decoder that reads its
/// codes least significant bit first and has not been called yet. Only
/// symbols of 8 bits are asked for, the one width that the tile stream uses:
/// its codes have 9 to 12 bits, within what the decoder can read.
#[verifier::external_body]
fn lzw_decoder(symbol_bits: u8) -> (decoder: CodeDecoder)
    requires
        symbol_bits == 8,
    ensures
        lzw_history(decoder) == (symbol_bits, Seq::<Seq<u8>>::empty()),
{
    CodeDecoder { inner: lzw::Decoder::new(lzw::LsbReader::new(), symbol_bits) }
}

/// `lzw::Decoder::decode_bytes`: reads at most one code from the front of
/// `bytes`. The result is the one that the decoder's history and the input
/// fix; it never takes more bytes than there are. The input joins the
/// history. An error of the decoder comes back as `None`.
#[verifier::external_body]
fn lzw_decode(decoder: &mut CodeDecoder, bytes: &[u8]) -> (r: Option<(usize, Vec<u8>)>)
    requires
        lzw_history(*old(decoder)).0 == 8,
    ensures
        lzw_history(*final(decoder)) == (
            lzw_history(*old(decoder)).0,
            lzw_history(*old(decoder)).1.push(bytes@),
        ),
        match r {
            Some((taken, out)) => taken <= bytes@.len() && lzw_step(
                lzw_history(*old(decoder)),
                bytes@,
            ) == Some((taken as nat, out@)),
            None => lzw_step(lzw_history(*old(decoder)), bytes@) is None,
        },
{
    match decoder.inner.decode_bytes(bytes) {
        Ok((taken, out)) => Some((taken, out.to_vec())),
        Err(_) => None,
    }
}

/// What a decoder with this history makes of `input`, code by code, until a
/// call takes no byte: the decoded bytes in a row, or `None` where a call
/// fails.
pub open spec fn unpacked_from(history: (u8, Seq<Seq<u8>>), input: Seq<u8>) -> Option<Seq<u8>>
    decreases input.len(),
{
    match lzw_step(history, input) {
        None => None,
        Some((taken, out)) => {
            if taken == 0 || taken > input.len() {
                Some(Seq::empty())
            } else {
                match unpacked_from((history.0, history.1.push(input)), input.skip(taken as int)) {
                    None => None,
                    Some(rest) => Some(out + rest),
                }
            }
        },
    }
}

/// The bytes that a compressed stream unpacks to, with a fresh decoder for
/// symbols of 8 bits.
pub open spec fn unpacked(input: Seq<u8>) -> Option<Seq<u8>> {
    unpacked_from((SYMBOL_BITS, Seq::<Seq<u8>>::empty()), input)
}

/// `ahead` after `done`, where there is an `ahead`.
pub open spec fn after(done: Seq<u8>, ahead: Option<Seq<u8>>) -> Option<Seq<u8>> {
    match ahead {
        None => None,
        Some(rest) => Some(done + rest),
    }
}

/// Unpacks a compressed stream.
pub fn unpack_lzw(bytes: &[u8]) -> (r: Result<Vec<u8>, CorruptStreamError>)
    ensures
        match r {
            Ok(data) => unpacked(bytes@) == Some(data@),
            Err(_) => unpacked(bytes@) is None,
        },
{
    let mut decoder = lzw_decoder(SYMBOL_BITS);
    let mut ret: Vec<u8> = Vec::new();
    let mut pos: usize = 0;
    assert(bytes@.skip(0) =~= bytes@);
    assert(Seq::<u8>::empty() + Seq::<u8>::empty() =~= Seq::<u8>::empty());
    loop
        invariant
            pos <= bytes@.len(),
            lzw_history(decoder).0 == SYMBOL_BITS,
            unpacked(bytes@) == after(
                ret@,
                unpacked_from(lzw_history(decoder), bytes@.skip(pos as int)),
            ),
        decreases bytes@.len() - pos,
    {
        let ghost history = lzw_history(decoder);
        let ghost done = ret@;
        let rest = vstd::slice::slice_subrange(bytes, pos, bytes.len());
        assert(rest@ =~= bytes@.skip(pos as int));
        match lzw_decode(&mut decoder, rest) {
            None => {
                return Err(CorruptStreamError);
            },
            Some((taken, mut out)) => {
                if taken == 0 {
                    assert(done + Seq::<u8>::empty() =~= done);
                    return Ok(ret);
                }
                let ghost piece = out@;
                ret.append(&mut out);
                pos += taken;
                proof {
                    assert(rest@.skip(taken as int) =~= bytes@.skip(pos as int));
                    let ahead = unpacked_from(lzw_history(decoder), bytes@.skip(pos as int));
                    if ahead is Some {
                        assert(done + (piece + ahead->0) =~= (done + piece) + ahead->0);
                    }
                }
            },
        }
    }
}

} // verus!
