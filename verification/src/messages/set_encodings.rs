//! The client's declaration of the pixel encodings it accepts.
use vstd::prelude::*;

use crate::encodings::EncodingType;
use crate::error::Error;
use crate::io::read_i32_be;
use crate::io::read_u16_be;
use crate::io::spec_i32_be;
use crate::io::spec_i32_from_be;
use crate::io::spec_u16_be;
use crate::io::spec_u16_from_be;
use crate::io::write_i32_be;
use crate::io::write_u16_be;
use crate::io::write_u8;
use crate::io::DecodeFrom;
use crate::io::EncodeTo;

verus! {

/// The encodings a client can interpret, in order of preference.
#[derive(Clone, Debug, PartialEq, Eq)]
pub struct SetEncodings {
    pub encodings: Vec<EncodingType>,
}

/// The concatenated 4-byte wire codes of an encoding list.
pub open spec fn spec_encoding_codes(es: Seq<EncodingType>) -> Seq<u8> {
    Seq::new((4 * es.len()) as nat, |k: int| spec_i32_be(es[k / 4].spec_code())[k % 4])
}

/// What a set-encodings message decodes to: the symbols, in preference
/// order, and the bytes consumed. The tag and padding bytes are
/// ignored on decode.
pub open spec fn spec_set_encodings_dec(s: Seq<u8>) -> Result<(Seq<EncodingType>, int), Error> {
    if s.len() < 4 {
        Err(Error::IoFailure)
    } else {
        let n = spec_u16_from_be(s.subrange(2, 4)) as int;
        if s.len() - 4 < 4 * n {
            Err(Error::IoFailure)
        } else {
            Ok(
                (
                    Seq::new(
                        n as nat,
                        |i: int|
                            EncodingType::spec_of_code(
                                spec_i32_from_be(s.subrange(4 + 4 * i, 8 + 4 * i)),
                            ),
                    ),
                    4 + 4 * n,
                ),
            )
        }
    }
}

/// The wire form of a set-encodings message: the tag, one zero padding
/// byte, a 2-byte count, then one 4-byte code per entry.
pub open spec fn spec_set_encodings_enc(es: Seq<EncodingType>) -> Seq<u8>
    recommends
        es.len() <= 65535,
{
    seq![2u8, 0u8] + spec_u16_be(es.len() as u16) + spec_encoding_codes(es)
}

impl DecodeFrom for SetEncodings {
    /// Decode a set-encodings message at the cursor (tag included).
    fn decode_from(bytes: &[u8], pos: usize) -> (r: Result<(SetEncodings, usize), Error>)
        ensures
            ({
                let sp = spec_set_encodings_dec(bytes@.skip(pos as int));
                match r {
                    Ok(p) => sp matches Ok(q) && p.0.encodings@ == q.0 && p.1 == pos + q.1,
                    Err(e) => sp matches Err(e2) && e == e2,
                }
            }),
    {
        let ghost s = bytes@.skip(pos as int);
        proof {
            assert(s.len() == bytes@.len() - pos);
            if s.len() >= 4 {
                assert(s.subrange(2, 4) =~= bytes@.subrange(pos + 2, pos + 4));
            }
        }
        if bytes.len() - pos < 4 {
            return Err(Error::IoFailure);
        }
        let n = match read_u16_be(bytes, pos + 2) {
            Ok(p) => p.0,
            Err(_) => { return Err(Error::IoFailure) },
        };
        let start = pos + 4;
        if (bytes.len() - start) / 4 < n as usize {
            return Err(Error::IoFailure);
        }
        let mut out: Vec<EncodingType> = Vec::new();
        let mut i: usize = 0;
        let mut cur: usize = start;
        while i < n as usize
            invariant
                out@.len() == i,
                0 <= i <= n,
                cur == start + 4 * i,
                start == pos + 4,
                start + 4 * (n as int) <= bytes@.len(),
                bytes@.len() <= usize::MAX,
                pos <= bytes@.len(),
                s == bytes@.skip(pos as int),
                s.len() == bytes@.len() - pos,
                forall|j: int|
                    0 <= j < i ==> out@[j] == EncodingType::spec_of_code(
                        spec_i32_from_be(s.subrange(4 + 4 * j, 8 + 4 * j)),
                    ),
            decreases n - i,
        {
            let (code, next) = match read_i32_be(bytes, cur) {
                Ok(p) => p,
                Err(_) => {
                    proof {
                        assert(false);
                    }
                    return Err(Error::IoFailure);
                },
            };
            proof {
                assert(s.subrange(4 + 4 * i, 8 + 4 * i) =~= bytes@.subrange(
                    cur as int,
                    cur + 4,
                ));
            }
            out.push(EncodingType::from_code(code));
            i = i + 1;
            cur = next;
        }
        proof {
            assert(out@ =~= Seq::new(
                n as nat,
                |j: int|
                    EncodingType::spec_of_code(spec_i32_from_be(s.subrange(4 + 4 * j, 8 + 4 * j))),
            ));
        }
        Ok((SetEncodings { encodings: out }, cur))
    }
}

impl EncodeTo for SetEncodings {
    /// Append the wire form of this message; fails with
    /// `LengthOverflow`, leaving the buffer unchanged, when more than
    /// 65535 encodings are declared.
    fn encode_to(&self, buf: &mut Vec<u8>) -> (r: Result<(), Error>)
        ensures
            self.encodings@.len() <= 65535 ==> (r is Ok && final(buf)@ == old(buf)@
                + spec_set_encodings_enc(self.encodings@)),
            self.encodings@.len() > 65535 ==> (r == Err::<(), Error>(Error::LengthOverflow)
                && final(buf)@ == old(buf)@),
    {
        if self.encodings.len() > 65535 {
            return Err(Error::LengthOverflow);
        }
        let ghost prefix = buf@;
        let ghost es = self.encodings@;
        write_u8(buf, 2);
        write_u8(buf, 0);
        write_u16_be(buf, self.encodings.len() as u16);
        let ghost hdr = seq![2u8, 0u8] + spec_u16_be(es.len() as u16);
        proof {
            assert(buf@ =~= prefix + hdr);
            assert(buf@ =~= prefix + hdr + spec_encoding_codes(es.take(0)));
        }
        let mut i: usize = 0;
        while i < self.encodings.len()
            invariant
                0 <= i <= es.len(),
                es.len() <= 65535,
                self.encodings@ == es,
                buf@ == prefix + hdr + spec_encoding_codes(es.take(i as int)),
            decreases es.len() - i,
        {
            write_i32_be(buf, self.encodings[i].code());
            proof {
                lemma_encoding_codes_snoc(es, i as int);
                assert(buf@ =~= prefix + hdr + spec_encoding_codes(es.take(i + 1)));
            }
            i = i + 1;
        }
        proof {
            assert(es.take(es.len() as int) =~= es);
            assert(buf@ =~= prefix + spec_set_encodings_enc(es));
        }
        Ok(())
    }
}

/// One more entry appends exactly its four code bytes.
proof fn lemma_encoding_codes_snoc(es: Seq<EncodingType>, i: int)
    requires
        0 <= i < es.len(),
    ensures
        spec_encoding_codes(es.take(i + 1)) == spec_encoding_codes(es.take(i)) + spec_i32_be(
            es[i].spec_code(),
        ),
{
    let lhs = spec_encoding_codes(es.take(i + 1));
    let rhs = spec_encoding_codes(es.take(i)) + spec_i32_be(es[i].spec_code());
    assert(spec_i32_be(es[i].spec_code()).len() == 4);
    assert forall|k: int| 0 <= k < 4 * (i + 1) implies lhs[k] == rhs[k] by {
        assert(es.take(i + 1)[k / 4] == es[k / 4]);
        if k < 4 * i {
            assert(es.take(i)[k / 4] == es[k / 4]);
        } else {
            assert(k / 4 == i && k % 4 == k - 4 * i);
        }
    }
    assert(lhs =~= rhs);
}

/// Decoding an encoded list of well-formed encodings gives back
/// exactly that list.
pub proof fn lemma_set_encodings_round_trip(es: Seq<EncodingType>)
    requires
        es.len() <= 65535,
        forall|i: int| 0 <= i < es.len() ==> #[trigger] es[i].wf(),
    ensures
        spec_set_encodings_dec(spec_set_encodings_enc(es)) == Ok::<(Seq<EncodingType>, int), Error>(
            (es, 4 + 4 * es.len() as int),
        ),
{
    let e = spec_set_encodings_enc(es);
    let n = es.len() as int;
    assert(e.len() == 4 + 4 * n);
    assert(e.subrange(2, 4) =~= spec_u16_be(es.len() as u16));
    crate::io::lemma_u16_be_round(es.len() as u16);
    let dec = Seq::new(
        n as nat,
        |i: int| EncodingType::spec_of_code(spec_i32_from_be(e.subrange(4 + 4 * i, 8 + 4 * i))),
    );
    assert forall|i: int| 0 <= i < n implies dec[i] == es[i] by {
        assert(e.subrange(4 + 4 * i, 8 + 4 * i) =~= spec_i32_be(es[i].spec_code())) by {
            assert forall|k: int| 0 <= k < 4 implies e.subrange(4 + 4 * i, 8 + 4 * i)[k]
                == spec_i32_be(es[i].spec_code())[k] by {
                assert(e[4 + 4 * i + k] == spec_encoding_codes(es)[4 * i + k]);
                assert((4 * i + k) / 4 == i && (4 * i + k) % 4 == k);
            }
        }
        crate::io::lemma_i32_be_round(es[i].spec_code());
        assert(es[i].wf());
    }
    assert(dec =~= es);
}

} // verus!
