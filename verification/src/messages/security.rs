//! Security-scheme identifiers, their registry, and the security result.
use vstd::prelude::*;

use crate::error::Error;
use crate::io::read_u32_be;
use crate::io::read_u8;
use crate::io::spec_u32_be;
use crate::io::spec_u32_from_be;
use crate::io::write_u32_be;
use crate::io::write_u8;
use crate::io::Decode;
use crate::io::DecodeFrom;
use crate::io::Encode;
use crate::io::EncodeTo;
use crate::io::Length;

verus! {

/// A wire-coded authentication scheme. Codes that name a vendor range
/// or are unassigned keep their raw code, so that every code
/// round-trips losslessly.
#[derive(Clone, Copy, Debug, PartialEq, Eq, Structural)]
pub enum SecurityType {
    Invalid,
    NoAuthentication,
    VncAuthentication,
    RealVnc(u8),
    Tight,
    Ultra,
    Tls,
    VeNCrypt,
    GtkVncSasl,
    Md5HashAuthentication,
    ColinDeanXvp,
    SecureTunnel,
    IntegratedSsh,
    AppleInc(u8),
    TightUnixLoginAuthentication,
    Unassigned(u8),
}

impl SecurityType {
    /// The symbol a wire code names.
    pub open spec fn spec_of_code(c: u8) -> SecurityType {
        if c == 0 {
            SecurityType::Invalid
        } else if c == 1 {
            SecurityType::NoAuthentication
        } else if c == 2 {
            SecurityType::VncAuthentication
        } else if (3 <= c && c <= 14) || c == 128 || (130 <= c && c <= 133) || c == 192 {
            SecurityType::RealVnc(c)
        } else if c == 16 {
            SecurityType::Tight
        } else if c == 17 {
            SecurityType::Ultra
        } else if c == 18 {
            SecurityType::Tls
        } else if c == 19 {
            SecurityType::VeNCrypt
        } else if c == 20 {
            SecurityType::GtkVncSasl
        } else if c == 21 {
            SecurityType::Md5HashAuthentication
        } else if c == 22 {
            SecurityType::ColinDeanXvp
        } else if c == 23 {
            SecurityType::SecureTunnel
        } else if c == 24 {
            SecurityType::IntegratedSsh
        } else if 30 <= c && c <= 35 {
            SecurityType::AppleInc(c)
        } else if c == 129 {
            SecurityType::TightUnixLoginAuthentication
        } else {
            SecurityType::Unassigned(c)
        }
    }

    /// The wire code of a symbol.
    pub open spec fn spec_code(self) -> u8 {
        match self {
            SecurityType::Invalid => 0,
            SecurityType::NoAuthentication => 1,
            SecurityType::VncAuthentication => 2,
            SecurityType::RealVnc(c) => c,
            SecurityType::Tight => 16,
            SecurityType::Ultra => 17,
            SecurityType::Tls => 18,
            SecurityType::VeNCrypt => 19,
            SecurityType::GtkVncSasl => 20,
            SecurityType::Md5HashAuthentication => 21,
            SecurityType::ColinDeanXvp => 22,
            SecurityType::SecureTunnel => 23,
            SecurityType::IntegratedSsh => 24,
            SecurityType::AppleInc(c) => c,
            SecurityType::TightUnixLoginAuthentication => 129,
            SecurityType::Unassigned(c) => c,
        }
    }

    /// A code-carrying variant holds a code of its own range: the one
    /// shape `spec_of_code` produces, so symbol-to-code is injective.
    pub open spec fn wf(self) -> bool {
        Self::spec_of_code(self.spec_code()) == self
    }

    /// Look a wire code up in the registry; unknown codes map to the
    /// catch-all, never to an error.
    pub fn from_code(c: u8) -> (r: SecurityType)
        ensures
            r == Self::spec_of_code(c),
            r.wf(),
    {
        let r = if c == 0 {
            SecurityType::Invalid
        } else if c == 1 {
            SecurityType::NoAuthentication
        } else if c == 2 {
            SecurityType::VncAuthentication
        } else if (3 <= c && c <= 14) || c == 128 || (130 <= c && c <= 133) || c == 192 {
            SecurityType::RealVnc(c)
        } else if c == 16 {
            SecurityType::Tight
        } else if c == 17 {
            SecurityType::Ultra
        } else if c == 18 {
            SecurityType::Tls
        } else if c == 19 {
            SecurityType::VeNCrypt
        } else if c == 20 {
            SecurityType::GtkVncSasl
        } else if c == 21 {
            SecurityType::Md5HashAuthentication
        } else if c == 22 {
            SecurityType::ColinDeanXvp
        } else if c == 23 {
            SecurityType::SecureTunnel
        } else if c == 24 {
            SecurityType::IntegratedSsh
        } else if 30 <= c && c <= 35 {
            SecurityType::AppleInc(c)
        } else if c == 129 {
            SecurityType::TightUnixLoginAuthentication
        } else {
            SecurityType::Unassigned(c)
        };
        r
    }

    /// The wire code this symbol encodes to.
    pub fn code(&self) -> (r: u8)
        ensures
            r == self.spec_code(),
    {
        match self {
            SecurityType::Invalid => 0,
            SecurityType::NoAuthentication => 1,
            SecurityType::VncAuthentication => 2,
            SecurityType::RealVnc(c) => *c,
            SecurityType::Tight => 16,
            SecurityType::Ultra => 17,
            SecurityType::Tls => 18,
            SecurityType::VeNCrypt => 19,
            SecurityType::GtkVncSasl => 20,
            SecurityType::Md5HashAuthentication => 21,
            SecurityType::ColinDeanXvp => 22,
            SecurityType::SecureTunnel => 23,
            SecurityType::IntegratedSsh => 24,
            SecurityType::AppleInc(c) => *c,
            SecurityType::TightUnixLoginAuthentication => 129,
            SecurityType::Unassigned(c) => *c,
        }
    }
}

/// Every wire code survives the registry unchanged: looking a code up
/// and reading the symbol's code back gives the code itself.
pub proof fn lemma_security_type_code_round(c: u8)
    ensures
        SecurityType::spec_of_code(c).spec_code() == c,
{
}

/// Every well-formed symbol survives the wire unchanged: encoding its
/// code and looking that code up gives the symbol itself.
pub proof fn lemma_security_type_round(t: SecurityType)
    requires
        t.wf(),
    ensures
        SecurityType::spec_of_code(t.spec_code()) == t,
{
}

impl Length for SecurityType {
    open spec fn spec_len() -> int {
        1
    }

    fn length() -> usize {
        1
    }
}

impl Encode for SecurityType {
    open spec fn spec_enc(&self) -> Seq<u8> {
        seq![self.spec_code()]
    }

    fn encode(&self) -> Vec<u8> {
        let mut out: Vec<u8> = Vec::new();
        write_u8(&mut out, self.code());
        out
    }
}

impl Decode for SecurityType {
    open spec fn spec_dec(s: Seq<u8>) -> Result<SecurityType, Error> {
        if s.len() < 1 {
            Err(Error::IoFailure)
        } else {
            Ok(SecurityType::spec_of_code(s[0]))
        }
    }

    fn decode(bytes: &[u8], pos: usize) -> (r: Result<(SecurityType, usize), Error>) {
        match read_u8(bytes, pos) {
            Ok((c, end)) => {
                proof {
                    let s = bytes@.skip(pos as int);
                    assert(s.len() == bytes@.len() - pos);
                    assert(s[0] == bytes@[pos as int]);
                }
                Ok((SecurityType::from_code(c), end))
            },
            Err(e) => {
                proof {
                    assert(bytes@.skip(pos as int).len() == bytes@.len() - pos);
                }
                Err(e)
            },
        }
    }
}

/// What the oldest revision's security record decodes to: its single
/// 4-byte big-endian code, as a symbol. Codes above one byte are not
/// assigned; they keep their low byte's meaning.
pub open spec fn spec_security_single_dec(s: Seq<u8>) -> Result<SecurityType, Error> {
    if s.len() < 4 {
        Err(Error::IoFailure)
    } else {
        Ok(SecurityType::spec_of_code((spec_u32_from_be(s.take(4)) & 0xff) as u8))
    }
}

impl SecurityType {
    /// Decode the oldest revision's single 4-byte security code: the
    /// deciding peer's unilateral choice.
    pub fn decode_single(bytes: &[u8], pos: usize) -> (r: Result<(SecurityType, usize), Error>)
        requires
            pos <= bytes@.len(),
        ensures
            bytes@.len() - pos < 4 ==> r == Err::<(SecurityType, usize), Error>(Error::IoFailure),
            bytes@.len() - pos >= 4 ==> (r matches Ok(p) && Ok::<SecurityType, Error>(p.0)
                == spec_security_single_dec(bytes@.skip(pos as int)) && p.1 == pos + 4),
    {
        proof {
            let s = bytes@.skip(pos as int);
            assert(s.len() == bytes@.len() - pos);
            if bytes@.len() - pos >= 4 {
                assert(s.take(4) =~= bytes@.subrange(pos as int, pos + 4));
            }
        }
        match read_u32_be(bytes, pos) {
            Ok((code, end)) => {
                let low =
                #[verifier::truncate]
                ((code & 0xff) as u8);
                Ok((SecurityType::from_code(low), end))
            },
            Err(e) => Err(e),
        }
    }
}

/// What a count-prefixed security-type list decodes to: the symbols,
/// in offer order, and the bytes consumed.
pub open spec fn spec_security_list_dec(s: Seq<u8>) -> Result<(Seq<SecurityType>, int), Error> {
    if s.len() < 1 {
        Err(Error::IoFailure)
    } else {
        let n = s[0] as int;
        if s.len() - 1 < n {
            Err(Error::IoFailure)
        } else {
            Ok((Seq::new(n as nat, |i: int| SecurityType::spec_of_code(s[1 + i])), 1 + n))
        }
    }
}

/// The wire form of a security-type list: a 1-byte count, then one
/// code per entry.
pub open spec fn spec_security_list_enc(ts: Seq<SecurityType>) -> Seq<u8>
    recommends
        ts.len() <= 255,
{
    seq![ts.len() as u8] + ts.map(|i: int, t: SecurityType| t.spec_code())
}

impl DecodeFrom for Vec<SecurityType> {
    /// Decode a count-prefixed list of security types.
    fn decode_from(bytes: &[u8], pos: usize) -> (r: Result<(Vec<SecurityType>, usize), Error>)
        ensures
            ({
                let sp = spec_security_list_dec(bytes@.skip(pos as int));
                match r {
                    Ok(p) => sp matches Ok(q) && p.0@ == q.0 && p.1 == pos + q.1,
                    Err(e) => sp matches Err(e2) && e == e2,
                }
            }),
    {
        let ghost s = bytes@.skip(pos as int);
        proof {
            assert(s.len() == bytes@.len() - pos);
            if s.len() >= 1 {
                assert(s[0] == bytes@[pos as int]);
            }
        }
        let (n, start) = match read_u8(bytes, pos) {
            Ok(p) => p,
            Err(e) => { return Err(e) },
        };
        if bytes.len() - start < n as usize {
            return Err(Error::IoFailure);
        }
        let mut out: Vec<SecurityType> = Vec::new();
        let mut i: usize = 0;
        while i < n as usize
            invariant
                out@.len() == i,
                0 <= i <= n,
                start + n <= bytes@.len(),
                bytes@.len() <= usize::MAX,
                start == pos + 1,
                pos <= bytes@.len(),
                s == bytes@.skip(pos as int),
                s.len() == bytes@.len() - pos,
                forall|j: int| 0 <= j < i ==> out@[j] == SecurityType::spec_of_code(s[1 + j]),
            decreases n - i,
        {
            let c = bytes[start + i];
            proof {
                assert(s[1 + i as int] == bytes@[pos + 1 + i as int]);
            }
            out.push(SecurityType::from_code(c));
            i = i + 1;
        }
        proof {
            assert(out@ =~= Seq::new(n as nat, |j: int| SecurityType::spec_of_code(s[1 + j])));
        }
        Ok((out, start + n as usize))
    }
}

impl EncodeTo for Vec<SecurityType> {
    /// Append the wire form of a security-type list; fails with
    /// `LengthOverflow`, leaving the buffer unchanged, when more than
    /// 255 entries are offered.
    fn encode_to(&self, buf: &mut Vec<u8>) -> (r: Result<(), Error>)
        ensures
            self@.len() <= 255 ==> (r is Ok && final(buf)@ == old(buf)@ + spec_security_list_enc(
                self@,
            )),
            self@.len() > 255 ==> (r == Err::<(), Error>(Error::LengthOverflow) && final(buf)@
                == old(buf)@),
    {
        let list = self;
        if list.len() > 255 {
            return Err(Error::LengthOverflow);
        }
        let ghost prefix = buf@;
        write_u8(buf, list.len() as u8);
        let mut i: usize = 0;
        while i < list.len()
            invariant
                0 <= i <= list@.len(),
                list@.len() <= 255,
                buf@ == prefix + seq![list@.len() as u8] + list@.take(i as int).map(
                    |j: int, t: SecurityType| t.spec_code(),
                ),
            decreases list@.len() - i,
        {
            let ghost before = buf@;
            write_u8(buf, list[i].code());
            proof {
                assert(list@.take(i + 1).map(|j: int, t: SecurityType| t.spec_code()) =~= list@.take(
                    i as int,
                ).map(|j: int, t: SecurityType| t.spec_code()) + seq![list@[i as int].spec_code()]);
                assert(buf@ =~= prefix + seq![list@.len() as u8] + list@.take(i + 1).map(
                    |j: int, t: SecurityType| t.spec_code(),
                ));
            }
            i = i + 1;
        }
        proof {
            assert(list@.take(list@.len() as int) =~= list@);
            assert(buf@ =~= prefix + spec_security_list_enc(list@));
        }
        Ok(())
    }
}

/// Decoding an encoded security-type list of well-formed symbols gives
/// back exactly that list.
pub proof fn lemma_security_list_round_trip(ts: Seq<SecurityType>)
    requires
        ts.len() <= 255,
        forall|i: int| 0 <= i < ts.len() ==> #[trigger] ts[i].wf(),
    ensures
        spec_security_list_dec(spec_security_list_enc(ts)) == Ok::<(Seq<SecurityType>, int), Error>(
            (ts, 1 + ts.len() as int),
        ),
{
    let e = spec_security_list_enc(ts);
    assert(e.len() == 1 + ts.len());
    assert(e[0] == ts.len() as u8);
    let dec = Seq::new(ts.len(), |i: int| SecurityType::spec_of_code(e[1 + i]));
    assert forall|i: int| 0 <= i < ts.len() implies dec[i] == ts[i] by {
        assert(e[1 + i] == ts[i].spec_code());
        assert(ts[i].wf());
    }
    assert(dec =~= ts);
}

/// The outcome of authentication, a 4-byte big-endian code.
#[derive(Clone, Copy, Debug, PartialEq, Eq, Structural)]
pub enum SecurityResult {
    Accepted,
    Failed,
    TooManyAttempts,
}

impl SecurityResult {
    /// The wire code of an outcome.
    pub open spec fn spec_code(self) -> u32 {
        match self {
            SecurityResult::Accepted => 0,
            SecurityResult::Failed => 1,
            SecurityResult::TooManyAttempts => 2,
        }
    }
}

impl Length for SecurityResult {
    open spec fn spec_len() -> int {
        4
    }

    fn length() -> usize {
        4
    }
}

impl Encode for SecurityResult {
    open spec fn spec_enc(&self) -> Seq<u8> {
        spec_u32_be(self.spec_code())
    }

    fn encode(&self) -> Vec<u8> {
        let mut out: Vec<u8> = Vec::new();
        let c: u32 = match self {
            SecurityResult::Accepted => 0,
            SecurityResult::Failed => 1,
            SecurityResult::TooManyAttempts => 2,
        };
        write_u32_be(&mut out, c);
        out
    }
}

impl Decode for SecurityResult {
    /// Codes other than the three defined outcomes are a protocol
    /// violation, `BadResponse`.
    open spec fn spec_dec(s: Seq<u8>) -> Result<SecurityResult, Error> {
        if s.len() < 4 {
            Err(Error::IoFailure)
        } else {
            let c = spec_u32_from_be(s.take(4));
            if c == 0 {
                Ok(SecurityResult::Accepted)
            } else if c == 1 {
                Ok(SecurityResult::Failed)
            } else if c == 2 {
                Ok(SecurityResult::TooManyAttempts)
            } else {
                Err(Error::BadResponse)
            }
        }
    }

    fn decode(bytes: &[u8], pos: usize) -> (r: Result<(SecurityResult, usize), Error>) {
        proof {
            let s = bytes@.skip(pos as int);
            assert(s.len() == bytes@.len() - pos);
            if bytes@.len() - pos >= 4 {
                assert(s.take(4) =~= bytes@.subrange(pos as int, pos + 4));
            }
        }
        let (c, end) = match read_u32_be(bytes, pos) {
            Ok(p) => p,
            Err(e) => { return Err(e) },
        };
        if c == 0 {
            Ok((SecurityResult::Accepted, end))
        } else if c == 1 {
            Ok((SecurityResult::Failed, end))
        } else if c == 2 {
            Ok((SecurityResult::TooManyAttempts, end))
        } else {
            Err(Error::BadResponse)
        }
    }
}

/// Decoding the 4-byte wire form of any outcome gives it back.
pub proof fn lemma_security_result_round_trip(x: SecurityResult)
    ensures
        SecurityResult::spec_dec(x.spec_enc()) == Ok::<SecurityResult, Error>(x),
{
    crate::io::lemma_u32_be_round(x.spec_code());
    assert(x.spec_enc().take(4) =~= x.spec_enc());
}

} // verus!
