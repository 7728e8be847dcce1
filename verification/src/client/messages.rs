//! Client-to-server messages: the tag registry and the tagged codec.
use vstd::prelude::*;

use crate::encodings::EncodingType;
use crate::error::Error;
use crate::io::read_string;
use crate::io::read_u16_be;
use crate::io::read_u8;
use crate::io::spec_string_dec;
use crate::io::spec_string_enc;
use crate::io::spec_string_enc_ok;
use crate::io::spec_u16_be;
use crate::io::spec_u16_from_be;
use crate::io::write_bytes;
use crate::io::write_string;
use crate::io::write_u16_be;
use crate::io::write_u8;
use crate::io::Decode;
use crate::io::DecodeFrom;
use crate::io::Encode;
use crate::io::EncodeTo;
use crate::io::Length;
use crate::messages::framebuffer_update_request::FramebufferUpdateRequest;
use crate::messages::key_event::KeyEvent;
use crate::messages::pixel_format::PixelFormat;
use crate::messages::set_encodings::spec_set_encodings_dec;
use crate::messages::set_encodings::spec_set_encodings_enc;
use crate::messages::set_encodings::SetEncodings;

verus! {

/// The registry of client-to-server message tags. Vendor tags that
/// share a symbol, and unassigned tags, keep their raw code, so that
/// every tag round-trips losslessly.
#[derive(Clone, Copy, Debug, PartialEq, Eq, Structural)]
pub enum ClientMessageType {
    SetPixelFormat,
    Unassigned(u8),
    SetEncodings,
    FramebufferUpdateRequest,
    KeyEvent,
    PointerEvent,
    ClientCutText,
    VmWare(u8),
    CarConnectivity,
    TightVncEnableContinuousUpdates,
    ReplitAudioClientMessage,
    DellEmc,
    ClientFence,
    OliveCallControl,
    ColinDeanXvp,
    PierreOssmanSetDesktopSize,
    Tight,
    Gii,
    AnthonyLiguori,
}

impl ClientMessageType {
    /// The symbol a tag names.
    pub open spec fn spec_of_code(c: u8) -> ClientMessageType {
        if c == 0 {
            ClientMessageType::SetPixelFormat
        } else if c == 2 {
            ClientMessageType::SetEncodings
        } else if c == 3 {
            ClientMessageType::FramebufferUpdateRequest
        } else if c == 4 {
            ClientMessageType::KeyEvent
        } else if c == 5 {
            ClientMessageType::PointerEvent
        } else if c == 6 {
            ClientMessageType::ClientCutText
        } else if c == 127 || c == 254 {
            ClientMessageType::VmWare(c)
        } else if c == 128 {
            ClientMessageType::CarConnectivity
        } else if c == 150 {
            ClientMessageType::TightVncEnableContinuousUpdates
        } else if c == 245 {
            ClientMessageType::ReplitAudioClientMessage
        } else if c == 246 {
            ClientMessageType::DellEmc
        } else if c == 248 {
            ClientMessageType::ClientFence
        } else if c == 249 {
            ClientMessageType::OliveCallControl
        } else if c == 250 {
            ClientMessageType::ColinDeanXvp
        } else if c == 251 {
            ClientMessageType::PierreOssmanSetDesktopSize
        } else if c == 252 {
            ClientMessageType::Tight
        } else if c == 253 {
            ClientMessageType::Gii
        } else if c == 255 {
            ClientMessageType::AnthonyLiguori
        } else {
            ClientMessageType::Unassigned(c)
        }
    }

    /// The tag of a symbol.
    pub open spec fn spec_code(self) -> u8 {
        match self {
            ClientMessageType::SetPixelFormat => 0,
            ClientMessageType::Unassigned(c) => c,
            ClientMessageType::SetEncodings => 2,
            ClientMessageType::FramebufferUpdateRequest => 3,
            ClientMessageType::KeyEvent => 4,
            ClientMessageType::PointerEvent => 5,
            ClientMessageType::ClientCutText => 6,
            ClientMessageType::VmWare(c) => c,
            ClientMessageType::CarConnectivity => 128,
            ClientMessageType::TightVncEnableContinuousUpdates => 150,
            ClientMessageType::ReplitAudioClientMessage => 245,
            ClientMessageType::DellEmc => 246,
            ClientMessageType::ClientFence => 248,
            ClientMessageType::OliveCallControl => 249,
            ClientMessageType::ColinDeanXvp => 250,
            ClientMessageType::PierreOssmanSetDesktopSize => 251,
            ClientMessageType::Tight => 252,
            ClientMessageType::Gii => 253,
            ClientMessageType::AnthonyLiguori => 255,
        }
    }

    /// A code-carrying variant holds a tag of its own range.
    pub open spec fn wf(self) -> bool {
        Self::spec_of_code(self.spec_code()) == self
    }

    /// Look a tag up in the registry; unknown tags map to the
    /// catch-all, never to an error.
    pub fn from_code(c: u8) -> (r: ClientMessageType)
        ensures
            r == Self::spec_of_code(c),
            r.wf(),
    {
        if c == 0 {
            ClientMessageType::SetPixelFormat
        } else if c == 2 {
            ClientMessageType::SetEncodings
        } else if c == 3 {
            ClientMessageType::FramebufferUpdateRequest
        } else if c == 4 {
            ClientMessageType::KeyEvent
        } else if c == 5 {
            ClientMessageType::PointerEvent
        } else if c == 6 {
            ClientMessageType::ClientCutText
        } else if c == 127 || c == 254 {
            ClientMessageType::VmWare(c)
        } else if c == 128 {
            ClientMessageType::CarConnectivity
        } else if c == 150 {
            ClientMessageType::TightVncEnableContinuousUpdates
        } else if c == 245 {
            ClientMessageType::ReplitAudioClientMessage
        } else if c == 246 {
            ClientMessageType::DellEmc
        } else if c == 248 {
            ClientMessageType::ClientFence
        } else if c == 249 {
            ClientMessageType::OliveCallControl
        } else if c == 250 {
            ClientMessageType::ColinDeanXvp
        } else if c == 251 {
            ClientMessageType::PierreOssmanSetDesktopSize
        } else if c == 252 {
            ClientMessageType::Tight
        } else if c == 253 {
            ClientMessageType::Gii
        } else if c == 255 {
            ClientMessageType::AnthonyLiguori
        } else {
            ClientMessageType::Unassigned(c)
        }
    }

    /// The tag this symbol encodes to.
    pub fn code(&self) -> (r: u8)
        ensures
            r == self.spec_code(),
    {
        match self {
            ClientMessageType::SetPixelFormat => 0,
            ClientMessageType::Unassigned(c) => *c,
            ClientMessageType::SetEncodings => 2,
            ClientMessageType::FramebufferUpdateRequest => 3,
            ClientMessageType::KeyEvent => 4,
            ClientMessageType::PointerEvent => 5,
            ClientMessageType::ClientCutText => 6,
            ClientMessageType::VmWare(c) => *c,
            ClientMessageType::CarConnectivity => 128,
            ClientMessageType::TightVncEnableContinuousUpdates => 150,
            ClientMessageType::ReplitAudioClientMessage => 245,
            ClientMessageType::DellEmc => 246,
            ClientMessageType::ClientFence => 248,
            ClientMessageType::OliveCallControl => 249,
            ClientMessageType::ColinDeanXvp => 250,
            ClientMessageType::PierreOssmanSetDesktopSize => 251,
            ClientMessageType::Tight => 252,
            ClientMessageType::Gii => 253,
            ClientMessageType::AnthonyLiguori => 255,
        }
    }
}

impl From<u8> for ClientMessageType {
    /// The registry lookup, as the std conversion.
    fn from(c: u8) -> (r: ClientMessageType) {
        ClientMessageType::from_code(c)
    }
}

impl vstd::std_specs::convert::FromSpecImpl<u8> for ClientMessageType {
    open spec fn obeys_from_spec() -> bool {
        true
    }

    open spec fn from_spec(c: u8) -> ClientMessageType {
        ClientMessageType::spec_of_code(c)
    }
}

/// Every tag survives the registry unchanged.
pub proof fn lemma_client_message_type_code_round(c: u8)
    ensures
        ClientMessageType::spec_of_code(c).spec_code() == c,
{
}

/// Every well-formed symbol survives the wire unchanged.
pub proof fn lemma_client_message_type_round(t: ClientMessageType)
    requires
        t.wf(),
    ensures
        ClientMessageType::spec_of_code(t.spec_code()) == t,
{
}

/// Asks the server to deliver pixels in the given format from now on.
#[derive(Clone, Copy, Debug, PartialEq, Eq, Structural)]
pub struct SetPixelFormat {
    pub pixel_format: PixelFormat,
}

impl Length for SetPixelFormat {
    open spec fn spec_len() -> int {
        20
    }

    fn length() -> usize {
        20
    }
}

impl Encode for SetPixelFormat {
    /// The 20-byte layout: the tag, three zero padding bytes, then
    /// the 16-byte pixel format.
    open spec fn spec_enc(&self) -> Seq<u8> {
        seq![0u8, 0u8, 0u8, 0u8] + self.pixel_format.spec_enc()
    }

    fn encode(&self) -> Vec<u8> {
        let mut out: Vec<u8> = Vec::new();
        write_u8(&mut out, 0);
        write_u8(&mut out, 0);
        write_u8(&mut out, 0);
        write_u8(&mut out, 0);
        let pf = self.pixel_format.encode();
        write_bytes(&mut out, pf.as_slice());
        proof {
            assert(out@ =~= self.spec_enc());
        }
        out
    }
}

impl Decode for SetPixelFormat {
    /// The tag and padding bytes are ignored on decode.
    open spec fn spec_dec(s: Seq<u8>) -> Result<SetPixelFormat, Error> {
        if s.len() < 20 {
            Err(Error::IoFailure)
        } else {
            match PixelFormat::spec_dec(s.skip(4)) {
                Ok(pf) => Ok(SetPixelFormat { pixel_format: pf }),
                Err(e) => Err(e),
            }
        }
    }

    fn decode(bytes: &[u8], pos: usize) -> (r: Result<(SetPixelFormat, usize), Error>) {
        let ghost s = bytes@.skip(pos as int);
        proof {
            assert(s.len() == bytes@.len() - pos);
        }
        if bytes.len() - pos < 20 {
            return Err(Error::IoFailure);
        }
        proof {
            assert(bytes@.skip(pos + 4) =~= s.skip(4));
        }
        match PixelFormat::decode(bytes, pos + 4) {
            Ok((pf, _)) => Ok((SetPixelFormat { pixel_format: pf }, pos + 20)),
            Err(e) => Err(e),
        }
    }
}

/// A pointer movement or button change, with the buttons' mask.
#[derive(Clone, Copy, Debug, PartialEq, Eq, Structural)]
pub struct PointerEvent {
    pub button_mask: u8,
    pub x: u16,
    pub y: u16,
}

impl Length for PointerEvent {
    open spec fn spec_len() -> int {
        6
    }

    fn length() -> usize {
        6
    }
}

impl Encode for PointerEvent {
    /// The 6-byte layout: the tag, the button mask, then the pointer
    /// position big-endian.
    open spec fn spec_enc(&self) -> Seq<u8> {
        seq![5u8, self.button_mask] + spec_u16_be(self.x) + spec_u16_be(self.y)
    }

    fn encode(&self) -> Vec<u8> {
        let mut out: Vec<u8> = Vec::new();
        write_u8(&mut out, 5);
        write_u8(&mut out, self.button_mask);
        write_u16_be(&mut out, self.x);
        write_u16_be(&mut out, self.y);
        proof {
            assert(out@ =~= self.spec_enc());
        }
        out
    }
}

impl Decode for PointerEvent {
    /// The tag byte is ignored on decode.
    open spec fn spec_dec(s: Seq<u8>) -> Result<PointerEvent, Error> {
        if s.len() < 6 {
            Err(Error::IoFailure)
        } else {
            Ok(
                PointerEvent {
                    button_mask: s[1],
                    x: spec_u16_from_be(s.subrange(2, 4)),
                    y: spec_u16_from_be(s.subrange(4, 6)),
                },
            )
        }
    }

    fn decode(bytes: &[u8], pos: usize) -> (r: Result<(PointerEvent, usize), Error>) {
        if bytes.len() - pos < 6 {
            return Err(Error::IoFailure);
        }
        let button_mask = bytes[pos + 1];
        let x = match read_u16_be(bytes, pos + 2) {
            Ok(p) => p.0,
            Err(_) => { return Err(Error::IoFailure) },
        };
        let y = match read_u16_be(bytes, pos + 4) {
            Ok(p) => p.0,
            Err(_) => { return Err(Error::IoFailure) },
        };
        proof {
            let s = bytes@.skip(pos as int);
            assert(s.len() == bytes@.len() - pos);
            assert(s[1] == bytes@[pos + 1]);
            assert(s.subrange(2, 4) =~= bytes@.subrange(pos + 2, pos + 4));
            assert(s.subrange(4, 6) =~= bytes@.subrange(pos + 4, pos + 6));
        }
        Ok((PointerEvent { button_mask, x, y }, pos + 6))
    }
}

/// Decoding the 6-byte wire form of any pointer event gives it back.
pub proof fn lemma_pointer_event_round_trip(x: PointerEvent)
    ensures
        PointerEvent::spec_dec(x.spec_enc()) == Ok::<PointerEvent, Error>(x),
{
    let e = x.spec_enc();
    assert(e.subrange(2, 4) =~= spec_u16_be(x.x));
    assert(e.subrange(4, 6) =~= spec_u16_be(x.y));
    crate::io::lemma_u16_be_round(x.x);
    crate::io::lemma_u16_be_round(x.y);
}

/// Text placed on the client's clipboard, shared with the server.
#[derive(Clone, Debug, PartialEq, Eq)]
pub struct ClientCutText {
    pub text: String,
}

/// What a cut-text message decodes to: the characters and the bytes
/// consumed. The tag and padding bytes are ignored.
pub open spec fn spec_cut_text_dec(s: Seq<u8>) -> Result<(Seq<char>, int), Error> {
    if s.len() < 4 {
        Err(Error::IoFailure)
    } else {
        match spec_string_dec(s.skip(4)) {
            Ok(q) => Ok((q.0, 4 + q.1)),
            Err(e) => Err(e),
        }
    }
}

/// The wire form of a cut-text message: the tag, three zero padding
/// bytes, then the length-prefixed text.
pub open spec fn spec_cut_text_enc(chars: Seq<char>) -> Seq<u8> {
    seq![6u8, 0u8, 0u8, 0u8] + spec_string_enc(chars)
}

impl DecodeFrom for ClientCutText {
    /// Decode a cut-text message at the cursor (tag included).
    fn decode_from(bytes: &[u8], pos: usize) -> (r: Result<(ClientCutText, usize), Error>)
        ensures
            ({
                let sp = spec_cut_text_dec(bytes@.skip(pos as int));
                match r {
                    Ok(p) => sp matches Ok(q) && p.0.text@ == q.0 && p.1 == pos + q.1,
                    Err(e) => sp matches Err(e2) && e == e2,
                }
            }),
    {
        let ghost s = bytes@.skip(pos as int);
        proof {
            assert(s.len() == bytes@.len() - pos);
        }
        if bytes.len() - pos < 4 {
            return Err(Error::IoFailure);
        }
        proof {
            assert(bytes@.skip(pos + 4) =~= s.skip(4));
        }
        match read_string(bytes, pos + 4) {
            Ok((text, end)) => Ok((ClientCutText { text }, end)),
            Err(e) => Err(e),
        }
    }
}

impl EncodeTo for ClientCutText {
    /// Append the wire form of this message; fails with
    /// `LengthOverflow`, leaving the buffer unchanged, when the text
    /// is longer than its 4-byte count can say.
    fn encode_to(&self, buf: &mut Vec<u8>) -> (r: Result<(), Error>)
        ensures
            spec_string_enc_ok(self.text@) ==> (r is Ok && final(buf)@ == old(buf)@
                + spec_cut_text_enc(self.text@)),
            !spec_string_enc_ok(self.text@) ==> (r == Err::<(), Error>(Error::LengthOverflow)
                && final(buf)@ == old(buf)@),
    {
        let text_bytes = self.text.as_str().as_bytes();
        if text_bytes.len() > u32::MAX as usize {
            return Err(Error::LengthOverflow);
        }
        write_u8(buf, 6);
        write_u8(buf, 0);
        write_u8(buf, 0);
        write_u8(buf, 0);
        let r = write_string(buf, self.text.as_str());
        proof {
            assert(r is Ok);
            assert(buf@ =~= old(buf)@ + spec_cut_text_enc(self.text@));
        }
        Ok(())
    }
}

/// A client-to-server message with its typed payload. A tag without a
/// known layout decodes to the catch-all variant carrying only the
/// raw tag; its length cannot be determined here, so a caller that
/// meets one must treat the stream as desynchronized.
#[derive(Clone, Debug, PartialEq)]
pub enum ClientMessage {
    SetPixelFormat(SetPixelFormat),
    SetEncodings(SetEncodings),
    FramebufferUpdateRequest(FramebufferUpdateRequest),
    KeyEvent(KeyEvent),
    PointerEvent(PointerEvent),
    ClientCutText(ClientCutText),
    Unassigned(u8),
}

/// The ghost mirror of a client message, for specifications.
pub enum ClientMessageModel {
    SetPixelFormat(PixelFormat),
    SetEncodings(Seq<EncodingType>),
    FramebufferUpdateRequest(FramebufferUpdateRequest),
    KeyEvent(KeyEvent),
    PointerEvent(PointerEvent),
    ClientCutText(Seq<char>),
    Unassigned(u8),
}

impl ClientMessage {
    /// This message's ghost mirror.
    pub open spec fn model(self) -> ClientMessageModel {
        match self {
            ClientMessage::SetPixelFormat(m) => ClientMessageModel::SetPixelFormat(m.pixel_format),
            ClientMessage::SetEncodings(m) => ClientMessageModel::SetEncodings(m.encodings@),
            ClientMessage::FramebufferUpdateRequest(m) => {
                ClientMessageModel::FramebufferUpdateRequest(m)
            },
            ClientMessage::KeyEvent(m) => ClientMessageModel::KeyEvent(m),
            ClientMessage::PointerEvent(m) => ClientMessageModel::PointerEvent(m),
            ClientMessage::ClientCutText(m) => ClientMessageModel::ClientCutText(m.text@),
            ClientMessage::Unassigned(c) => ClientMessageModel::Unassigned(c),
        }
    }
}

/// What the front of the remaining input decodes to as a client
/// message: the tag is read first, looked up in the registry, and the
/// matching layout parsed.
pub open spec fn spec_client_message_dec(s: Seq<u8>) -> Result<(ClientMessageModel, int), Error> {
    if s.len() < 1 {
        Err(Error::IoFailure)
    } else {
        let tag = s[0];
        if tag == 0 {
            match SetPixelFormat::spec_dec(s) {
                Ok(m) => Ok((ClientMessageModel::SetPixelFormat(m.pixel_format), 20)),
                Err(e) => Err(e),
            }
        } else if tag == 2 {
            match spec_set_encodings_dec(s) {
                Ok(q) => Ok((ClientMessageModel::SetEncodings(q.0), q.1)),
                Err(e) => Err(e),
            }
        } else if tag == 3 {
            match FramebufferUpdateRequest::spec_dec(s) {
                Ok(m) => Ok((ClientMessageModel::FramebufferUpdateRequest(m), 10)),
                Err(e) => Err(e),
            }
        } else if tag == 4 {
            match KeyEvent::spec_dec(s) {
                Ok(m) => Ok((ClientMessageModel::KeyEvent(m), 8)),
                Err(e) => Err(e),
            }
        } else if tag == 5 {
            match PointerEvent::spec_dec(s) {
                Ok(m) => Ok((ClientMessageModel::PointerEvent(m), 6)),
                Err(e) => Err(e),
            }
        } else if tag == 6 {
            match spec_cut_text_dec(s) {
                Ok(q) => Ok((ClientMessageModel::ClientCutText(q.0), q.1)),
                Err(e) => Err(e),
            }
        } else {
            Ok((ClientMessageModel::Unassigned(tag), 1))
        }
    }
}

impl DecodeFrom for ClientMessage {
    /// Decode one client message at the cursor: its tag, then the
    /// layout that tag names. Unknown and vendor tags yield the
    /// catch-all variant after the tag byte alone.
    fn decode_from(bytes: &[u8], pos: usize) -> (r: Result<(ClientMessage, usize), Error>)
        ensures
            ({
                let sp = spec_client_message_dec(bytes@.skip(pos as int));
                match r {
                    Ok(p) => sp matches Ok(q) && p.0.model() == q.0 && p.1 == pos + q.1,
                    Err(e) => sp matches Err(e2) && e == e2,
                }
            }),
    {
        let ghost s = bytes@.skip(pos as int);
        proof {
            assert(s.len() == bytes@.len() - pos);
            if s.len() >= 1 {
                assert(s[0] == bytes@[pos as int]);
            }
        }
        let tag = match read_u8(bytes, pos) {
            Ok(p) => p.0,
            Err(e) => { return Err(e) },
        };
        if tag == 0 {
            match SetPixelFormat::decode(bytes, pos) {
                Ok((m, end)) => Ok((ClientMessage::SetPixelFormat(m), end)),
                Err(e) => Err(e),
            }
        } else if tag == 2 {
            match SetEncodings::decode_from(bytes, pos) {
                Ok((m, end)) => Ok((ClientMessage::SetEncodings(m), end)),
                Err(e) => Err(e),
            }
        } else if tag == 3 {
            match FramebufferUpdateRequest::decode(bytes, pos) {
                Ok((m, end)) => Ok((ClientMessage::FramebufferUpdateRequest(m), end)),
                Err(e) => Err(e),
            }
        } else if tag == 4 {
            match KeyEvent::decode(bytes, pos) {
                Ok((m, end)) => Ok((ClientMessage::KeyEvent(m), end)),
                Err(e) => Err(e),
            }
        } else if tag == 5 {
            match PointerEvent::decode(bytes, pos) {
                Ok((m, end)) => Ok((ClientMessage::PointerEvent(m), end)),
                Err(e) => Err(e),
            }
        } else if tag == 6 {
            match ClientCutText::decode_from(bytes, pos) {
                Ok((m, end)) => Ok((ClientMessage::ClientCutText(m), end)),
                Err(e) => Err(e),
            }
        } else {
            Ok((ClientMessage::Unassigned(tag), pos + 1))
        }
    }
}

impl ClientMessage {
    /// The wire form of a message's model; the catch-all carries only
    /// its raw tag.
    pub open spec fn spec_enc(m: ClientMessageModel) -> Seq<u8> {
        match m {
            ClientMessageModel::SetPixelFormat(pf) => seq![0u8, 0u8, 0u8, 0u8] + pf.spec_enc(),
            ClientMessageModel::SetEncodings(es) => spec_set_encodings_enc(es),
            ClientMessageModel::FramebufferUpdateRequest(v) => v.spec_enc(),
            ClientMessageModel::KeyEvent(v) => v.spec_enc(),
            ClientMessageModel::PointerEvent(v) => v.spec_enc(),
            ClientMessageModel::ClientCutText(chars) => spec_cut_text_enc(chars),
            ClientMessageModel::Unassigned(c) => seq![c],
        }
    }

    /// Whether this message fits its wire counts.
    pub open spec fn enc_ok(self) -> bool {
        match self {
            ClientMessage::SetEncodings(m) => m.encodings@.len() <= 65535,
            ClientMessage::ClientCutText(m) => spec_string_enc_ok(m.text@),
            _ => true,
        }
    }
}

impl EncodeTo for ClientMessage {
    /// Append the wire form of this message; fails with
    /// `LengthOverflow`, leaving the buffer unchanged, when a count
    /// does not fit its wire-width field.
    fn encode_to(&self, buf: &mut Vec<u8>) -> (r: Result<(), Error>)
        ensures
            self.enc_ok() ==> (r is Ok && final(buf)@ == old(buf)@ + ClientMessage::spec_enc(
                self.model(),
            )),
            !self.enc_ok() ==> (r == Err::<(), Error>(Error::LengthOverflow) && final(buf)@ == old(
                buf,
            )@),
    {
        match self {
            ClientMessage::SetPixelFormat(m) => {
                let data = m.encode();
                write_bytes(buf, data.as_slice());
                proof {
                    assert(buf@ =~= old(buf)@ + ClientMessage::spec_enc(self.model()));
                }
                Ok(())
            },
            ClientMessage::SetEncodings(m) => m.encode_to(buf),
            ClientMessage::FramebufferUpdateRequest(m) => {
                let data = m.encode();
                write_bytes(buf, data.as_slice());
                proof {
                    assert(buf@ =~= old(buf)@ + ClientMessage::spec_enc(self.model()));
                }
                Ok(())
            },
            ClientMessage::KeyEvent(m) => {
                let data = m.encode();
                write_bytes(buf, data.as_slice());
                proof {
                    assert(buf@ =~= old(buf)@ + ClientMessage::spec_enc(self.model()));
                }
                Ok(())
            },
            ClientMessage::PointerEvent(m) => {
                let data = m.encode();
                write_bytes(buf, data.as_slice());
                proof {
                    assert(buf@ =~= old(buf)@ + ClientMessage::spec_enc(self.model()));
                }
                Ok(())
            },
            ClientMessage::ClientCutText(m) => m.encode_to(buf),
            ClientMessage::Unassigned(c) => {
                write_u8(buf, *c);
                proof {
                    assert(buf@ =~= old(buf)@ + ClientMessage::spec_enc(self.model()));
                }
                Ok(())
            },
        }
    }
}

/// A client message that fits the wire: its counts fit their fields,
/// its encodings are well-formed, and a catch-all tag really has no
/// known layout.
pub open spec fn spec_client_message_wf(m: ClientMessageModel) -> bool {
    match m {
        ClientMessageModel::SetEncodings(es) => es.len() <= 65535 && (forall|i: int|
            0 <= i < es.len() ==> #[trigger] es[i].wf()),
        ClientMessageModel::ClientCutText(chars) => spec_string_enc_ok(chars),
        ClientMessageModel::Unassigned(c) => c != 0 && c != 2 && c != 3 && c != 4 && c != 5 && c
            != 6,
        _ => true,
    }
}

/// Decoding the wire form of any well-formed client message gives
/// back exactly that message, with its whole wire form consumed.
pub proof fn lemma_client_message_round_trip(m: ClientMessageModel)
    requires
        spec_client_message_wf(m),
    ensures
        spec_client_message_dec(ClientMessage::spec_enc(m)) == Ok::<(ClientMessageModel, int), Error>(
            (m, ClientMessage::spec_enc(m).len() as int),
        ),
{
    let e = ClientMessage::spec_enc(m);
    match m {
        ClientMessageModel::SetPixelFormat(pf) => {
            assert(e[0] == 0);
            assert(e.len() == 20);
            assert(e.skip(4) =~= pf.spec_enc());
            crate::messages::pixel_format::lemma_pixel_format_round_trip(pf);
        },
        ClientMessageModel::SetEncodings(es) => {
            assert(e[0] == 2);
            crate::messages::set_encodings::lemma_set_encodings_round_trip(es);
            assert(e.len() == 4 + 4 * es.len());
        },
        ClientMessageModel::FramebufferUpdateRequest(v) => {
            assert(e[0] == 3);
            crate::messages::framebuffer_update_request::lemma_framebuffer_update_request_round_trip(
                v,
            );
            assert(e.take(10) =~= e);
        },
        ClientMessageModel::KeyEvent(v) => {
            assert(e[0] == 4);
            crate::messages::key_event::lemma_key_event_round_trip(v);
        },
        ClientMessageModel::PointerEvent(v) => {
            assert(e[0] == 5);
            lemma_pointer_event_round_trip(v);
        },
        ClientMessageModel::ClientCutText(chars) => {
            assert(e[0] == 6);
            assert(e.skip(4) =~= crate::io::spec_string_enc(chars));
            crate::io::lemma_string_round_trip(chars);
            assert(e.len() == 4 + crate::io::spec_string_enc(chars).len());
        },
        ClientMessageModel::Unassigned(c) => {
            assert(e[0] == c);
            assert(e.len() == 1);
        },
    }
}

} // verus!
