//! The header that starts every message between server and client.
use vstd::prelude::*;
use crate::text::string_from_utf8;
use crate::wire::{
    be_bytes, be_value, copy_range, decode_u64_be_at, extend_bytes, lemma_len_field,
    law_u64_be_bytes_roundtrip, lemma_utf8_bytes_roundtrip, lemma_utf8_roundtrip, put_u64_be, utf8,
    WireError, WireErrorView,
};

verus! {

// Actions a header can carry.
pub const CLIENT_HELLO: u8 = 0;
pub const CLIENT_ACK: u8 = 1;
pub const CLIENT_HB: u8 = 2;
pub const SERVER_ACK: u8 = 3;
pub const SERVER_INIT_STREAM: u8 = 4;
pub const SERVER_STREAM_CHUNK: u8 = 5;
pub const SERVER_STREAM_FINISHED: u8 = 6;
pub const SERVER_RESUME: u8 = 7;
pub const SERVER_PAUSE: u8 = 8;
pub const CLIENT_SONG_CACHED: u8 = 9;
pub const CLIENT_RESUMED: u8 = 10;
pub const CLIENT_PAUSED: u8 = 11;
pub const SERVER_GET_STATUS: u8 = 12;
pub const CLIENT_STATUS: u8 = 13;
pub const CLIENT_GET_LIBRARY: u8 = 13;
pub const CLIENT_GET_QUEUE_INFO: u8 = 14;
pub const DEBUG_HELLO: u8 = 255;

/// A message header: what is asked or answered, and who sends it.
pub struct Header {
    pub action: u8,
    pub id: String,
}

/// A [`Header`] as a mathematical value.
pub struct HeaderView {
    pub action: u8,
    pub id: Seq<char>,
}

impl View for Header {
    type V = HeaderView;

    open spec fn view(&self) -> HeaderView {
        HeaderView { action: self.action, id: self.id@ }
    }
}

/// The bytes of a header on the wire: the action, the UTF-8 length of the id
/// as an eight-byte big-endian number, then the id.
pub open spec fn header_wire(h: HeaderView) -> Seq<u8> {
    seq![h.action] + be_bytes(utf8(h.id).len(), 8) + utf8(h.id)
}

/// What a header with action `action` and received id bytes `id` becomes.
pub open spec fn header_from_parts(action: u8, id: Seq<u8>) -> Result<HeaderView, Seq<char>> {
    if vstd::utf8::valid_utf8(id) {
        Ok(HeaderView { action: action, id: vstd::utf8::decode_utf8(id) })
    } else {
        Err(crate::text::utf8_error_text(id))
    }
}

/// What a receiver makes of the buffer `b` that starts with a header: the
/// header and the number of bytes it took, or why there is none.
pub open spec fn header_parse(b: Seq<u8>) -> Result<(HeaderView, nat), WireErrorView> {
    if b.len() < 9 {
        Err(WireErrorView::Incomplete)
    } else {
        let l = be_value(b.subrange(1, 9)) as int;
        if 9 + l > b.len() {
            Err(WireErrorView::Incomplete)
        } else {
            match header_from_parts(b[0], b.subrange(9, 9 + l)) {
                Ok(h) => Ok((h, (9 + l) as nat)),
                Err(m) => Err(WireErrorView::InvalidUtf8(m)),
            }
        }
    }
}

/// Whether the id of `h` has a UTF-8 length that the length field can carry
/// (true of every header held in memory).
pub open spec fn header_fits_wire(h: HeaderView) -> bool {
    utf8(h.id).len() <= u64::MAX
}

impl Header {
    pub fn new(action: u8, id: String) -> (h: Header)
        ensures
            h@ == (HeaderView { action: action, id: id@ }),
    {
        Header { action: action, id: id }
    }

    /// Appends the wire form of the header to `out`.
    pub fn put_bytes(&self, out: &mut Vec<u8>)
        ensures
            final(out)@ == old(out)@ + header_wire(self@),
            header_fits_wire(self@),
    {
        let id = self.id.as_str().as_bytes();
        out.push(self.action);
        put_u64_be(out, id.len() as u64);
        extend_bytes(out, id);
        proof {
            assert(final(out)@ =~= old(out)@ + header_wire(self@));
        }
    }

    /// The bytes that `ConnectionSend` writes for the header.
    pub fn to_bytes(&self) -> (res: Vec<u8>)
        ensures
            res@ == header_wire(self@),
            header_fits_wire(self@),
    {
        let mut out: Vec<u8> = Vec::new();
        self.put_bytes(&mut out);
        proof {
            assert(out@ =~= header_wire(self@));
        }
        out
    }

    /// The wire form of the header in its three fields, each written on its
    /// own: the action, the length of the id, the id.
    pub fn wire_fields(&self) -> (res: Vec<Vec<u8>>)
        ensures
            res@.len() == 3,
            res@[0]@ == seq![self.action],
            res@[1]@ == be_bytes(utf8(self@.id).len(), 8),
            res@[2]@ == utf8(self@.id),
            res@[0]@ + res@[1]@ + res@[2]@ == header_wire(self@),
    {
        let id = self.id.as_str().as_bytes();
        let mut action: Vec<u8> = Vec::new();
        action.push(self.action);
        let mut length: Vec<u8> = Vec::new();
        put_u64_be(&mut length, id.len() as u64);
        let mut text: Vec<u8> = Vec::new();
        extend_bytes(&mut text, id);
        proof {
            assert(action@ =~= seq![self.action]);
            assert(length@ =~= be_bytes(utf8(self@.id).len(), 8));
            assert(text@ =~= utf8(self@.id));
        }
        let mut res: Vec<Vec<u8>> = Vec::new();
        res.push(action);
        res.push(length);
        res.push(text);
        res
    }

    /// Builds the header from its received action and id bytes, as
    /// `ConnectionGet` does once it has read them.
    pub fn from_parts(action: u8, id: Vec<u8>) -> (res: Result<Header, String>)
        ensures
            match (res, header_from_parts(action, id@)) {
                (Ok(h), Ok(v)) => h@ == v,
                (Err(m), Err(t)) => m@ == t,
                _ => false,
            },
    {
        match string_from_utf8(id) {
            Ok(s) => Ok(Header::new(action, s)),
            Err(m) => Err(m),
        }
    }

    /// Reads a header from the start of `bytes`: the header and the number of
    /// bytes it took.
    pub fn parse(bytes: &[u8]) -> (res: Result<(Header, usize), WireError>)
        ensures
            match (res, header_parse(bytes@)) {
                (Ok((h, n)), Ok((v, m))) => h@ == v && n == m,
                (Err(e), Err(f)) => e@ == f,
                _ => false,
            },
    {
        let len = bytes.len();
        if len < 9 {
            return Err(WireError::Incomplete);
        }
        let l = decode_u64_be_at(bytes, 1);
        if l > (len - 9) as u64 {
            return Err(WireError::Incomplete);
        }
        let end = 9 + l as usize;
        let id = copy_range(bytes, 9, end);
        match Header::from_parts(bytes[0], id) {
            Ok(h) => Ok((h, end)),
            Err(m) => Err(WireError::InvalidUtf8(m)),
        }
    }
}

/// On the wire a header is its action byte, then the UTF-8 length of its id
/// as an eight-byte big-endian number, then the id's UTF-8 bytes.
pub proof fn law_header_layout(h: HeaderView)
    requires
        header_fits_wire(h),
    ensures
        header_wire(h).len() == 9 + utf8(h.id).len(),
        header_wire(h)[0] == h.action,
        be_value(header_wire(h).subrange(1, 9)) == utf8(h.id).len(),
        header_wire(h).skip(9) == utf8(h.id),
{
    let w = header_wire(h);
    lemma_len_field(utf8(h.id).len());
    assert(w.subrange(1, 9) =~= be_bytes(utf8(h.id).len(), 8));
    assert(w.skip(9) =~= utf8(h.id));
}

/// A receiver reads back exactly the header that was sent, whatever follows
/// it in the stream, and takes exactly the bytes that were sent for it.
pub proof fn law_header_send_get(h: HeaderView, rest: Seq<u8>)
    requires
        header_fits_wire(h),
    ensures
        header_parse(header_wire(h) + rest) == Ok::<(HeaderView, nat), WireErrorView>(
            (h, header_wire(h).len()),
        ),
{
    let a = utf8(h.id);
    let buf = header_wire(h) + rest;
    lemma_len_field(a.len());
    lemma_utf8_roundtrip(h.id);
    assert(buf.subrange(1, 9) =~= be_bytes(a.len(), 8));
    assert(buf.subrange(9, 9 + a.len() as int) =~= a);
}

/// What a receiver reads is exactly what the sender of that header writes:
/// the bytes taken are the wire form of the header read.
pub proof fn law_header_get_send(b: Seq<u8>)
    ensures
        header_parse(b) matches Ok((h, n)) ==> header_wire(h) == b.take(n as int)
            && header_fits_wire(h),
{
    if let Ok((h, n)) = header_parse(b) {
        let l = be_value(b.subrange(1, 9)) as int;
        law_u64_be_bytes_roundtrip(b.subrange(1, 9));
        lemma_utf8_bytes_roundtrip(b.subrange(9, 9 + l));
        assert(header_wire(h) =~= b.take(n as int));
    }
}

} // verus!
