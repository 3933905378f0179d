use vstd::prelude::*;
use crate::error::ErrorKind;
use crate::reader::ByteReader;

verus! {

/// Four ASCII bytes that name a frame's kind.
pub type FourCc = [u8; 4];

/// `con1`: asks the server to open a connection.
pub const TAG_CON1: FourCc = [0x63, 0x6f, 0x6e, 0x31];

/// `okay`: the connection asked for is open.
pub const TAG_OKAY: FourCc = [0x6f, 0x6b, 0x61, 0x79];

/// `errm`: an error code with a message.
pub const TAG_ERRM: FourCc = [0x65, 0x72, 0x72, 0x6d];

/// `data`: bytes of the tunnelled connection.
pub const TAG_DATA: FourCc = [0x64, 0x61, 0x74, 0x61];

/// `fini`: the sender writes nothing more.
pub const TAG_FINI: FourCc = [0x66, 0x69, 0x6e, 0x69];

/// `ping`: asks for a `pong` with the same token.
pub const TAG_PING: FourCc = [0x70, 0x69, 0x6e, 0x67];

/// `pong`: answers a `ping`.
pub const TAG_PONG: FourCc = [0x70, 0x6f, 0x6e, 0x67];

/// `scrt`: the server's certificate, in a package.
pub const TAG_SCRT: FourCc = [0x73, 0x63, 0x72, 0x74];

/// `ccrt`: the client's certificate, in a package.
pub const TAG_CCRT: FourCc = [0x63, 0x63, 0x72, 0x74];

/// `ckey`: the client's private key, in a package.
pub const TAG_CKEY: FourCc = [0x63, 0x6b, 0x65, 0x79];

/// The length of a header on the wire.
pub const HEADER_LEN: usize = 6;

/// The longest body that a header can announce.
pub const MAX_BODY_LEN: usize = 65535;

/// The six bytes of a header with this tag and body length: the tag, then
/// the length as two bytes, low byte first.
pub open spec fn header_bytes(tag: Seq<u8>, len: int) -> Seq<u8> {
    tag + seq![(len % 256) as u8, (len / 256) as u8]
}

/// The tag that a header's bytes hold.
pub open spec fn header_tag(bytes: Seq<u8>) -> Seq<u8> {
    bytes.subrange(0, 4)
}

/// The body length that a header's bytes hold.
pub open spec fn header_len(bytes: Seq<u8>) -> int {
    bytes[4] as int + 256 * (bytes[5] as int)
}

/// The bytes of a whole frame: header, then body.
pub open spec fn frame_bytes(tag: Seq<u8>, body: Seq<u8>) -> Seq<u8> {
    header_bytes(tag, body.len() as int) + body
}

/// Whether `bytes` start with a whole frame: a header and as many body
/// bytes as it announces.
pub open spec fn frame_complete(bytes: Seq<u8>) -> bool {
    bytes.len() >= 6 && bytes.len() >= 6 + header_len(bytes)
}

/// The body of the frame that `bytes` start with.
pub open spec fn frame_body(bytes: Seq<u8>) -> Seq<u8> {
    bytes.subrange(6, 6 + header_len(bytes))
}

/// What follows the frame that `bytes` start with.
pub open spec fn frame_rest(bytes: Seq<u8>) -> Seq<u8> {
    bytes.skip(6 + header_len(bytes))
}

/// Whether two tags hold the same four bytes.
pub fn same_tag(a: &FourCc, b: &FourCc) -> (r: bool)
    ensures
        r == (a@ == b@),
{
    let r = a[0] == b[0] && a[1] == b[1] && a[2] == b[2] && a[3] == b[3];
    assert(r == (a@ =~= b@));
    r
}

/// The fixed six-byte header that starts every frame.
#[derive(Copy, Clone, Debug, PartialEq, Eq)]
pub struct HeaderHeader {
    pub four_cc: FourCc,
    pub data_len: u16,
}

impl HeaderHeader {
    /// The header as it stands on the wire.
    pub open spec fn spec_bytes(self) -> Seq<u8> {
        header_bytes(self.four_cc@, self.data_len as int)
    }

    /// Reads one header. Takes exactly six bytes and leaves the body unread;
    /// with fewer than six bytes left it fails and takes nothing.
    pub fn from(reader: &mut ByteReader) -> (r: Result<Self, ErrorKind>)
        ensures
            match r {
                Ok(h) => old(reader)@.len() >= 6
                    && h.four_cc@ == header_tag(old(reader)@)
                    && h.data_len == header_len(old(reader)@)
                    && final(reader)@ == old(reader)@.skip(6),
                Err(e) => e == ErrorKind::ShortRead && old(reader)@.len() < 6
                    && final(reader)@ == old(reader)@,
            },
    {
        match reader.read_exact(HEADER_LEN) {
            Ok(buf) => {
                let four_cc: FourCc = [buf[0], buf[1], buf[2], buf[3]];
                let data_len: u16 = buf[4] as u16 + 256 * (buf[5] as u16);
                assert(four_cc@ =~= header_tag(old(reader)@));
                Ok(HeaderHeader { four_cc, data_len })
            },
            Err(e) => Err(e),
        }
    }

    /// Appends the header's six bytes to `writer`.
    pub fn write_all(&self, writer: &mut Vec<u8>)
        ensures
            final(writer)@ == old(writer)@ + self.spec_bytes(),
    {
        writer.push(self.four_cc[0]);
        writer.push(self.four_cc[1]);
        writer.push(self.four_cc[2]);
        writer.push(self.four_cc[3]);
        writer.push((self.data_len % 256) as u8);
        writer.push((self.data_len / 256) as u8);
        assert(writer@ =~= old(writer)@ + self.spec_bytes());
    }

    /// A header with this tag that announces no body.
    pub fn empty(four_cc: FourCc) -> (h: Self)
        ensures
            h.four_cc == four_cc,
            h.data_len == 0,
    {
        HeaderHeader { four_cc, data_len: 0 }
    }

    /// The header of a `fini` frame.
    pub fn finished() -> (h: Self)
        ensures
            h.four_cc == TAG_FINI,
            h.data_len == 0,
    {
        HeaderHeader { four_cc: TAG_FINI, data_len: 0 }
    }

    /// The header of a `ping` frame, whose body is a token of eight bytes.
    pub fn ping() -> (h: Self)
        ensures
            h.four_cc == TAG_PING,
            h.data_len == 8,
    {
        HeaderHeader { four_cc: TAG_PING, data_len: 8 }
    }

    /// The header of a `pong` frame, whose body is a token of eight bytes.
    pub fn pong() -> (h: Self)
        ensures
            h.four_cc == TAG_PONG,
            h.data_len == 8,
    {
        HeaderHeader { four_cc: TAG_PONG, data_len: 8 }
    }

    /// The header of an `errm` frame whose message has `string_length`
    /// bytes: the body is the code, the message's length and the message.
    pub fn error(string_length: u8) -> (h: Self)
        ensures
            h.four_cc == TAG_ERRM,
            h.data_len == 4 + 1 + string_length,
    {
        HeaderHeader { four_cc: TAG_ERRM, data_len: 4 + 1 + string_length as u16 }
    }

    /// The header of a `data` frame that carries `len` bytes.
    pub fn data(len: usize) -> (h: Self)
        requires
            len <= MAX_BODY_LEN,
        ensures
            h.four_cc == TAG_DATA,
            h.data_len == len,
    {
        HeaderHeader { four_cc: TAG_DATA, data_len: len as u16 }
    }
}

/// A header that was written is read back as it was, whatever follows it.
pub proof fn lemma_header_round_trip(tag: Seq<u8>, len: int, rest: Seq<u8>)
    requires
        tag.len() == 4,
        0 <= len <= 65535,
    ensures
        header_bytes(tag, len).len() == 6,
        header_tag(header_bytes(tag, len) + rest) == tag,
        header_len(header_bytes(tag, len) + rest) == len,
{
    assert(header_tag(header_bytes(tag, len) + rest) =~= tag);
}

/// The six bytes that a header was read from are the bytes that writing it
/// gives.
pub proof fn lemma_header_bytes_of_parsed(bytes: Seq<u8>)
    requires
        bytes.len() >= 6,
    ensures
        header_bytes(header_tag(bytes), header_len(bytes)) == bytes.take(6),
        0 <= header_len(bytes) <= 65535,
{
    assert(header_bytes(header_tag(bytes), header_len(bytes)) =~= bytes.take(6));
}

/// Encoding a frame and decoding it again gives the tag and the body back,
/// and leaves what followed the frame.
pub proof fn lemma_frame_round_trip(tag: Seq<u8>, body: Seq<u8>, rest: Seq<u8>)
    requires
        tag.len() == 4,
        body.len() <= 65535,
    ensures
        frame_complete(frame_bytes(tag, body) + rest),
        header_tag(frame_bytes(tag, body) + rest) == tag,
        header_len(frame_bytes(tag, body) + rest) == body.len(),
        frame_body(frame_bytes(tag, body) + rest) == body,
        frame_rest(frame_bytes(tag, body) + rest) == rest,
{
    let whole = frame_bytes(tag, body) + rest;
    lemma_header_round_trip(tag, body.len() as int, body + rest);
    assert(whole =~= header_bytes(tag, body.len() as int) + (body + rest));
    assert(frame_body(whole) =~= body);
    assert(frame_rest(whole) =~= rest);
}

/// One frame held in memory: its tag and its body.
#[derive(Clone, Debug, PartialEq, Eq)]
pub struct Frame {
    pub four_cc: FourCc,
    pub body: Vec<u8>,
}

impl Frame {
    /// Whether the body is one that a header can announce. Every frame that
    /// was read is so.
    pub open spec fn well_formed(&self) -> bool {
        self.body@.len() <= MAX_BODY_LEN
    }

    /// The frame as it stands on the wire.
    pub open spec fn spec_bytes(&self) -> Seq<u8> {
        frame_bytes(self.four_cc@, self.body@)
    }
}

/// Reads one whole frame: the header and as many body bytes as it
/// announces. Where the bytes end before the frame does, it fails and takes
/// nothing: the same call succeeds once the missing bytes are there.
pub fn read_frame<'a>(reader: &mut ByteReader<'a>) -> (r: Result<Frame, ErrorKind>)
    ensures
        match r {
            Ok(f) => frame_complete(old(reader)@) && f.well_formed() && f.four_cc@ == header_tag(
                old(reader)@,
            ) && f.body@ == frame_body(old(reader)@) && final(reader)@ == frame_rest(
                old(reader)@,
            ),
            Err(e) => e == ErrorKind::ShortRead && !frame_complete(old(reader)@) && final(reader)@
                == old(reader)@,
        },
{
    let mut ahead = reader.fork();
    let header = match HeaderHeader::from(&mut ahead) {
        Ok(h) => h,
        Err(e) => { return Err(e); },
    };
    match ahead.read_exact(header.data_len as usize) {
        Ok(buf) => {
            let mut body: Vec<u8> = Vec::new();
            body.extend_from_slice(buf);
            assert(body@ =~= frame_body(old(reader)@));
            assert(ahead@ =~= frame_rest(old(reader)@));
            *reader = ahead;
            Ok(Frame { four_cc: header.four_cc, body })
        },
        Err(e) => Err(e),
    }
}

/// The most bytes that one read from the plain side takes.
pub const CHUNK_LEN: usize = 256;

/// The longest `data` body that the receiving side accepts.
pub const DATA_LIMIT: usize = 8192;

/// The frame that stands for one read from the plain side: a `data` frame
/// with the bytes read, or `fini` when the read gave nothing.
pub open spec fn chunk_frame(chunk: Seq<u8>) -> Seq<u8> {
    if chunk.len() == 0 {
        frame_bytes(TAG_FINI@, Seq::<u8>::empty())
    } else {
        frame_bytes(TAG_DATA@, chunk)
    }
}

/// One step of the copy from the plain side to the framed side. `chunk` is
/// what one read gave: its frame is appended, and the result says whether
/// the plain side may give more.
pub fn frame_chunk(chunk: &[u8], to_framed: &mut Vec<u8>) -> (more: bool)
    requires
        chunk@.len() <= MAX_BODY_LEN,
    ensures
        more == (chunk@.len() > 0),
        final(to_framed)@ == old(to_framed)@ + chunk_frame(chunk@),
{
    if chunk.len() == 0 {
        HeaderHeader::finished().write_all(to_framed);
        assert(to_framed@ =~= old(to_framed)@ + chunk_frame(chunk@));
        false
    } else {
        HeaderHeader::data(chunk.len()).write_all(to_framed);
        to_framed.extend_from_slice(chunk);
        assert(to_framed@ =~= old(to_framed)@ + chunk_frame(chunk@));
        true
    }
}

/// How many bytes the next read takes of `left` bytes.
pub open spec fn chunk_len(left: nat) -> int {
    if left < CHUNK_LEN { left as int } else { CHUNK_LEN as int }
}

/// The framed form of a plain byte stream that ends: `data` frames of at
/// most `CHUNK_LEN` bytes each, in order, then `fini`.
pub open spec fn framed(plain: Seq<u8>) -> Seq<u8>
    decreases plain.len(),
{
    if plain.len() == 0 {
        chunk_frame(plain)
    } else {
        chunk_frame(plain.take(chunk_len(plain.len()))) + framed(plain.skip(chunk_len(plain.len())))
    }
}

/// Copies a plain byte stream to its framed form: reads up to `CHUNK_LEN`
/// bytes at a time until the source ends, writes each read as one `data`
/// frame, and ends with `fini`.
pub fn copy_framing(from_plain: &mut ByteReader, to_framed: &mut Vec<u8>)
    ensures
        final(to_framed)@ == old(to_framed)@ + framed(old(from_plain)@),
        final(from_plain)@.len() == 0,
{
    loop
        invariant_except_break
            old(to_framed)@ + framed(old(from_plain)@) == to_framed@ + framed(from_plain@),
        ensures
            to_framed@ == old(to_framed)@ + framed(old(from_plain)@),
            from_plain@.len() == 0,
        decreases from_plain@.len(),
    {
        let ghost before = from_plain@;
        let ghost written = to_framed@;
        let chunk = from_plain.read(CHUNK_LEN);
        let more = frame_chunk(chunk, to_framed);
        proof {
            if before.len() == 0 {
                assert(chunk@ =~= before);
            } else {
                assert(to_framed@ + framed(from_plain@) =~= written + framed(before));
            }
        }
        if !more {
            break;
        }
    }
}

/// Whether a tag belongs to the extensions that are set aside for later:
/// its first two bytes are `xt`.
pub open spec fn is_extension_tag(tag: Seq<u8>) -> bool {
    tag.len() == 4 && tag[0] == 0x78 && tag[1] == 0x74
}

/// Whether a tag belongs to the extensions that are set aside for later.
pub fn extension_tag(tag: &FourCc) -> (r: bool)
    ensures
        r == is_extension_tag(tag@),
{
    tag[0] == 0x78 && tag[1] == 0x74
}

/// What the copy from the framed side to the plain side does with a frame.
#[derive(Clone, Copy, Debug, PartialEq, Eq, Structural)]
pub enum Unframe {
    /// Read this many body bytes and write them to the plain side.
    Deliver(usize),
    /// Read this many body bytes and drop them.
    Discard(usize),
    /// Stop: the sender writes nothing more.
    Finish,
}

/// What one header means to the copy from the framed side to the plain
/// side. The body of a `data` frame is delivered, unless it is over the
/// limit, which is `OverlongData`. `fini` ends the copy. The body of an
/// extension frame is dropped. Any other tag is `UnexpectedFrame`.
pub open spec fn spec_unframe_step(tag: Seq<u8>, len: int) -> Result<Unframe, ErrorKind> {
    if tag == TAG_FINI@ {
        Ok(Unframe::Finish)
    } else if tag == TAG_DATA@ {
        if len > DATA_LIMIT {
            Err(ErrorKind::OverlongData)
        } else {
            Ok(Unframe::Deliver(len as usize))
        }
    } else if is_extension_tag(tag) {
        Ok(Unframe::Discard(len as usize))
    } else {
        Err(ErrorKind::UnexpectedFrame)
    }
}

/// One step of the copy from the framed side to the plain side: decides
/// from a header what to do with the frame.
pub fn unframe_step(header: &HeaderHeader) -> (r: Result<Unframe, ErrorKind>)
    ensures
        r == spec_unframe_step(header.four_cc@, header.data_len as int),
{
    if same_tag(&header.four_cc, &TAG_FINI) {
        Ok(Unframe::Finish)
    } else if same_tag(&header.four_cc, &TAG_DATA) {
        if header.data_len as usize > DATA_LIMIT {
            Err(ErrorKind::OverlongData)
        } else {
            Ok(Unframe::Deliver(header.data_len as usize))
        }
    } else if extension_tag(&header.four_cc) {
        Ok(Unframe::Discard(header.data_len as usize))
    } else {
        Err(ErrorKind::UnexpectedFrame)
    }
}

/// What the copy from the framed side makes of a framed stream.
pub ghost struct Unframed {
    /// The plain bytes delivered, in order.
    pub delivered: Seq<u8>,
    /// What is left unread of the framed stream.
    pub rest: Seq<u8>,
    /// Why the copy stopped, if not for a `fini`.
    pub error: Option<ErrorKind>,
}

/// The copy that stops before it delivers anything.
pub open spec fn stopped(rest: Seq<u8>, error: Option<ErrorKind>) -> Unframed {
    Unframed { delivered: Seq::empty(), rest, error }
}

/// The copy from the framed side, frame by frame: the bodies of `data`
/// frames are delivered in order until `fini`, and the bodies of extension
/// frames are dropped. It stops with `ShortRead` where the stream ends
/// inside a frame, with `OverlongData` at a `data` frame over the limit and
/// with `UnexpectedFrame` at any other tag. Then the frame at which it
/// stopped is left unread, and what was delivered before stays delivered.
pub open spec fn unframed(stream: Seq<u8>) -> Unframed
    decreases stream.len(),
{
    if stream.len() < 6 {
        stopped(stream, Some(ErrorKind::ShortRead))
    } else {
        match spec_unframe_step(header_tag(stream), header_len(stream)) {
            Ok(Unframe::Finish) => stopped(stream.skip(6), None),
            Err(e) => stopped(stream, Some(e)),
            Ok(Unframe::Deliver(_)) => if !frame_complete(stream) {
                stopped(stream, Some(ErrorKind::ShortRead))
            } else {
                let next = unframed(frame_rest(stream));
                Unframed {
                    delivered: frame_body(stream) + next.delivered,
                    rest: next.rest,
                    error: next.error,
                }
            },
            Ok(Unframe::Discard(_)) => if !frame_complete(stream) {
                stopped(stream, Some(ErrorKind::ShortRead))
            } else {
                unframed(frame_rest(stream))
            },
        }
    }
}

/// Copies a framed stream to its plain form: reads frame after frame,
/// appends the body of each `data` frame to `to_plain`, drops the body of
/// each extension frame, and stops at `fini`. A `data` frame that announces
/// more than `DATA_LIMIT` bytes, any other tag, and a stream that ends
/// inside a frame are errors; the frame in question is then left unread.
/// After `ShortRead` the copy can go on from what is left once more bytes
/// have come.
pub fn copy_unframing<'a>(from_framed: &mut ByteReader<'a>, to_plain: &mut Vec<u8>) -> (r: Result<
    (),
    ErrorKind,
>)
    ensures
        final(to_plain)@ == old(to_plain)@ + unframed(old(from_framed)@).delivered,
        final(from_framed)@ == unframed(old(from_framed)@).rest,
        match r {
            Ok(_) => unframed(old(from_framed)@).error is None,
            Err(e) => unframed(old(from_framed)@).error == Some(e),
        },
{
    let ghost whole = unframed(old(from_framed)@);
    let ghost start = old(to_plain)@;
    loop
        invariant
            whole == unframed(old(from_framed)@),
            start == old(to_plain)@,
            start + whole.delivered == to_plain@ + unframed(from_framed@).delivered,
            whole.rest == unframed(from_framed@).rest,
            whole.error == unframed(from_framed@).error,
        decreases from_framed@.len(),
    {
        let ghost stream = from_framed@;
        let ghost plain = to_plain@;
        assert(plain + Seq::<u8>::empty() =~= plain);
        let mut ahead = from_framed.fork();
        let header = match HeaderHeader::from(&mut ahead) {
            Ok(h) => h,
            Err(e) => { return Err(e); },
        };
        match unframe_step(&header) {
            Ok(Unframe::Finish) => {
                *from_framed = ahead;
                return Ok(());
            },
            Ok(Unframe::Deliver(len)) => {
                match ahead.read_exact(len) {
                    Ok(body) => {
                        to_plain.extend_from_slice(body);
                        proof {
                            assert(body@ =~= frame_body(stream));
                            assert(ahead@ =~= frame_rest(stream));
                            assert((plain + body@) + unframed(ahead@).delivered =~= plain + (body@
                                + unframed(ahead@).delivered));
                        }
                        *from_framed = ahead;
                    },
                    Err(e) => { return Err(e); },
                }
            },
            Ok(Unframe::Discard(len)) => {
                match ahead.read_exact(len) {
                    Ok(_) => {
                        assert(ahead@ =~= frame_rest(stream));
                        *from_framed = ahead;
                    },
                    Err(e) => { return Err(e); },
                }
            },
            Err(e) => { return Err(e); },
        }
    }
}

/// The framed form of a plain stream that was read in the given pieces:
/// one `data` frame for each piece, in order, then `fini`.
pub open spec fn framed_chunks(chunks: Seq<Seq<u8>>) -> Seq<u8>
    decreases chunks.len(),
{
    if chunks.len() == 0 {
        frame_bytes(TAG_FINI@, Seq::<u8>::empty())
    } else {
        frame_bytes(TAG_DATA@, chunks[0]) + framed_chunks(chunks.drop_first())
    }
}

/// The pieces of a stream put together again, in order.
pub open spec fn joined(chunks: Seq<Seq<u8>>) -> Seq<u8>
    decreases chunks.len(),
{
    if chunks.len() == 0 {
        Seq::<u8>::empty()
    } else {
        chunks[0] + joined(chunks.drop_first())
    }
}

/// What the copy from the framed side makes of one `data` frame that is
/// within the limit, followed by `rest`: the body is delivered, and the
/// copy goes on with `rest`.
pub proof fn lemma_unframed_data(body: Seq<u8>, rest: Seq<u8>)
    requires
        body.len() <= DATA_LIMIT,
    ensures
        unframed(frame_bytes(TAG_DATA@, body) + rest) == (Unframed {
            delivered: body + unframed(rest).delivered,
            rest: unframed(rest).rest,
            error: unframed(rest).error,
        }),
{
    lemma_frame_round_trip(TAG_DATA@, body, rest);
    assert(TAG_DATA@[0] != TAG_FINI@[0]);
}

/// What the copy from the framed side makes of a `fini` frame followed by
/// `rest`: it ends without error and leaves `rest` unread.
pub proof fn lemma_unframed_fini(rest: Seq<u8>)
    ensures
        unframed(frame_bytes(TAG_FINI@, Seq::<u8>::empty()) + rest) == (Unframed {
            delivered: Seq::<u8>::empty(),
            rest: rest,
            error: None,
        }),
{
    lemma_frame_round_trip(TAG_FINI@, Seq::<u8>::empty(), rest);
    assert((frame_bytes(TAG_FINI@, Seq::<u8>::empty()) + rest).skip(6) =~= rest);
}

/// The bytes that one side of a tunnel writes arrive at the other side as
/// they were written, in order, however the sender's reads cut them into
/// pieces, as long as no piece is over the receiver's limit. What follows
/// the `fini` on the framed stream is left unread.
pub proof fn lemma_chunks_arrive(chunks: Seq<Seq<u8>>, tail: Seq<u8>)
    requires
        forall|i: int| 0 <= i < chunks.len() ==> (#[trigger] chunks[i]).len() <= DATA_LIMIT,
    ensures
        unframed(framed_chunks(chunks) + tail) == (Unframed {
            delivered: joined(chunks),
            rest: tail,
            error: None,
        }),
    decreases chunks.len(),
{
    if chunks.len() == 0 {
        lemma_unframed_fini(tail);
    } else {
        let later = chunks.drop_first();
        assert forall|i: int| 0 <= i < later.len() implies (#[trigger] later[i]).len()
            <= DATA_LIMIT by {
            assert(later[i] == chunks[i + 1]);
        }
        lemma_chunks_arrive(later, tail);
        lemma_unframed_data(chunks[0], framed_chunks(later) + tail);
        assert(framed_chunks(chunks) + tail =~= frame_bytes(TAG_DATA@, chunks[0]) + (framed_chunks(
            later,
        ) + tail));
    }
}

/// The framed form of a plain stream that has not ended starts with the
/// `data` frame of its first chunk.
pub proof fn lemma_framed_first_chunk(plain: Seq<u8>)
    requires
        plain.len() > 0,
    ensures
        0 < chunk_len(plain.len()) <= CHUNK_LEN,
        chunk_len(plain.len()) <= plain.len(),
        framed(plain) == frame_bytes(TAG_DATA@, plain.take(chunk_len(plain.len()))) + framed(
            plain.skip(chunk_len(plain.len())),
        ),
{
}

/// A plain stream that `copy_framing` has framed is given back unchanged by
/// `copy_unframing`, which ends without error and leaves what follows the
/// `fini` unread.
pub proof fn lemma_tunnel_transparency(plain: Seq<u8>, tail: Seq<u8>)
    ensures
        unframed(framed(plain) + tail) == (Unframed { delivered: plain, rest: tail, error: None }),
    decreases plain.len(),
{
    if plain.len() == 0 {
        lemma_unframed_fini(tail);
        assert(plain =~= Seq::<u8>::empty());
    } else {
        let n = chunk_len(plain.len());
        let head = plain.take(n);
        let later = plain.skip(n);
        let first = frame_bytes(TAG_DATA@, head);
        lemma_framed_first_chunk(plain);
        lemma_tunnel_transparency(later, tail);
        lemma_unframed_data(head, framed(later) + tail);
        assert((first + framed(later)) + tail =~= first + (framed(later) + tail));
        assert(head + later =~= plain);
    }
}

/// A whole frame stays the same frame when more bytes come after it: its
/// tag, its body, and what follows it, to which the new bytes are added.
pub proof fn lemma_frame_prefix(bytes: Seq<u8>, more: Seq<u8>)
    requires
        bytes.len() >= 6,
    ensures
        header_tag(bytes + more) == header_tag(bytes),
        header_len(bytes + more) == header_len(bytes),
        frame_complete(bytes) ==> frame_complete(bytes + more) && frame_body(bytes + more)
            == frame_body(bytes) && frame_rest(bytes + more) == frame_rest(bytes) + more,
{
    assert(header_tag(bytes + more) =~= header_tag(bytes));
    if frame_complete(bytes) {
        assert(frame_body(bytes + more) =~= frame_body(bytes));
        assert(frame_rest(bytes + more) =~= frame_rest(bytes) + more);
    }
}

/// What two copies in a row make of a stream, the second going on where the
/// first stopped.
pub open spec fn resumed(first: Unframed, second: Unframed) -> Unframed {
    Unframed {
        delivered: first.delivered + second.delivered,
        rest: second.rest,
        error: second.error,
    }
}

/// A copy that stopped for want of bytes can go on when more have come:
/// copying what was left together with the new bytes ends as if all the
/// bytes had been there from the start. So the copy does the same however
/// the framed stream is cut into reads.
pub proof fn lemma_unframed_resumes(first: Seq<u8>, more: Seq<u8>)
    requires
        unframed(first).error == Some(ErrorKind::ShortRead),
    ensures
        unframed(first + more) == resumed(unframed(first), unframed(unframed(first).rest + more)),
    decreases first.len(),
{
    if first.len() >= 6 && frame_complete(first) {
        let next = frame_rest(first);
        let later = unframed(unframed(first).rest + more);
        lemma_frame_prefix(first, more);
        lemma_unframed_resumes(next, more);
        assert(frame_body(first) + (unframed(next).delivered + later.delivered) =~= (frame_body(
            first,
        ) + unframed(next).delivered) + later.delivered);
    } else {
        let later = unframed(first + more);
        assert(Seq::<u8>::empty() + later.delivered =~= later.delivered);
        if first.len() >= 6 {
            lemma_frame_prefix(first, more);
        }
    }
}

} // verus!
