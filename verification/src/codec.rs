//! The framing of the control protocol: each message is one line of
//! UTF-8 text that ends with a line feed.
//!
//! What a line says is not decided here: the codec hands lines out and
//! takes lines in.

use vstd::prelude::*;
use vstd::string::*;
use vstd::utf8::*;

verus! {

/// The byte that ends a line.
pub const LINE_FEED: u8 = 10;

/// A byte that is dropped where it stands before the line feed.
pub const CARRIAGE_RETURN: u8 = 13;

/// The most bytes that a line may have, by default.
pub const MAX_LINE_LENGTH: usize = 1048576;

/// Why the bytes that arrived are no line of the protocol.
#[derive(Clone, Copy, Debug, PartialEq, Eq, Structural)]
pub enum CodecError {
    /// More bytes than a line may have, and no line feed yet.
    MaxLineLengthExceeded,
    /// The line is not UTF-8 text.
    InvalidUtf8,
}

/// Whether the first line feed of `src` is at `pos`.
pub open spec fn line_ends_at(src: Seq<u8>, pos: int) -> bool {
    &&& 0 <= pos < src.len()
    &&& src[pos] == LINE_FEED
    &&& forall|j: int| 0 <= j < pos ==> src[j] != LINE_FEED
}

/// The place of the first line feed of `src`.
pub open spec fn line_end(src: Seq<u8>) -> int {
    choose|pos: int| line_ends_at(src, pos)
}

/// The bytes of a line without the carriage return at its end, if it
/// has one.
pub open spec fn trimmed(line: Seq<u8>) -> Seq<u8> {
    if line.len() > 0 && line.last() == CARRIAGE_RETURN {
        line.drop_last()
    } else {
        line
    }
}

/// What taking a line out of the buffer `src` comes to, for a codec
/// whose lines have at most `max` bytes: the line, or nothing yet, or
/// an error; and what is left in the buffer.
///
/// A line is what stands before the first line feed, without the
/// carriage return at its end. The line feed leaves the buffer with the
/// line. Without a line feed the buffer stays as it is, and is too long
/// when it holds more than `max` bytes.
pub open spec fn decoding(src: Seq<u8>, max: usize) -> (Result<Option<Seq<char>>, CodecError>, Seq<u8>) {
    if src.contains(LINE_FEED) {
        let pos = line_end(src);
        let line = trimmed(src.take(pos));
        if pos > max {
            (Err(CodecError::MaxLineLengthExceeded), src)
        } else if valid_utf8(line) {
            (Ok(Some(decode_utf8(line))), src.skip(pos + 1))
        } else {
            (Err(CodecError::InvalidUtf8), src.skip(pos + 1))
        }
    } else if src.len() > max {
        (Err(CodecError::MaxLineLengthExceeded), src)
    } else {
        (Ok(None), src)
    }
}

/// The bytes of the line `item` on the stream.
pub open spec fn encoding(item: Seq<char>) -> Seq<u8> {
    encode_utf8(item).push(LINE_FEED)
}

/// Turns bytes into text with `String::from_utf8`, which gives the text
/// whose UTF-8 encoding the bytes are, and nothing if they are none.
#[verifier::external_body]
fn from_utf8(bytes: Vec<u8>) -> (r: Option<String>)
    ensures
        r is Some <==> valid_utf8(bytes@),
        r matches Some(s) ==> encode_utf8(s@) == bytes@,
{
    match String::from_utf8(bytes) {
        Ok(s) => Some(s),
        Err(_) => None,
    }
}

/// Lines of text, each ended by a line feed.
#[derive(Clone, Copy, Debug, PartialEq, Eq, Structural)]
pub struct Codec {
    /// The most bytes that a line may have.
    pub max_length: usize,
}

impl Default for Codec {
    fn default() -> (codec: Codec)
        ensures
            codec == (Codec { max_length: MAX_LINE_LENGTH }),
    {
        Codec { max_length: MAX_LINE_LENGTH }
    }
}

impl Codec {
    /// A codec whose lines have at most `max_length` bytes.
    pub fn new(max_length: usize) -> (codec: Codec)
        ensures
            codec == (Codec { max_length }),
    {
        Codec { max_length }
    }

    /// Takes the next line out of the buffer, if a whole line is there.
    pub fn decode(&self, src: &mut Vec<u8>) -> (r: Result<Option<String>, CodecError>)
        ensures
            final(src)@ == decoding(old(src)@, self.max_length).1,
            match r {
                Ok(Some(line)) => decoding(old(src)@, self.max_length).0 == Ok::<
                    Option<Seq<char>>,
                    CodecError,
                >(Some(line@)),
                Ok(None) => decoding(old(src)@, self.max_length).0 == Ok::<
                    Option<Seq<char>>,
                    CodecError,
                >(None),
                Err(e) => decoding(old(src)@, self.max_length).0 == Err::<
                    Option<Seq<char>>,
                    CodecError,
                >(e),
            },
    {
        let mut pos: usize = 0;
        while pos < src.len() && src[pos] != LINE_FEED
            invariant
                pos <= src.len(),
                src@ == old(src)@,
                forall|j: int| 0 <= j < pos ==> src@[j] != LINE_FEED,
            decreases src.len() - pos,
        {
            pos += 1;
        }
        if pos == src.len() {
            if src.len() > self.max_length {
                return Err(CodecError::MaxLineLengthExceeded);
            }
            return Ok(None);
        }
        proof {
            assert(line_ends_at(src@, pos as int));
            let chosen = line_end(src@);
            assert(line_ends_at(src@, chosen));
            assert(chosen == pos);
        }
        if pos > self.max_length {
            return Err(CodecError::MaxLineLengthExceeded);
        }
        let ghost before = src@;
        let mut rest = src.split_off(pos);
        assert(src@ =~= before.take(pos as int));
        rest.remove(0);
        assert(rest@ =~= before.skip(pos + 1));
        let mut line: Vec<u8> = Vec::new();
        std::mem::swap(&mut line, src);
        std::mem::swap(&mut rest, src);
        if line.len() > 0 && line[line.len() - 1] == CARRIAGE_RETURN {
            line.pop();
        }
        assert(line@ =~= trimmed(before.take(pos as int)));
        match from_utf8(line) {
            Some(text) => {
                proof {
                    encode_utf8_decode_utf8(text@);
                }
                Ok(Some(text))
            },
            None => Err(CodecError::InvalidUtf8),
        }
    }

    /// Puts the line `item` behind what the buffer holds.
    pub fn encode(&self, item: &str, dst: &mut Vec<u8>)
        ensures
            final(dst)@ == old(dst)@ + encoding(item@),
    {
        let bytes = item.as_bytes();
        let mut i: usize = 0;
        while i < bytes.len()
            invariant
                i <= bytes.len(),
                bytes@ == encode_utf8(item@),
                dst@ == old(dst)@ + bytes@.take(i as int),
            decreases bytes.len() - i,
        {
            dst.push(bytes[i]);
            assert(bytes@.take(i + 1) =~= bytes@.take(i as int).push(bytes@[i as int]));
            i += 1;
        }
        assert(bytes@.take(i as int) =~= bytes@);
        dst.push(LINE_FEED);
        assert(dst@ =~= old(dst)@ + encoding(item@));
    }
}

proof fn lemma_scalar_bytes(c: u32, b: u8)
    by (bit_vector)
    requires
        b < 0x80,
        c != b as u32,
    ensures
        c <= 0x7F ==> (c & 0x7F) as u8 != b,
        0xC0u8 | ((c >> 6) & 0x1F) as u8 != b,
        0xE0u8 | ((c >> 12) & 0x0F) as u8 != b,
        0xF0u8 | ((c >> 18) & 0x7) as u8 != b,
        0x80u8 | (c & 0x3F) as u8 != b,
        0x80u8 | ((c >> 6) & 0x3F) as u8 != b,
        0x80u8 | ((c >> 12) & 0x3F) as u8 != b,
{
}

/// Text without the character `ch`, which is one of the first 128, has no
/// byte of that value in its UTF-8 encoding.
proof fn lemma_byte_absent(chars: Seq<char>, ch: char, b: u8)
    requires
        b < 0x80,
        ch as u32 == b as u32,
        !chars.contains(ch),
    ensures
        !encode_utf8(chars).contains(b),
    decreases chars.len(),
{
    if chars.len() > 0 {
        let c = chars[0] as u32;
        let first = encode_scalar(c);
        let rest = encode_utf8(chars.drop_first());
        char_is_scalar(chars[0]);
        assert(chars.contains(chars[0]));
        if c == b as u32 {
            char_u32_cast(chars[0], c);
            char_u32_cast(ch, c);
        }
        lemma_scalar_bytes(c, b);
        assert forall|i: int| 0 <= i < first.len() implies first[i] != b by {}
        assert forall|x: char| chars.drop_first().contains(x) implies chars.contains(x) by {
            let k = choose|k: int| 0 <= k < chars.drop_first().len() && chars.drop_first()[k] == x;
            assert(chars[k + 1] == x);
        }
        lemma_byte_absent(chars.drop_first(), ch, b);
        let all = encode_utf8(chars);
        if all.contains(b) {
            let k = choose|k: int| 0 <= k < all.len() && all[k] == b;
            if k < first.len() {
                assert(first[k] == b);
            } else {
                assert(rest[k - first.len()] == b);
            }
        }
    }
}

/// A line that was put on the stream is the line that is taken off it,
/// and what follows the line stays behind, byte for byte: for every line
/// that holds neither a line feed nor a carriage return, and that is not
/// longer than the codec allows.
pub proof fn lemma_decode_encode(item: Seq<char>, rest: Seq<u8>, max: usize)
    requires
        !item.contains('\n'),
        !item.contains('\r'),
        encode_utf8(item).len() <= max,
    ensures
        decoding(encoding(item) + rest, max) == (
            Ok::<Option<Seq<char>>, CodecError>(Some(item)),
            rest,
        ),
{
    let bytes = encode_utf8(item);
    let src = encoding(item) + rest;
    let pos = bytes.len() as int;
    lemma_byte_absent(item, '\n', LINE_FEED);
    lemma_byte_absent(item, '\r', CARRIAGE_RETURN);
    if bytes.len() > 0 {
        assert(bytes.contains(bytes.last()));
    }
    assert(src[pos] == LINE_FEED);
    assert forall|j: int| 0 <= j < pos implies src[j] != LINE_FEED by {
        assert(src[j] == bytes[j]);
        assert(bytes.contains(bytes[j]));
    }
    assert(line_ends_at(src, pos));
    let chosen = line_end(src);
    assert(line_ends_at(src, chosen));
    assert(chosen == pos);
    assert(src.take(pos) =~= bytes);
    assert(src.skip(pos + 1) =~= rest);
    encode_utf8_valid_utf8(item);
    encode_utf8_decode_utf8(item);
}

/// Bytes without a line feed are no line yet: they stay in the buffer,
/// unless they are more than a line may have.
pub proof fn lemma_partial_line(src: Seq<u8>, max: usize)
    requires
        !src.contains(LINE_FEED),
        src.len() <= max,
    ensures
        decoding(src, max) == (Ok::<Option<Seq<char>>, CodecError>(None), src),
{
}

/// What is left of a framed stream when it is taken apart.
pub struct FramedParts<T> {
    /// The stream.
    pub io: T,
    pub codec: Codec,
    /// Bytes that were read from the stream and are part of no line yet.
    pub read_buf: Vec<u8>,
    /// Bytes that have not been written to the stream yet.
    pub write_buf: Vec<u8>,
}

/// A stream of lines over a stream of bytes, with the bytes that are
/// under way. It reads and writes nothing itself: the owner of the
/// stream moves the bytes.
pub struct Framed<T> {
    inner: T,
    codec: Codec,
    read_buffer: Vec<u8>,
    write_buffer: Vec<u8>,
}

/// Constructs a new `Framed` with a codec of the default line length
/// around `io`, with nothing under way.
pub fn framed<T>(io: T) -> (f: Framed<T>)
    ensures
        f.io() == io,
        f.codec() == (Codec { max_length: MAX_LINE_LENGTH }),
        f.read_buffer() == Seq::<u8>::empty(),
        f.write_buffer() == Seq::<u8>::empty(),
{
    Framed {
        inner: io,
        codec: Codec { max_length: MAX_LINE_LENGTH },
        read_buffer: Vec::new(),
        write_buffer: Vec::new(),
    }
}

impl<T> Framed<T> {
    /// The stream.
    pub closed spec fn io(&self) -> T {
        self.inner
    }

    pub closed spec fn codec(&self) -> Codec {
        self.codec
    }

    /// The bytes that were read from the stream and not taken out yet.
    pub closed spec fn read_buffer(&self) -> Seq<u8> {
        self.read_buffer@
    }

    /// The bytes that have not been written to the stream yet.
    pub closed spec fn write_buffer(&self) -> Seq<u8> {
        self.write_buffer@
    }

    /// Consumes the `Framed`, returning its stream, the buffers with
    /// the bytes under way, and the codec.
    pub fn into_parts(self) -> (parts: FramedParts<T>)
        ensures
            parts.io == self.io(),
            parts.codec == self.codec(),
            parts.read_buf@ == self.read_buffer(),
            parts.write_buf@ == self.write_buffer(),
    {
        FramedParts {
            io: self.inner,
            codec: self.codec,
            read_buf: self.read_buffer,
            write_buf: self.write_buffer,
        }
    }

    /// Consumes the `Framed`, returning its stream.
    pub fn into_inner(self) -> (io: T)
        ensures
            io == self.io(),
    {
        self.inner
    }

    /// The stream, for the owner to read from and write to.
    pub fn get_mut(&mut self) -> (io: &mut T)
        ensures
            *io == old(self).io(),
            final(self).io() == *final(io),
            final(self).codec() == old(self).codec(),
            final(self).read_buffer() == old(self).read_buffer(),
            final(self).write_buffer() == old(self).write_buffer(),
    {
        &mut self.inner
    }

    /// Takes in bytes that were read from the stream.
    pub fn fill(&mut self, bytes: &Vec<u8>)
        ensures
            final(self).io() == old(self).io(),
            final(self).codec() == old(self).codec(),
            final(self).read_buffer() == old(self).read_buffer() + bytes@,
            final(self).write_buffer() == old(self).write_buffer(),
    {
        let mut i: usize = 0;
        while i < bytes.len()
            invariant
                i <= bytes.len(),
                self.inner == old(self).inner,
                self.codec == old(self).codec,
                self.write_buffer == old(self).write_buffer,
                self.read_buffer@ == old(self).read_buffer@ + bytes@.take(i as int),
            decreases bytes.len() - i,
        {
            self.read_buffer.push(bytes[i]);
            assert(bytes@.take(i + 1) =~= bytes@.take(i as int).push(bytes@[i as int]));
            i += 1;
        }
        assert(bytes@.take(i as int) =~= bytes@);
    }

    /// Reads raw bytes, for what follows a line on the stream. While
    /// bytes are buffered they come first: as many as are there, and at
    /// most `remaining`, move behind what `buf` holds. With an empty
    /// buffer nothing moves and the result is false: the bytes are then
    /// to be read from the stream itself.
    pub fn poll_read(&mut self, buf: &mut Vec<u8>, remaining: usize) -> (buffered: bool)
        ensures
            final(self).io() == old(self).io(),
            final(self).codec() == old(self).codec(),
            final(self).write_buffer() == old(self).write_buffer(),
            buffered == (old(self).read_buffer().len() > 0),
            ({
                let n = if remaining <= old(self).read_buffer().len() {
                    remaining as int
                } else {
                    old(self).read_buffer().len() as int
                };
                &&& final(buf)@ == old(buf)@ + old(self).read_buffer().take(n)
                &&& final(self).read_buffer() == old(self).read_buffer().skip(n)
            }),
    {
        if self.read_buffer.len() == 0 {
            assert(self.read_buffer@.take(0) =~= Seq::<u8>::empty());
            assert(self.read_buffer@.skip(0) =~= self.read_buffer@);
            assert(buf@ + Seq::<u8>::empty() =~= buf@);
            return false;
        }
        let n = if remaining <= self.read_buffer.len() {
            remaining
        } else {
            self.read_buffer.len()
        };
        let ghost before = self.read_buffer@;
        let mut rest = self.read_buffer.split_off(n);
        assert(self.read_buffer@ =~= before.take(n as int));
        assert(rest@ =~= before.skip(n as int));
        let mut i: usize = 0;
        while i < n
            invariant
                i <= n,
                n == self.read_buffer.len(),
                self.read_buffer@ == before.take(n as int),
                buf@ == old(buf)@ + before.take(n as int).take(i as int),
            decreases n - i,
        {
            buf.push(self.read_buffer[i]);
            assert(before.take(n as int).take(i + 1) =~= before.take(n as int).take(i as int).push(
                before.take(n as int)[i as int],
            ));
            i += 1;
        }
        assert(before.take(n as int).take(i as int) =~= before.take(n as int));
        std::mem::swap(&mut rest, &mut self.read_buffer);
        true
    }

    /// Takes the next line out of the bytes that were read, if a whole
    /// line is there.
    pub fn poll_next(&mut self) -> (r: Result<Option<String>, CodecError>)
        ensures
            final(self).io() == old(self).io(),
            final(self).codec() == old(self).codec(),
            final(self).write_buffer() == old(self).write_buffer(),
            final(self).read_buffer() == decoding(
                old(self).read_buffer(),
                old(self).codec().max_length,
            ).1,
            match r {
                Ok(Some(line)) => decoding(old(self).read_buffer(), old(self).codec().max_length).0
                    == Ok::<Option<Seq<char>>, CodecError>(Some(line@)),
                Ok(None) => decoding(old(self).read_buffer(), old(self).codec().max_length).0
                    == Ok::<Option<Seq<char>>, CodecError>(None),
                Err(e) => decoding(old(self).read_buffer(), old(self).codec().max_length).0
                    == Err::<Option<Seq<char>>, CodecError>(e),
            },
    {
        self.codec.decode(&mut self.read_buffer)
    }

    /// Puts the line `item` behind the bytes that wait to be written.
    pub fn start_send(&mut self, item: &str)
        ensures
            final(self).io() == old(self).io(),
            final(self).codec() == old(self).codec(),
            final(self).read_buffer() == old(self).read_buffer(),
            final(self).write_buffer() == old(self).write_buffer() + encoding(item@),
    {
        self.codec.encode(item, &mut self.write_buffer)
    }

    /// Takes the bytes that wait to be written, for the owner of the
    /// stream to write them.
    pub fn poll_flush(&mut self) -> (bytes: Vec<u8>)
        ensures
            bytes@ == old(self).write_buffer(),
            final(self).io() == old(self).io(),
            final(self).codec() == old(self).codec(),
            final(self).read_buffer() == old(self).read_buffer(),
            final(self).write_buffer() == Seq::<u8>::empty(),
    {
        let mut bytes: Vec<u8> = Vec::new();
        std::mem::swap(&mut bytes, &mut self.write_buffer);
        bytes
    }
}

} // verus!
