//! The binary wire format of an hstore value.
//!
//! Everything is big-endian. A value is a signed 32-bit entry count followed
//! by that many entries. An entry is a key and a value, each a signed 32-bit
//! byte length followed by that many bytes of UTF-8. A value length of `-1`
//! marks SQL `NULL` and is followed by no bytes.
//!
//! Decoding drops `NULL` entries: the container holds present values only.
//! A buffer that ends too early, whether before a length or inside the bytes
//! that a length announces, is `Truncated`; the three `Malformed` errors are
//! kept for lengths that are themselves impossible.

use crate::bytes::{be_bytes, be_i32, be_i32_word, lemma_be_roundtrip, read_be_i32};
use crate::container::{pair_views, pairs_to_map, Hstore, Pair};
use crate::text::{opt_view, text_from_utf8};
use vstd::prelude::*;
use vstd::slice::slice_subrange;
use vstd::utf8::*;

verus! {

/// Why a byte buffer is not an hstore value.
#[derive(Clone, Copy, Debug, PartialEq, Eq, Structural)]
pub enum DecodeError {
    /// The entry count is negative.
    MalformedCount,
    /// A key length is negative.
    MalformedKeyLength,
    /// A value length is negative and not the `NULL` marker `-1`.
    MalformedValueLength,
    /// The bytes of a key or of a value are not UTF-8.
    InvalidUtf8,
    /// Bytes are left over after the last entry.
    TrailingData,
    /// The buffer ends before a length or before the bytes it announces.
    Truncated,
    /// There is no buffer at all: the column held SQL `NULL`.
    UnexpectedNull,
}

/// An entry as it stands on the wire: a key, and a value unless it is `NULL`.
pub type WireEntry = (Seq<char>, Option<Seq<char>>);

/// The 32-bit word at offset `pos` of `b`.
pub open spec fn word_at(b: Seq<u8>, pos: int) -> int {
    be_i32(b.subrange(pos, pos + 4))
}

/// The entry count at the head of `b`.
pub open spec fn parse_count(b: Seq<u8>) -> Result<nat, DecodeError> {
    if b.len() < 4 {
        Err(DecodeError::Truncated)
    } else if word_at(b, 0) < 0 {
        Err(DecodeError::MalformedCount)
    } else {
        Ok(word_at(b, 0) as nat)
    }
}

/// The `n` bytes at offset `pos` of `b` as text, with the offset behind them.
pub open spec fn parse_text(b: Seq<u8>, pos: int, n: int) -> Result<(Seq<char>, int), DecodeError> {
    if pos + n > b.len() {
        Err(DecodeError::Truncated)
    } else if !valid_utf8(b.subrange(pos, pos + n)) {
        Err(DecodeError::InvalidUtf8)
    } else {
        Ok((decode_utf8(b.subrange(pos, pos + n)), pos + n))
    }
}

/// The key at offset `pos` of `b`, with the offset behind it.
pub open spec fn parse_key(b: Seq<u8>, pos: int) -> Result<(Seq<char>, int), DecodeError> {
    if pos + 4 > b.len() {
        Err(DecodeError::Truncated)
    } else if word_at(b, pos) < 0 {
        Err(DecodeError::MalformedKeyLength)
    } else {
        parse_text(b, pos + 4, word_at(b, pos))
    }
}

/// The value at offset `pos` of `b`, with the offset behind it.
pub open spec fn parse_value(b: Seq<u8>, pos: int) -> Result<
    (Option<Seq<char>>, int),
    DecodeError,
> {
    if pos + 4 > b.len() {
        Err(DecodeError::Truncated)
    } else if word_at(b, pos) == -1 {
        Ok((None, pos + 4))
    } else if word_at(b, pos) < 0 {
        Err(DecodeError::MalformedValueLength)
    } else {
        match parse_text(b, pos + 4, word_at(b, pos)) {
            Ok((v, end)) => Ok((Some(v), end)),
            Err(e) => Err(e),
        }
    }
}

/// The entry at offset `pos` of `b`, with the offset behind it.
pub open spec fn parse_entry(b: Seq<u8>, pos: int) -> Result<(WireEntry, int), DecodeError> {
    match parse_key(b, pos) {
        Err(e) => Err(e),
        Ok((k, mid)) => match parse_value(b, mid) {
            Err(e) => Err(e),
            Ok((v, end)) => Ok(((k, v), end)),
        },
    }
}

/// The first `n` entries from offset `pos` of `b`, with the offset behind
/// them; the error of the first entry that fails.
pub open spec fn parse_entries(b: Seq<u8>, pos: int, n: nat) -> Result<
    (Seq<WireEntry>, int),
    DecodeError,
>
    decreases n,
{
    if n == 0 {
        Ok((Seq::empty(), pos))
    } else {
        match parse_entries(b, pos, (n - 1) as nat) {
            Err(e) => Err(e),
            Ok((es, mid)) => match parse_entry(b, mid) {
                Err(e) => Err(e),
                Ok((e, end)) => Ok((es.push(e), end)),
            },
        }
    }
}

/// The entries of a whole buffer, in wire order.
pub open spec fn parse_wire(b: Seq<u8>) -> Result<Seq<WireEntry>, DecodeError> {
    match parse_count(b) {
        Err(e) => Err(e),
        Ok(n) => match parse_entries(b, 4, n) {
            Err(e) => Err(e),
            Ok((es, end)) => if end != b.len() {
                Err(DecodeError::TrailingData)
            } else {
                Ok(es)
            },
        },
    }
}

/// The map that wire entries stand for: entries are inserted in wire order,
/// and a `NULL` entry is skipped.
pub open spec fn wire_map(es: Seq<WireEntry>) -> Map<Seq<char>, Seq<char>>
    decreases es.len(),
{
    if es.len() == 0 {
        Map::empty()
    } else {
        match es.last().1 {
            Some(v) => wire_map(es.drop_last()).insert(es.last().0, v),
            None => wire_map(es.drop_last()),
        }
    }
}

/// What decoding a buffer yields.
pub open spec fn decode_spec(b: Seq<u8>) -> Result<Map<Seq<char>, Seq<char>>, DecodeError> {
    match parse_wire(b) {
        Err(e) => Err(e),
        Ok(es) => Ok(wire_map(es)),
    }
}

/// What the cursor's next step yields with `remaining` entries still
/// announced and the cursor at offset `pos`: the entry there and the offset
/// behind it, or `None` at the clean end of the buffer.
pub open spec fn next_entry(b: Seq<u8>, pos: int, remaining: nat) -> Result<
    Option<(WireEntry, int)>,
    DecodeError,
> {
    if remaining == 0 {
        if pos == b.len() {
            Ok(None)
        } else {
            Err(DecodeError::TrailingData)
        }
    } else {
        match parse_entry(b, pos) {
            Err(e) => Err(e),
            Ok((e, end)) => Ok(Some((e, end))),
        }
    }
}

/// Once an entry has failed, asking for more entries fails the same way.
pub proof fn lemma_error_stays(b: Seq<u8>, pos: int, m: nat, n: nat)
    requires
        m <= n,
        parse_entries(b, pos, m) is Err,
    ensures
        parse_entries(b, pos, n) == parse_entries(b, pos, m),
    decreases n,
{
    if m < n {
        lemma_error_stays(b, pos, m, (n - 1) as nat);
    }
}

/// A cursor over the entries of a wire buffer.
pub struct Entries<'a> {
    buf: &'a [u8],
    pos: usize,
    remaining: u32,
}

impl<'a> Entries<'a> {
    #[verifier::type_invariant]
    pub closed spec fn wf(&self) -> bool {
        self.pos <= self.buf@.len()
    }

    /// The buffer that the cursor reads.
    pub closed spec fn bytes(&self) -> Seq<u8> {
        self.buf@
    }

    /// The offset of the next unread byte.
    pub closed spec fn offset(&self) -> int {
        self.pos as int
    }

    /// How many announced entries have not been read yet.
    pub closed spec fn remaining(&self) -> nat {
        self.remaining as nat
    }

    /// Reads the entry count and places the cursor on the first entry.
    pub fn new(buf: &'a [u8]) -> (r: Result<Entries<'a>, DecodeError>)
        ensures
            match r {
                Ok(c) => c.bytes() == buf@ && c.offset() == 4 && parse_count(buf@) == Ok::<
                    nat,
                    DecodeError,
                >(c.remaining()),
                Err(e) => parse_count(buf@) == Err::<nat, DecodeError>(e),
            },
    {
        if buf.len() < 4 {
            return Err(DecodeError::Truncated);
        }
        let count = read_be_i32(buf);
        assert(buf@.subrange(0, 4) =~= buf@.subrange(0int, 0int + 4));
        if count < 0 {
            return Err(DecodeError::MalformedCount);
        }
        Ok(Entries { buf, pos: 4, remaining: count as u32 })
    }

    /// Reads the 32-bit length at `pos`.
    fn read_word(&self, pos: usize) -> (r: Option<i32>)
        requires
            pos <= self.bytes().len(),
        ensures
            match r {
                Some(n) => pos + 4 <= self.bytes().len() <= usize::MAX && n == word_at(
                    self.bytes(),
                    pos as int,
                ),
                None => pos + 4 > self.bytes().len(),
            },
    {
        if self.buf.len() - pos < 4 {
            return None;
        }
        let field = slice_subrange(self.buf, pos, pos + 4);
        assert(field@.subrange(0, 4) =~= self.buf@.subrange(pos as int, pos + 4));
        Some(read_be_i32(field))
    }

    /// Reads `n` bytes of text at `pos`.
    fn read_text(&self, pos: usize, n: i32) -> (r: Result<(String, usize), DecodeError>)
        requires
            pos <= self.bytes().len(),
            n >= 0,
        ensures
            match r {
                Ok((s, end)) => parse_text(self.bytes(), pos as int, n as int) == Ok::<
                    (Seq<char>, int),
                    DecodeError,
                >((s@, end as int)) && end <= self.bytes().len(),
                Err(e) => parse_text(self.bytes(), pos as int, n as int) == Err::<
                    (Seq<char>, int),
                    DecodeError,
                >(e),
            },
    {
        let n = n as usize;
        if self.buf.len() - pos < n {
            return Err(DecodeError::Truncated);
        }
        match text_from_utf8(slice_subrange(self.buf, pos, pos + n)) {
            Some(s) => Ok((s, pos + n)),
            None => Err(DecodeError::InvalidUtf8),
        }
    }

    /// Reads the next entry, or `None` at the clean end of the buffer. After
    /// an error the cursor stands where it stood.
    pub fn next(&mut self) -> (r: Result<Option<(String, Option<String>)>, DecodeError>)
        ensures
            final(self).bytes() == old(self).bytes(),
            match r {
                Ok(Some((k, v))) => next_entry(
                    old(self).bytes(),
                    old(self).offset(),
                    old(self).remaining(),
                ) == Ok::<Option<(WireEntry, int)>, DecodeError>(
                    Some(((k@, opt_view(v)), final(self).offset())),
                ) && final(self).remaining() == old(self).remaining() - 1,
                Ok(None) => next_entry(old(self).bytes(), old(self).offset(), old(self).remaining())
                    == Ok::<Option<(WireEntry, int)>, DecodeError>(None) && final(self).offset()
                    == old(self).offset() && final(self).remaining() == old(self).remaining(),
                Err(e) => next_entry(old(self).bytes(), old(self).offset(), old(self).remaining())
                    == Err::<Option<(WireEntry, int)>, DecodeError>(e) && final(self).offset()
                    == old(self).offset() && final(self).remaining() == old(self).remaining(),
            },
    {
        proof {
            use_type_invariant(&*self);
        }
        if self.remaining == 0 {
            if self.pos == self.buf.len() {
                return Ok(None);
            }
            return Err(DecodeError::TrailingData);
        }
        let key_len = match self.read_word(self.pos) {
            Some(n) => n,
            None => return Err(DecodeError::Truncated),
        };
        if key_len < 0 {
            return Err(DecodeError::MalformedKeyLength);
        }
        let (key, mid) = match self.read_text(self.pos + 4, key_len) {
            Ok(read) => read,
            Err(e) => return Err(e),
        };
        let value_len = match self.read_word(mid) {
            Some(n) => n,
            None => return Err(DecodeError::Truncated),
        };
        let (value, end) = if value_len == -1 {
            (None, mid + 4)
        } else if value_len < 0 {
            return Err(DecodeError::MalformedValueLength);
        } else {
            match self.read_text(mid + 4, value_len) {
                Ok((v, end)) => (Some(v), end),
                Err(e) => return Err(e),
            }
        };
        self.pos = end;
        self.remaining = self.remaining - 1;
        Ok(Some((key, value)))
    }
}

/// Decodes a wire buffer into a container. Entries are taken in wire order, a
/// later entry replaces an earlier one with the same key, and `NULL` entries
/// are dropped. On any error nothing is returned but the error.
pub fn decode(bytes: &[u8]) -> (r: Result<Hstore, DecodeError>)
    ensures
        match r {
            Ok(h) => decode_spec(bytes@) == Ok::<Map<Seq<char>, Seq<char>>, DecodeError>(h@),
            Err(e) => decode_spec(bytes@) == Err::<Map<Seq<char>, Seq<char>>, DecodeError>(e),
        },
{
    let mut cursor = match Entries::new(bytes) {
        Ok(c) => c,
        Err(e) => return Err(e),
    };
    let mut h = Hstore::new();
    let ghost total = cursor.remaining();
    let ghost done: Seq<WireEntry> = Seq::empty();
    loop
        invariant
            cursor.bytes() == bytes@,
            parse_count(bytes@) == Ok::<nat, DecodeError>(total),
            cursor.remaining() <= total,
            parse_entries(bytes@, 4, (total - cursor.remaining()) as nat) == Ok::<
                (Seq<WireEntry>, int),
                DecodeError,
            >((done, cursor.offset())),
            h@ == wire_map(done),
        decreases cursor.remaining(),
    {
        let ghost read = (total - cursor.remaining()) as nat;
        match cursor.next() {
            Ok(None) => {
                return Ok(h);
            },
            Ok(Some((key, value))) => {
                proof {
                    let e: WireEntry = (key@, opt_view(value));
                    assert(parse_entries(bytes@, 4, (read + 1) as nat) == Ok::<
                        (Seq<WireEntry>, int),
                        DecodeError,
                    >((done.push(e), cursor.offset())));
                    assert(done.push(e).drop_last() =~= done);
                    done = done.push(e);
                }
                match value {
                    Some(v) => {
                        h.insert(key, v);
                    },
                    None => {},
                }
            },
            Err(e) => {
                proof {
                    if cursor.remaining() > 0 {
                        assert(parse_entries(bytes@, 4, (read + 1) as nat) is Err);
                        lemma_error_stays(bytes@, 4, (read + 1) as nat, total);
                    }
                }
                return Err(e);
            },
        }
    }
}

/// Decodes what a column held: its bytes, or nothing where it was SQL `NULL`.
pub fn decode_nullable(bytes: Option<&[u8]>) -> (r: Result<Hstore, DecodeError>)
    ensures
        match bytes {
            None => r == Err::<Hstore, DecodeError>(DecodeError::UnexpectedNull),
            Some(b) => match r {
                Ok(h) => decode_spec(b@) == Ok::<Map<Seq<char>, Seq<char>>, DecodeError>(h@),
                Err(e) => decode_spec(b@) == Err::<Map<Seq<char>, Seq<char>>, DecodeError>(e),
            },
        },
{
    match bytes {
        None => Err(DecodeError::UnexpectedNull),
        Some(b) => decode(b),
    }
}

/// Whether the UTF-8 encoding of `t` has a length that a 32-bit length field
/// can announce.
pub open spec fn fits(t: Seq<char>) -> bool {
    encode_utf8(t).len() <= i32::MAX
}

/// Whether the wire format can hold `es`: the count and every length must
/// fit a signed 32-bit field.
pub open spec fn encodable(es: Seq<Pair>) -> bool {
    &&& es.len() <= i32::MAX
    &&& forall|i: int| 0 <= i < es.len() ==> fits((#[trigger] es[i]).0) && fits(es[i].1)
}

/// A text on the wire: the length of its UTF-8 encoding, then the encoding.
pub open spec fn field_bytes(t: Seq<char>) -> Seq<u8> {
    be_bytes(encode_utf8(t).len() as int) + encode_utf8(t)
}

/// An entry on the wire: its key, then its value.
pub open spec fn pair_bytes(p: Pair) -> Seq<u8> {
    field_bytes(p.0) + field_bytes(p.1)
}

/// Entries on the wire, one after the other.
pub open spec fn pairs_bytes(es: Seq<Pair>) -> Seq<u8>
    decreases es.len(),
{
    if es.len() == 0 {
        Seq::empty()
    } else {
        pairs_bytes(es.drop_last()) + pair_bytes(es.last())
    }
}

/// A whole value on the wire: the entry count, then the entries.
pub open spec fn wire_bytes(es: Seq<Pair>) -> Seq<u8> {
    be_bytes(es.len() as int) + pairs_bytes(es)
}

/// Entries as the wire shows them when every value is present.
pub open spec fn all_present(es: Seq<Pair>) -> Seq<WireEntry> {
    es.map_values(|p: Pair| (p.0, Some(p.1)))
}

/// Appends the big-endian bytes of `n`.
fn put_word(out: &mut Vec<u8>, n: i32)
    ensures
        final(out)@ == old(out)@ + be_bytes(n as int),
{
    let word = be_i32_word(n);
    out.push(word[0]);
    out.push(word[1]);
    out.push(word[2]);
    out.push(word[3]);
    assert(out@ =~= old(out)@ + be_bytes(n as int));
}

/// Appends `s` as a length-prefixed field, unless it is too long for one.
fn put_text(out: &mut Vec<u8>, s: &str) -> (ok: bool)
    ensures
        ok == fits(s@),
        ok ==> final(out)@ == old(out)@ + field_bytes(s@),
{
    let raw = s.as_bytes();
    if raw.len() > 0x7fff_ffff {
        return false;
    }
    put_word(out, raw.len() as i32);
    out.extend_from_slice(raw);
    assert(out@ =~= old(out)@ + field_bytes(s@));
    true
}

/// Encodes a container for the wire, entry by entry in the container's own
/// order. Returns `None` where the count or a length does not fit a signed
/// 32-bit field, and only there.
pub fn encode(h: &Hstore) -> (r: Option<Vec<u8>>)
    ensures
        match r {
            Some(out) => encodable(h.entries()) && out@ == wire_bytes(h.entries()),
            None => !encodable(h.entries()),
        },
{
    let items = h.as_slice();
    let ghost es = h.entries();
    if items.len() > 0x7fff_ffff {
        return None;
    }
    let mut out = Vec::new();
    put_word(&mut out, items.len() as i32);
    let mut i: usize = 0;
    while i < items.len()
        invariant
            i <= items@.len(),
            es == h.entries(),
            es == pair_views(items@),
            es.len() <= i32::MAX,
            encodable(es.take(i as int)),
            out@ == be_bytes(es.len() as int) + pairs_bytes(es.take(i as int)),
        decreases items@.len() - i,
    {
        assert(es[i as int] == (items@[i as int].0@, items@[i as int].1@));
        if !put_text(&mut out, items[i].0.as_str()) {
            assert(!fits(es[i as int].0));
            return None;
        }
        if !put_text(&mut out, items[i].1.as_str()) {
            assert(!fits(es[i as int].1));
            return None;
        }
        proof {
            let next = es.take(i + 1);
            assert(next.drop_last() =~= es.take(i as int));
            assert(next.last() == es[i as int]);
            assert(out@ =~= be_bytes(es.len() as int) + pairs_bytes(next));
            assert forall|j: int| 0 <= j < next.len() implies fits((#[trigger] next[j]).0) && fits(
                next[j].1,
            ) by {
                if j < i {
                    assert(next[j] == es.take(i as int)[j]);
                }
            }
        }
        i += 1;
    }
    assert(es.take(i as int) =~= es);
    Some(out)
}

/// A field that stands at `pos` of `b` is read back as its text.
pub proof fn lemma_parse_field(b: Seq<u8>, pos: int, t: Seq<char>)
    requires
        fits(t),
        0 <= pos,
        pos + field_bytes(t).len() <= b.len(),
        b.subrange(pos, pos + field_bytes(t).len()) == field_bytes(t),
    ensures
        field_bytes(t).len() == 4 + encode_utf8(t).len(),
        word_at(b, pos) == encode_utf8(t).len(),
        parse_text(b, pos + 4, encode_utf8(t).len() as int) == Ok::<(Seq<char>, int), DecodeError>(
            (t, pos + field_bytes(t).len()),
        ),
{
    let n = encode_utf8(t).len() as int;
    lemma_be_roundtrip(n);
    let field = b.subrange(pos, pos + field_bytes(t).len());
    assert(b.subrange(pos, pos + 4) =~= field.subrange(0, 4));
    assert(field.subrange(0, 4) =~= be_bytes(n));
    assert(b.subrange(pos + 4, pos + 4 + n) =~= field.subrange(4, 4 + n));
    assert(field.subrange(4, 4 + n) =~= encode_utf8(t));
    encode_utf8_valid_utf8(t);
    encode_utf8_decode_utf8(t);
}

/// An entry that stands at `pos` of `b` is read back as it was written, its
/// value present.
pub proof fn lemma_parse_pair(b: Seq<u8>, pos: int, p: Pair)
    requires
        fits(p.0),
        fits(p.1),
        0 <= pos,
        pos + pair_bytes(p).len() <= b.len(),
        b.subrange(pos, pos + pair_bytes(p).len()) == pair_bytes(p),
    ensures
        parse_entry(b, pos) == Ok::<(WireEntry, int), DecodeError>(
            ((p.0, Some(p.1)), pos + pair_bytes(p).len()),
        ),
{
    let whole = pair_bytes(p);
    let key_len = field_bytes(p.0).len() as int;
    let value_len = field_bytes(p.1).len() as int;
    assert(whole.len() == key_len + value_len);
    assert(b.subrange(pos, pos + key_len) == field_bytes(p.0)) by {
        assert(b.subrange(pos, pos + key_len) =~= whole.subrange(0, key_len));
        assert(whole.subrange(0, key_len) =~= field_bytes(p.0));
    }
    assert(b.subrange(pos + key_len, pos + key_len + value_len) == field_bytes(p.1)) by {
        assert(b.subrange(pos + key_len, pos + key_len + value_len) =~= whole.subrange(
            key_len,
            key_len + value_len,
        ));
        assert(whole.subrange(key_len, key_len + value_len) =~= field_bytes(p.1));
    }
    lemma_parse_field(b, pos, p.0);
    lemma_parse_field(b, pos + key_len, p.1);
    assert(parse_key(b, pos) == Ok::<(Seq<char>, int), DecodeError>((p.0, pos + key_len)));
    assert(parse_value(b, pos + key_len) == Ok::<(Option<Seq<char>>, int), DecodeError>(
        (Some(p.1), pos + key_len + value_len),
    ));
}

/// Entries that stand at `start` of `b` are read back as they were written,
/// every value present.
pub proof fn lemma_parse_pairs(b: Seq<u8>, start: int, es: Seq<Pair>)
    requires
        encodable(es),
        0 <= start,
        start + pairs_bytes(es).len() <= b.len(),
        b.subrange(start, start + pairs_bytes(es).len()) == pairs_bytes(es),
    ensures
        parse_entries(b, start, es.len()) == Ok::<(Seq<WireEntry>, int), DecodeError>(
            (all_present(es), start + pairs_bytes(es).len()),
        ),
    decreases es.len(),
{
    if es.len() == 0 {
        assert(all_present(es) =~= Seq::<WireEntry>::empty());
    } else {
        let init = es.drop_last();
        let last = es.last();
        let whole = pairs_bytes(es);
        let head = pairs_bytes(init).len() as int;
        let mid = start + head;
        assert(whole.len() == head + pair_bytes(last).len());
        assert(b.subrange(start, mid) == pairs_bytes(init)) by {
            assert(b.subrange(start, mid) =~= whole.subrange(0, head));
            assert(whole.subrange(0, head) =~= pairs_bytes(init));
        }
        assert(b.subrange(mid, mid + pair_bytes(last).len()) == pair_bytes(last)) by {
            assert(b.subrange(mid, mid + pair_bytes(last).len()) =~= whole.subrange(
                head,
                head + pair_bytes(last).len(),
            ));
            assert(whole.subrange(head, head + pair_bytes(last).len()) =~= pair_bytes(last));
        }
        assert(encodable(init)) by {
            assert forall|i: int| 0 <= i < init.len() implies fits((#[trigger] init[i]).0) && fits(
                init[i].1,
            ) by {
                assert(init[i] == es[i]);
            }
        }
        assert(fits(last.0) && fits(last.1)) by {
            assert(last == es[es.len() - 1]);
        }
        lemma_parse_pairs(b, start, init);
        lemma_parse_pair(b, mid, last);
        assert(all_present(es) == all_present(init).push((last.0, Some(last.1)))) by {
            assert(all_present(es) =~= all_present(init).push((last.0, Some(last.1))));
        }
        assert(parse_entries(b, start, (es.len() - 1) as nat) == Ok::<
            (Seq<WireEntry>, int),
            DecodeError,
        >((all_present(init), mid)));
    }
}

/// With every value present, the map of the wire entries is the map of the
/// entries.
pub proof fn lemma_all_present_map(es: Seq<Pair>)
    ensures
        wire_map(all_present(es)) == pairs_to_map(es),
    decreases es.len(),
{
    if es.len() > 0 {
        lemma_all_present_map(es.drop_last());
        assert(all_present(es).drop_last() =~= all_present(es.drop_last()));
    }
}

/// A key is in the decoded map exactly if some wire entry holds it with a
/// present value.
pub proof fn lemma_wire_map_keys(es: Seq<WireEntry>, k: Seq<char>)
    ensures
        wire_map(es).contains_key(k) <==> exists|j: int|
            0 <= j < es.len() && (#[trigger] es[j]).0 == k && es[j].1 is Some,
    decreases es.len(),
{
    if es.len() > 0 {
        let init = es.drop_last();
        lemma_wire_map_keys(init, k);
        if wire_map(init).contains_key(k) {
            let j = choose|j: int| 0 <= j < init.len() && (#[trigger] init[j]).0 == k && init[j].1 is Some;
            assert(es[j].0 == k && es[j].1 is Some);
        }
        if exists|j: int| 0 <= j < es.len() && (#[trigger] es[j]).0 == k && es[j].1 is Some {
            let j = choose|j: int| 0 <= j < es.len() && (#[trigger] es[j]).0 == k && es[j].1 is Some;
            if j < es.len() - 1 {
                assert(init[j].0 == k && init[j].1 is Some);
            }
        }
        if es.last().0 == k && es.last().1 is Some {
            assert(es[es.len() - 1].0 == k);
        }
    }
}

/// Round trip: what `encode` writes for a container, `decode` reads back as
/// the same map, whatever the order of the entries.
pub proof fn law_round_trip(c: Hstore)
    requires
        encodable(c.entries()),
    ensures
        decode_spec(wire_bytes(c.entries())) == Ok::<Map<Seq<char>, Seq<char>>, DecodeError>(c@),
{
    let es = c.entries();
    let b = wire_bytes(es);
    lemma_be_roundtrip(es.len() as int);
    assert(b.subrange(0, 4) =~= be_bytes(es.len() as int));
    assert(b.subrange(4, 4 + pairs_bytes(es).len() as int) =~= pairs_bytes(es));
    lemma_parse_pairs(b, 4, es);
    lemma_all_present_map(es);
}

/// `NULL` entries are dropped: a key that the wire shows with `NULL` only is
/// not in the decoded map.
pub proof fn law_null_dropped(b: Seq<u8>, i: int)
    requires
        parse_wire(b) is Ok,
        0 <= i < parse_wire(b)->Ok_0.len(),
        forall|j: int|
            0 <= j < parse_wire(b)->Ok_0.len() && (#[trigger] parse_wire(b)->Ok_0[j]).0
                == parse_wire(b)->Ok_0[i].0 ==> parse_wire(b)->Ok_0[j].1 is None,
    ensures
        decode_spec(b) is Ok,
        !decode_spec(b)->Ok_0.contains_key(parse_wire(b)->Ok_0[i].0),
{
    let es = parse_wire(b)->Ok_0;
    lemma_wire_map_keys(es, es[i].0);
}

/// A count that announces more entries than the buffer holds is an error,
/// not a shorter result.
pub proof fn law_count_mismatch(es: Seq<Pair>, count: int)
    requires
        encodable(es),
        es.len() < count <= i32::MAX,
    ensures
        decode_spec(be_bytes(count) + pairs_bytes(es)) == Err::<
            Map<Seq<char>, Seq<char>>,
            DecodeError,
        >(DecodeError::Truncated),
{
    let b = be_bytes(count) + pairs_bytes(es);
    lemma_be_roundtrip(count);
    assert(b.subrange(0, 4) =~= be_bytes(count));
    assert(b.subrange(4, 4 + pairs_bytes(es).len() as int) =~= pairs_bytes(es));
    lemma_parse_pairs(b, 4, es);
    assert(parse_entries(b, 4, (es.len() + 1) as nat) is Err);
    lemma_error_stays(b, 4, (es.len() + 1) as nat, count as nat);
}

/// A negative key length is rejected as such, whatever follows it.
pub proof fn law_negative_key_length(es: Seq<Pair>, count: int, len: int, tail: Seq<u8>)
    requires
        encodable(es),
        es.len() < count <= i32::MAX,
        i32::MIN <= len < 0,
    ensures
        decode_spec(be_bytes(count) + pairs_bytes(es) + be_bytes(len) + tail) == Err::<
            Map<Seq<char>, Seq<char>>,
            DecodeError,
        >(DecodeError::MalformedKeyLength),
{
    let b = be_bytes(count) + pairs_bytes(es) + be_bytes(len) + tail;
    let mid: int = 4 + pairs_bytes(es).len() as int;
    lemma_be_roundtrip(count);
    lemma_be_roundtrip(len);
    assert(b.subrange(0, 4) =~= be_bytes(count));
    assert(b.subrange(4, mid) =~= pairs_bytes(es));
    assert(b.subrange(mid, mid + 4) =~= be_bytes(len));
    lemma_parse_pairs(b, 4, es);
    assert(parse_entries(b, 4, (es.len() + 1) as nat) is Err);
    lemma_error_stays(b, 4, (es.len() + 1) as nat, count as nat);
}

} // verus!
