//! Reading text out of a gap buffer.
//!
//! The host editor stores buffer text in one allocation with a movable
//! hole (the gap) inside it. Byte positions are 1-based; a position at or
//! past the gap position is shifted by the gap size. The reader copies a
//! byte range into a caller-owned buffer, joining the two sides of the
//! gap, and widens unibyte text to two-byte UTF-8 where a byte is 0x80
//! or above.

use vstd::prelude::*;

verus! {

/// The text region of a host buffer, with its gap, as plain bytes.
pub struct GapBufferText {
    /// The backing store, gap included.
    pub data: Vec<u8>,
    /// 1-based byte position of the gap.
    pub gpt_byte: usize,
    /// Size of the gap in bytes.
    pub gap_size: usize,
    /// Multibyte buffers hold UTF-8; unibyte buffers hold raw bytes.
    pub multibyte: bool,
}

impl GapBufferText {
    /// The gap lies inside the backing store.
    pub open spec fn wf(&self) -> bool {
        &&& 1 <= self.gpt_byte
        &&& self.gpt_byte - 1 + self.gap_size <= self.data@.len()
    }

    /// 1-based byte position just past the last text byte.
    pub open spec fn spec_z_byte(&self) -> int {
        self.data@.len() - self.gap_size + 1
    }

    /// The logical text: everything before the gap, then everything
    /// after it.
    pub open spec fn spec_content(&self) -> Seq<u8> {
        self.data@.subrange(0, self.gpt_byte - 1) + self.data@.subrange(
            self.gpt_byte - 1 + self.gap_size,
            self.data@.len() as int,
        )
    }

    /// The byte at 1-based position `p`: positions before the gap read
    /// directly, later ones are shifted past the gap.
    pub open spec fn spec_byte_at(&self, p: int) -> u8 {
        if p < self.gpt_byte {
            self.data@[p - 1]
        } else {
            self.data@[p - 1 + self.gap_size]
        }
    }

    /// The byte at position `p` is the `p - 1`th logical byte.
    pub proof fn lemma_byte_at_is_content(&self, p: int)
        requires
            self.wf(),
            1 <= p < self.spec_z_byte(),
        ensures
            self.spec_byte_at(p) == self.spec_content()[p - 1],
    {
    }

    /// Construct a gap buffer text region; the gap must lie inside the
    /// backing store.
    pub fn new(data: Vec<u8>, gpt_byte: usize, gap_size: usize, multibyte: bool) -> (r:
        GapBufferText)
        requires
            1 <= gpt_byte,
            gpt_byte - 1 + gap_size <= data@.len(),
        ensures
            r.wf(),
            r.data == data,
            r.gpt_byte == gpt_byte,
            r.gap_size == gap_size,
            r.multibyte == multibyte,
    {
        GapBufferText { data, gpt_byte, gap_size, multibyte }
    }

    /// Number of text bytes (the backing store minus the gap).
    pub fn text_bytes(&self) -> (r: usize)
        requires
            self.wf(),
        ensures
            r == self.spec_content().len(),
            r == self.spec_z_byte() - 1,
    {
        self.data.len() - self.gap_size
    }
}

/// The UTF-8 widening of one unibyte byte: ASCII stays itself, a byte at
/// 0x80 or above becomes the two-byte encoding of that codepoint.
pub open spec fn spec_widen_byte(b: u8) -> Seq<u8> {
    if b < 0x80 {
        seq![b]
    } else {
        seq![(0xC0 | (b >> 6)) as u8, (0x80 | (b & 0x3F)) as u8]
    }
}

/// The UTF-8 widening of a whole unibyte sequence.
pub open spec fn spec_widen_seq(s: Seq<u8>) -> Seq<u8>
    decreases s.len(),
{
    if s.len() == 0 {
        Seq::empty()
    } else {
        spec_widen_byte(s[0]) + spec_widen_seq(s.drop_first())
    }
}

/// A widened sequence is at least as long as its source and at most
/// twice as long.
pub proof fn lemma_widen_len(s: Seq<u8>)
    ensures
        s.len() <= spec_widen_seq(s).len() <= 2 * s.len(),
    decreases s.len(),
{
    if s.len() > 0 {
        lemma_widen_len(s.drop_first());
    }
}

/// Widening splits over concatenation.
pub proof fn lemma_widen_concat(a: Seq<u8>, b: Seq<u8>)
    ensures
        spec_widen_seq(a + b) == spec_widen_seq(a) + spec_widen_seq(b),
    decreases a.len(),
{
    if a.len() == 0 {
        assert(a + b =~= b);
        assert(spec_widen_seq(a) =~= Seq::<u8>::empty());
        assert(spec_widen_seq(a) + spec_widen_seq(b) =~= spec_widen_seq(b));
    } else {
        assert((a + b).drop_first() =~= a.drop_first() + b);
        lemma_widen_concat(a.drop_first(), b);
        assert(spec_widen_seq(a + b) =~= spec_widen_seq(a) + spec_widen_seq(b));
    }
}

/// The bytes that copying the 1-based range `[byte_from, byte_to)` out of
/// `text` must produce: the raw logical bytes for a multibyte buffer, the
/// widened bytes for a unibyte one; nothing when the range is empty.
pub open spec fn spec_copy_range(text: &GapBufferText, byte_from: int, byte_to: int) -> Seq<u8> {
    if byte_from >= byte_to {
        Seq::empty()
    } else {
        let raw = text.spec_content().subrange(byte_from - 1, byte_to - 1);
        if text.multibyte {
            raw
        } else {
            spec_widen_seq(raw)
        }
    }
}

/// Append the text bytes of the 1-based range `[byte_from, byte_to)` to
/// `out`, joining the two sides of the gap; a unibyte buffer's bytes at
/// 0x80 and above are widened to two-byte UTF-8. An empty or inverted
/// range appends nothing.
pub fn copy_text(text: &GapBufferText, byte_from: usize, byte_to: usize, out: &mut Vec<u8>)
    requires
        text.wf(),
        byte_from < byte_to ==> 1 <= byte_from && byte_to <= text.spec_z_byte(),
        old(out)@.len() + spec_copy_range(text, byte_from as int, byte_to as int).len()
            <= usize::MAX,
    ensures
        final(out)@ == old(out)@ + spec_copy_range(text, byte_from as int, byte_to as int),
{
    if byte_from >= byte_to {
        proof {
            assert(old(out)@ + spec_copy_range(text, byte_from as int, byte_to as int) =~= old(
                out,
            )@);
        }
        return ;
    }
    let ghost raw = text.spec_content().subrange(byte_from as int - 1, byte_to as int - 1);
    let mut p = byte_from;
    while p < byte_to
        invariant
            text.wf(),
            1 <= byte_from <= p <= byte_to <= text.spec_z_byte(),
            raw == text.spec_content().subrange(byte_from as int - 1, byte_to as int - 1),
            out@ == old(out)@ + (if text.multibyte {
                raw.subrange(0, p - byte_from)
            } else {
                spec_widen_seq(raw.subrange(0, p - byte_from))
            }),
            out@.len() <= old(out)@.len() + spec_copy_range(
                text,
                byte_from as int,
                byte_to as int,
            ).len(),
        decreases byte_to - p,
    {
        let dlen = text.data.len();
        proof {
            assert(p - 1 + text.gap_size < dlen);
        }
        let b: u8 = if p < text.gpt_byte {
            text.data[p - 1]
        } else {
            text.data[p - 1 + text.gap_size]
        };
        proof {
            text.lemma_byte_at_is_content(p as int);
            assert(b == raw[p - byte_from]);
            let done = raw.subrange(0, p - byte_from);
            let next = raw.subrange(0, p + 1 - byte_from);
            assert(next =~= done + seq![b]);
            lemma_widen_concat(done, seq![b]);
            assert(spec_widen_seq(seq![b]) =~= spec_widen_byte(b)) by {
                assert(seq![b].drop_first() =~= Seq::<u8>::empty());
                assert(spec_widen_seq(Seq::<u8>::empty()) =~= Seq::<u8>::empty());
            }
            if !text.multibyte {
                // The copied prefix never outgrows the full widened range.
                assert(raw =~= next + raw.subrange(p + 1 - byte_from, raw.len() as int));
                lemma_widen_concat(next, raw.subrange(p + 1 - byte_from, raw.len() as int));
            }
        }
        if text.multibyte {
            out.push(b);
        } else {
            if b < 0x80 {
                out.push(b);
            } else {
                out.push(0xC0 | (b >> 6u32));
                out.push(0x80 | (b & 0x3F));
            }
        }
        p = p + 1;
    }
    proof {
        assert(raw.subrange(0, byte_to - byte_from) =~= raw);
    }
}

/// Copying the whole byte range of a multibyte buffer yields exactly its
/// logical content.
pub proof fn lemma_copy_whole_buffer(text: &GapBufferText)
    requires
        text.wf(),
        text.multibyte,
    ensures
        spec_copy_range(text, 1, text.spec_z_byte()) == text.spec_content(),
{
    if 1 < text.spec_z_byte() {
        assert(text.spec_content().subrange(0, text.spec_z_byte() - 1) =~= text.spec_content());
    } else {
        assert(text.spec_content() =~= Seq::<u8>::empty());
    }
}

} // verus!
