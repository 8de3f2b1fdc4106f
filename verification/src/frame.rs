//! The frame buffer: a width x height grid of optional object ids with an
//! optional depth plane, and its binary format.
//!
//! The binary layout is little-endian: a 32-bit width, a 32-bit height, a
//! 32-bit flag that is one exactly when depths follow, then one 32-bit word
//! per pixel id (the all-ones word encodes the empty pixel), then, when the
//! flag is one, one 32-bit depth word per pixel. Depth words are carried
//! opaquely: whatever 32-bit encoding the producer of the frame uses is
//! reproduced bit for bit.

use vstd::prelude::*;

use crate::error::Error;

verus! {

/// A rendered frame: per-pixel optional object ids, and optionally a
/// per-pixel 32-bit depth word.
#[derive(Clone)]
pub struct Frame {
    /// The width of the frame in pixels.
    pub width: usize,
    /// The height of the frame in pixels.
    pub height: usize,
    /// The id-buffer contains per pixel ids, row-major.
    pub id_buffer: Vec<Option<u32>>,
    /// The depth buffer contains the per pixel depth words. It is optional.
    pub depth_buffer: Option<Vec<u32>>,
}

/// The four little-endian bytes of a 32-bit word.
pub open spec fn u32_le(v: u32) -> Seq<u8> {
    seq![
        (v & 0xff) as u8,
        ((v >> 8) & 0xff) as u8,
        ((v >> 16) & 0xff) as u8,
        ((v >> 24) & 0xff) as u8,
    ]
}

/// The 32-bit word read from four little-endian bytes.
pub open spec fn u32_from_le(b0: u8, b1: u8, b2: u8, b3: u8) -> u32 {
    (b0 as u32) | ((b1 as u32) << 8) | ((b2 as u32) << 16) | ((b3 as u32) << 24)
}

/// The word that encodes a pixel id; the all-ones word stands for empty.
pub open spec fn id_word(id: Option<u32>) -> u32 {
    match id {
        Some(v) => v,
        None => u32::MAX,
    }
}

/// The pixel id encoded by a word; the all-ones word stands for empty.
pub open spec fn word_to_id(v: u32) -> Option<u32> {
    if v == u32::MAX {
        None
    } else {
        Some(v)
    }
}

/// The little-endian bytes of a sequence of 32-bit words.
pub open spec fn enc_words(ws: Seq<u32>) -> Seq<u8>
    decreases ws.len(),
{
    if ws.len() == 0 {
        Seq::empty()
    } else {
        enc_words(ws.drop_last()) + u32_le(ws.last())
    }
}

/// The id words of a pixel id buffer.
pub open spec fn id_words(ids: Seq<Option<u32>>) -> Seq<u32> {
    Seq::new(ids.len(), |i: int| id_word(ids[i]))
}

/// The binary encoding of a frame.
pub open spec fn spec_encode(f: Frame) -> Seq<u8> {
    u32_le(f.width as u32) + u32_le(f.height as u32) + u32_le(spec_has_depth(f)) + enc_words(
        id_words(f.id_buffer@),
    ) + match f.depth_buffer {
        Some(d) => enc_words(d@),
        None => Seq::empty(),
    }
}

/// One exactly when the frame carries a depth plane.
pub open spec fn spec_has_depth(f: Frame) -> u32 {
    if f.depth_buffer is Some {
        1
    } else {
        0
    }
}

/// The width word of an encoded frame.
pub open spec fn dec_width(b: Seq<u8>) -> int {
    u32_from_le(b[0], b[1], b[2], b[3]) as int
}

/// The height word of an encoded frame.
pub open spec fn dec_height(b: Seq<u8>) -> int {
    u32_from_le(b[4], b[5], b[6], b[7]) as int
}

/// The depth flag word of an encoded frame.
pub open spec fn dec_has_depth(b: Seq<u8>) -> int {
    u32_from_le(b[8], b[9], b[10], b[11]) as int
}

/// The word starting at byte offset `o`.
pub open spec fn dec_word_at(b: Seq<u8>, o: int) -> u32 {
    u32_from_le(b[o], b[o + 1], b[o + 2], b[o + 3])
}

/// The pixel count of an encoded frame.
pub open spec fn dec_pixel_count(b: Seq<u8>) -> int {
    dec_width(b) * dec_height(b)
}

/// Whether a byte sequence begins with a complete encoded frame: twelve
/// header bytes, then one word per pixel id, then, when the depth flag is
/// one, one word per pixel depth. Trailing bytes are ignored.
pub open spec fn parse_ok(b: Seq<u8>) -> bool {
    &&& b.len() >= 12
    &&& b.len() >= 12 + 4 * dec_pixel_count(b) + if dec_has_depth(b) == 1 {
        4 * dec_pixel_count(b)
    } else {
        0int
    }
}

/// The decoded id buffer of an encoded frame.
pub open spec fn dec_ids(b: Seq<u8>) -> Seq<Option<u32>> {
    Seq::new(dec_pixel_count(b) as nat, |i: int| word_to_id(dec_word_at(b, 12 + 4 * i)))
}

/// The decoded depth buffer of an encoded frame with the depth flag set.
pub open spec fn dec_depths(b: Seq<u8>) -> Seq<u32> {
    Seq::new(
        dec_pixel_count(b) as nat,
        |i: int| dec_word_at(b, 12 + 4 * dec_pixel_count(b) + 4 * i),
    )
}

impl Frame {
    /// Well-formedness: the buffers cover the pixel grid, the dimensions fit
    /// their 32-bit encoding, and no pixel carries the id word reserved for
    /// the empty pixel.
    pub open spec fn wf(self) -> bool {
        &&& self.width <= u32::MAX
        &&& self.height <= u32::MAX
        &&& self.id_buffer@.len() == self.width * self.height
        &&& (self.depth_buffer matches Some(d) ==> d@.len() == self.width * self.height)
        &&& forall|i: int|
            0 <= i < self.id_buffer@.len() ==> (#[trigger] self.id_buffer@[i]) != Some(u32::MAX)
    }

    /// Creates a new empty frame with the given width and height: every pixel
    /// id empty and, when requested, every depth word zero.
    ///
    /// # Arguments
    /// * `width` - The width of the frame.
    /// * `height` - The height of the frame.
    /// * `with_depths` - If true, the frame will contain a depth buffer.
    pub fn new_empty(width: usize, height: usize, with_depths: bool) -> (r: Self)
        requires
            width <= u32::MAX,
            height <= u32::MAX,
            width * height <= usize::MAX,
        ensures
            r.wf(),
            r.width == width,
            r.height == height,
            forall|i: int| 0 <= i < r.id_buffer@.len() ==> (#[trigger] r.id_buffer@[i]) is None,
            r.depth_buffer is Some <==> with_depths,
            r.depth_buffer matches Some(d) ==> forall|i: int|
                0 <= i < d@.len() ==> (#[trigger] d@[i]) == 0,
    {
        let count = width * height;
        let id_buffer: Vec<Option<u32>> = vec![None; count];
        let depth_buffer: Option<Vec<u32>> = if with_depths {
            Some(vec![0u32; count])
        } else {
            None
        };
        Self { width, height, id_buffer, depth_buffer }
    }

    /// Returns the width of the frame.
    #[inline]
    pub fn get_width(&self) -> (r: usize)
        ensures
            r == self.width,
    {
        self.width
    }

    /// Returns the height of the frame.
    #[inline]
    pub fn get_height(&self) -> (r: usize)
        ensures
            r == self.height,
    {
        self.height
    }

    /// Returns the id-buffer of the frame, i.e., the buffer containing a per
    /// pixel id.
    #[inline]
    pub fn get_id_buffer(&self) -> (r: &Vec<Option<u32>>)
        ensures
            r == &self.id_buffer,
    {
        &self.id_buffer
    }

    /// Replaces the id-buffer of the frame.
    ///
    /// # Arguments
    /// * `ids` - The new id values, one per pixel, none of them the reserved
    ///   all-ones id.
    pub fn set_id_buffer(&mut self, ids: Vec<Option<u32>>)
        requires
            ids@.len() == old(self).width * old(self).height,
            forall|i: int| 0 <= i < ids@.len() ==> (#[trigger] ids@[i]) != Some(u32::MAX),
        ensures
            *final(self) == (Frame { id_buffer: ids, ..*old(self) }),
    {
        self.id_buffer = ids;
    }

    /// Returns the depth-buffer of the frame, i.e., the buffer containing a
    /// per pixel depth word.
    #[inline]
    pub fn get_depth_buffer(&self) -> (r: Option<&Vec<u32>>)
        ensures
            match r {
                Some(d) => self.depth_buffer matches Some(dd) && d@ == dd@,
                None => self.depth_buffer is None,
            },
    {
        match &self.depth_buffer {
            Some(d) => Some(d),
            None => None,
        }
    }

    /// Replaces the depth-buffer of the frame.
    ///
    /// # Arguments
    /// * `depths` - The new depth words, one per pixel.
    pub fn set_depth_buffer(&mut self, depths: Vec<u32>)
        requires
            depths@.len() == old(self).width * old(self).height,
        ensures
            *final(self) == (Frame { depth_buffer: Some(depths), ..*old(self) }),
    {
        self.depth_buffer = Some(depths);
    }

    /// Writes the frame as binary data.
    pub fn write_binary(&self) -> (r: Vec<u8>)
        requires
            self.wf(),
        ensures
            r@ == spec_encode(*self),
    {
        let mut out: Vec<u8> = Vec::new();
        push_u32_le(&mut out, self.width as u32);
        push_u32_le(&mut out, self.height as u32);
        let has_depth: u32 = match &self.depth_buffer {
            Some(_) => 1,
            None => 0,
        };
        push_u32_le(&mut out, has_depth);

        let ghost header = u32_le(self.width as u32) + u32_le(self.height as u32) + u32_le(
            spec_has_depth(*self),
        );

        // Write the ids.
        let n = self.id_buffer.len();
        let mut i: usize = 0;
        while i < n
            invariant
                i <= n,
                n == self.id_buffer@.len(),
                out@ == header + enc_words(id_words(self.id_buffer@).take(i as int)),
            decreases n - i,
        {
            let word: u32 = match self.id_buffer[i] {
                Some(v) => v,
                None => u32::MAX,
            };
            push_u32_le(&mut out, word);
            proof {
                let ws = id_words(self.id_buffer@);
                assert(ws.take(i + 1).drop_last() =~= ws.take(i as int));
                assert(ws.take(i + 1).last() == word);
            }
            i = i + 1;
        }
        proof {
            assert(id_words(self.id_buffer@).take(n as int) =~= id_words(self.id_buffer@));
        }

        // Write the depths.
        match &self.depth_buffer {
            Some(depths) => {
                let m = depths.len();
                let ghost body = header + enc_words(id_words(self.id_buffer@));
                let mut i: usize = 0;
                while i < m
                    invariant
                        i <= m,
                        m == depths@.len(),
                        out@ == body + enc_words(depths@.take(i as int)),
                    decreases m - i,
                {
                    push_u32_le(&mut out, depths[i]);
                    proof {
                        assert(depths@.take(i + 1).drop_last() =~= depths@.take(i as int));
                    }
                    i = i + 1;
                }
                proof {
                    assert(depths@.take(m as int) =~= depths@);
                }
            },
            None => {},
        }
        out
    }

    /// Reads a frame from binary data. Returns a deserialization error
    /// exactly when the data does not begin with a complete encoded frame.
    pub fn read_binary(bytes: &Vec<u8>) -> (r: Result<Self, Error>)
        ensures
            r is Ok <==> parse_ok(bytes@),
            r matches Ok(f) ==> {
                &&& f.wf()
                &&& f.width as int == dec_width(bytes@)
                &&& f.height as int == dec_height(bytes@)
                &&& f.id_buffer@ == dec_ids(bytes@)
                &&& (f.depth_buffer is Some <==> dec_has_depth(bytes@) == 1)
                &&& (f.depth_buffer matches Some(d) ==> d@ == dec_depths(bytes@))
            },
            r matches Err(e) ==> e == Error::DeserializationError,
    {
        let blen = bytes.len();
        if blen < 12 {
            return Err(Error::DeserializationError);
        }
        let width32 = read_u32_le(bytes, 0);
        let height32 = read_u32_le(bytes, 4);
        let has_depth = read_u32_le(bytes, 8);

        let planes: u128 = if has_depth == 1 {
            2
        } else {
            1
        };
        let w128 = width32 as u128;
        let h128 = height32 as u128;
        proof {
            assert(w128 * h128 <= 0xffff_ffff * 0xffff_ffff) by (nonlinear_arith)
                requires
                    0 <= w128 <= 0xffff_ffff,
                    0 <= h128 <= 0xffff_ffff,
            ;
        }
        let wh: u128 = w128 * h128;
        proof {
            assert(4 * wh * planes <= 8 * 0xffff_ffff * 0xffff_ffff && 4 * wh <= 4 * wh * planes
                && wh <= 4 * wh) by (nonlinear_arith)
                requires
                    0 <= wh <= 0xffff_ffff * 0xffff_ffff,
                    1 <= planes <= 2,
            ;
        }
        let needed: u128 = 12 + 4 * wh * planes;
        proof {
            assert(dec_width(bytes@) == width32 as int && dec_height(bytes@) == height32 as int
                && dec_has_depth(bytes@) == has_depth as int);
            assert(wh as int == dec_pixel_count(bytes@));
            if has_depth == 1 {
                assert(4 * wh * planes == 4 * wh + 4 * wh) by (nonlinear_arith)
                    requires
                        planes == 2,
                        0 <= wh <= 0xffff_ffff * 0xffff_ffff,
                ;
            } else {
                assert(4 * wh * planes == 4 * wh) by (nonlinear_arith)
                    requires
                        planes == 1,
                        0 <= wh <= 0xffff_ffff * 0xffff_ffff,
                ;
            }
        }
        if (blen as u128) < needed {
            return Err(Error::DeserializationError);
        }
        let width = width32 as usize;
        let height = height32 as usize;
        let count: usize = width * height;

        // Read the ids.
        let mut id_buffer: Vec<Option<u32>> = Vec::new();
        let mut i: usize = 0;
        while i < count
            invariant
                i <= count,
                count == dec_pixel_count(bytes@),
                blen == bytes@.len(),
                12 + 4 * count <= blen,
                id_buffer@.len() == i,
                forall|k: int|
                    0 <= k < i ==> (#[trigger] id_buffer@[k]) == word_to_id(
                        dec_word_at(bytes@, 12 + 4 * k),
                    ),
            decreases count - i,
        {
            let word = read_u32_le(bytes, 12 + 4 * i);
            let id: Option<u32> = if word == u32::MAX {
                None
            } else {
                Some(word)
            };
            id_buffer.push(id);
            i = i + 1;
        }
        proof {
            assert(id_buffer@ =~= dec_ids(bytes@));
        }

        // Read the depths.
        let mut depth_buffer: Option<Vec<u32>> = None;
        if has_depth == 1 {
            let base: usize = 12 + 4 * count;
            let mut depths: Vec<u32> = Vec::new();
            let mut i: usize = 0;
            while i < count
                invariant
                    i <= count,
                    count == dec_pixel_count(bytes@),
                    blen == bytes@.len(),
                    base == 12 + 4 * count,
                    base + 4 * count <= blen,
                    depths@.len() == i,
                    forall|k: int|
                        0 <= k < i ==> (#[trigger] depths@[k]) == dec_word_at(
                            bytes@,
                            base + 4 * k,
                        ),
                decreases count - i,
            {
                let word = read_u32_le(bytes, base + 4 * i);
                depths.push(word);
                i = i + 1;
            }
            proof {
                assert(depths@ =~= dec_depths(bytes@));
            }
            depth_buffer = Some(depths);
        }

        Ok(Self { width, height, id_buffer, depth_buffer })
    }
}

/// Appends the four little-endian bytes of a word.
fn push_u32_le(out: &mut Vec<u8>, v: u32)
    ensures
        final(out)@ == old(out)@ + u32_le(v),
{
    out.push((v & 0xff) as u8);
    out.push(((v >> 8) & 0xff) as u8);
    out.push(((v >> 16) & 0xff) as u8);
    out.push(((v >> 24) & 0xff) as u8);
    proof {
        assert(final(out)@ =~= old(out)@ + u32_le(v));
    }
}

/// Reads the word whose four little-endian bytes start at the given offset.
fn read_u32_le(bytes: &Vec<u8>, offset: usize) -> (r: u32)
    requires
        offset + 4 <= bytes@.len(),
    ensures
        r == dec_word_at(bytes@, offset as int),
{
    let blen = bytes.len();
    let b0 = bytes[offset];
    let b1 = bytes[offset + 1];
    let b2 = bytes[offset + 2];
    let b3 = bytes[offset + 3];
    (b0 as u32) | ((b1 as u32) << 8) | ((b2 as u32) << 16) | ((b3 as u32) << 24)
}

/// A word survives the trip through its four little-endian bytes.
proof fn lemma_u32_le_round_trip(v: u32)
    ensures
        u32_from_le(u32_le(v)[0], u32_le(v)[1], u32_le(v)[2], u32_le(v)[3]) == v,
{
    let b0 = (v & 0xff) as u8;
    let b1 = ((v >> 8) & 0xff) as u8;
    let b2 = ((v >> 16) & 0xff) as u8;
    let b3 = ((v >> 24) & 0xff) as u8;
    assert((b0 as u32) | ((b1 as u32) << 8) | ((b2 as u32) << 16) | ((b3 as u32) << 24) == v)
        by (bit_vector)
        requires
            b0 == (v & 0xff) as u8,
            b1 == ((v >> 8) & 0xff) as u8,
            b2 == ((v >> 16) & 0xff) as u8,
            b3 == ((v >> 24) & 0xff) as u8,
    ;
}

/// The encoded words occupy four bytes each.
proof fn lemma_enc_words_len(ws: Seq<u32>)
    ensures
        enc_words(ws).len() == 4 * ws.len(),
    decreases ws.len(),
{
    if ws.len() > 0 {
        lemma_enc_words_len(ws.drop_last());
    }
}

/// The bytes of the `i`-th encoded word start at offset `4 * i`.
proof fn lemma_enc_words_index(ws: Seq<u32>, i: int, j: int)
    requires
        0 <= i < ws.len(),
        0 <= j < 4,
    ensures
        enc_words(ws)[4 * i + j] == u32_le(ws[i])[j],
    decreases ws.len(),
{
    lemma_enc_words_len(ws);
    lemma_enc_words_len(ws.drop_last());
    if i < ws.len() - 1 {
        lemma_enc_words_index(ws.drop_last(), i, j);
    }
}

/// A frame survives the trip through its binary encoding: decoding the
/// encoding of any well-formed frame yields the frame itself, field by field.
pub proof fn lemma_frame_round_trip(f: Frame)
    requires
        f.wf(),
    ensures
        parse_ok(spec_encode(f)),
        dec_width(spec_encode(f)) == f.width,
        dec_height(spec_encode(f)) == f.height,
        dec_has_depth(spec_encode(f)) == spec_has_depth(f),
        dec_ids(spec_encode(f)) == f.id_buffer@,
        f.depth_buffer matches Some(d) ==> dec_has_depth(spec_encode(f)) == 1 && dec_depths(
            spec_encode(f),
        ) == d@,
        f.depth_buffer is None ==> dec_has_depth(spec_encode(f)) != 1,
{
    let b = spec_encode(f);
    let ids = id_words(f.id_buffer@);
    let count = f.width * f.height;
    lemma_enc_words_len(ids);
    match f.depth_buffer {
        Some(d) => lemma_enc_words_len(d@),
        None => {},
    }

    lemma_u32_le_round_trip(f.width as u32);
    lemma_u32_le_round_trip(f.height as u32);
    lemma_u32_le_round_trip(spec_has_depth(f));
    assert(dec_width(b) == f.width);
    assert(dec_height(b) == f.height);
    assert(dec_has_depth(b) == spec_has_depth(f));

    assert forall|i: int| 0 <= i < count implies dec_ids(b)[i] == f.id_buffer@[i] by {
        assert forall|j: int| 0 <= j < 4 implies b[12 + 4 * i + j] == u32_le(ids[i])[j] by {
            lemma_enc_words_index(ids, i, j);
        }
        lemma_u32_le_round_trip(ids[i]);
        assert(dec_word_at(b, 12 + 4 * i) == ids[i]);
        assert(f.id_buffer@[i] != Some(u32::MAX));
        assert(word_to_id(id_word(f.id_buffer@[i])) == f.id_buffer@[i]);
    }
    assert(dec_ids(b) =~= f.id_buffer@);

    match f.depth_buffer {
        Some(d) => {
            assert forall|i: int| 0 <= i < count implies dec_depths(b)[i] == d@[i] by {
                assert forall|j: int| 0 <= j < 4 implies b[12 + 4 * count + 4 * i + j] == u32_le(
                    d@[i],
                )[j] by {
                    lemma_enc_words_index(d@, i, j);
                }
                lemma_u32_le_round_trip(d@[i]);
                assert(dec_word_at(b, 12 + 4 * count + 4 * i) == d@[i]);
            }
            assert(dec_depths(b) =~= d@);
        },
        None => {},
    }
}

} // verus!
