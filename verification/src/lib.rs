//! A disassembler for the CHIP-8 16-bit instruction set.
//!
//! A [`RomData`] cursor walks a program image two bytes at a time, turning
//! each big-endian instruction word into one aligned text line annotated
//! with the memory address the word was read from. Decoding is total: every
//! possible word renders to some line, with a fallback form for encodings
//! the instruction set leaves unassigned.

use vstd::prelude::*;

pub mod hex;
pub mod opcode;
pub mod render;

pub use crate::opcode::Opcode;
pub use crate::render::line_of;

verus! {

/// The big-endian 16-bit word formed from the two bytes of `data` at `i`.
pub open spec fn word_at(data: Seq<u8>, i: int) -> u16 {
    ((data[i] as u16) << 8) | (data[i + 1] as u16)
}

/// How many whole words remain from byte offset `counter` to the end of
/// `data`. A trailing odd byte is never part of a word.
pub open spec fn words_left(data: Seq<u8>, counter: int) -> int {
    if counter + 2 <= data.len() {
        (data.len() - counter) / 2
    } else {
        0
    }
}

/// The first `k` text lines of the listing that starts at byte offset
/// `counter`, each word rendered at its own address `counter + offset`;
/// fewer than `k` when the buffer runs out first.
pub open spec fn listing(data: Seq<u8>, counter: int, offset: int, k: int) -> Seq<Seq<char>>
    decreases k,
{
    if k <= 0 || counter + 2 > data.len() {
        Seq::empty()
    } else {
        seq![line_of(counter + offset, word_at(data, counter))]
            + listing(data, counter + 2, offset, k - 1)
    }
}

/// The views of a vector of lines.
pub open spec fn line_views(v: Seq<String>) -> Seq<Seq<char>> {
    v.map_values(|s: String| s@)
}

/// A listing holds one line per remaining word, up to the bound asked for.
pub proof fn lemma_listing_len(data: Seq<u8>, counter: int, offset: int, k: int)
    requires
        k >= 0,
    ensures
        listing(data, counter, offset, k).len() == if k <= words_left(data, counter) {
            k
        } else {
            words_left(data, counter)
        },
    decreases k,
{
    if k > 0 && counter + 2 <= data.len() {
        lemma_listing_len(data, counter + 2, offset, k - 1);
    }
}

/// Line `i` of a listing renders the word read at byte offset
/// `counter + 2*i`, at the address `counter + offset + 2*i`.
pub proof fn lemma_listing_index(data: Seq<u8>, counter: int, offset: int, k: int, i: int)
    requires
        0 <= i < listing(data, counter, offset, k).len(),
    ensures
        listing(data, counter, offset, k)[i] == line_of(
            counter + offset + 2 * i,
            word_at(data, counter + 2 * i),
        ),
    decreases i,
{
    if i > 0 {
        lemma_listing_index(data, counter + 2, offset, k - 1, i - 1);
    }
}

/// Successive lines of a listing carry successive addresses: the line after
/// the one rendered at address `a` is rendered at address `a + 2`.
pub proof fn lemma_address_monotonic(data: Seq<u8>, counter: int, offset: int, k: int, i: int)
    requires
        0 <= i,
        i + 1 < listing(data, counter, offset, k).len(),
    ensures
        listing(data, counter, offset, k)[i] == line_of(
            counter + offset + 2 * i,
            word_at(data, counter + 2 * i),
        ),
        listing(data, counter, offset, k)[i + 1] == line_of(
            (counter + offset + 2 * i) + 2,
            word_at(data, counter + 2 * (i + 1)),
        ),
{
    lemma_listing_index(data, counter, offset, k, i);
    lemma_listing_index(data, counter, offset, k, i + 1);
}

/// A listing bounded by `k1` is a prefix of any listing of the same stream
/// bounded by a larger `k2`.
pub proof fn lemma_listing_prefix(data: Seq<u8>, counter: int, offset: int, k1: int, k2: int)
    requires
        0 <= k1 <= k2,
    ensures
        listing(data, counter, offset, k1) == listing(data, counter, offset, k2).take(
            listing(data, counter, offset, k1).len() as int,
        ),
    decreases k1,
{
    let s1 = listing(data, counter, offset, k1);
    let s2 = listing(data, counter, offset, k2);
    if k1 == 0 || counter + 2 > data.len() {
        assert(s1 =~= s2.take(0));
    } else {
        let h = seq![line_of(counter + offset, word_at(data, counter))];
        let t1 = listing(data, counter + 2, offset, k1 - 1);
        let t2 = listing(data, counter + 2, offset, k2 - 1);
        assert(s1 == h + t1);
        assert(s2 == h + t2);
        lemma_listing_prefix(data, counter + 2, offset, k1 - 1, k2 - 1);
        let m = s1.len() as int;
        assert(t1.len() <= t2.len()) by {
            lemma_listing_len(data, counter + 2, offset, k1 - 1);
            lemma_listing_len(data, counter + 2, offset, k2 - 1);
        }
        assert forall|idx: int| 0 <= idx < m implies s1[idx] == s2.take(m)[idx] by {
            assert(s2.take(m)[idx] == s2[idx]);
            if idx > 0 {
                assert(s1[idx] == t1[idx - 1]);
                assert(t1[idx - 1] == t2.take(t1.len() as int)[idx - 1]);
                assert(t2.take(t1.len() as int)[idx - 1] == t2[idx - 1]);
                assert(s2[idx] == t2[idx - 1]);
            }
        }
        assert(s1 =~= s2.take(m));
    }
}

/// A bound beyond the number of remaining words changes nothing: the
/// listing stops at end-of-stream either way.
pub proof fn lemma_listing_saturates(data: Seq<u8>, counter: int, offset: int, k: int)
    requires
        k >= words_left(data, counter),
    ensures
        listing(data, counter, offset, k) == listing(
            data,
            counter,
            offset,
            words_left(data, counter),
        ),
    decreases k,
{
    if k > 0 && counter + 2 <= data.len() {
        assert(words_left(data, counter) == words_left(data, counter + 2) + 1);
        lemma_listing_saturates(data, counter + 2, offset, k - 1);
    }
}

/// What a request bounded by `n` yields is a prefix of the full listing of
/// the same stream, whether or not `n` exceeds what remains.
pub proof fn lemma_bounded_prefix_of_all(data: Seq<u8>, counter: int, offset: int, n: int)
    requires
        n >= 0,
    ensures
        listing(data, counter, offset, n) == listing(
            data,
            counter,
            offset,
            words_left(data, counter),
        ).take(listing(data, counter, offset, n).len() as int),
{
    let a = words_left(data, counter);
    if n <= a {
        lemma_listing_prefix(data, counter, offset, n, a);
    } else {
        lemma_listing_saturates(data, counter, offset, n);
        lemma_listing_len(data, counter, offset, a);
        assert(listing(data, counter, offset, a) =~= listing(data, counter, offset, a).take(
            listing(data, counter, offset, a).len() as int,
        ));
    }
}

/// A cursor over a program image, reading it two bytes at a time.
///
/// `counter` is the byte offset of the next word; `offset` is the constant
/// base added to `counter` when an address is rendered.
pub struct RomData<'a> {
    /// The program image being decoded; only ever read.
    pub data: &'a [u8],
    /// The byte offset of the next word to read.
    pub counter: usize,
    /// The constant base address the image is mapped at.
    pub offset: usize,
}

impl<'a> RomData<'a> {
    /// A fresh cursor at the start of `data`, with a zero base address.
    pub fn new(data: &'a [u8]) -> (r: RomData<'a>)
        ensures
            r.data@ == data@,
            r.counter == 0,
            r.offset == 0,
    {
        RomData { data, counter: 0, offset: 0 }
    }

    /// Advances past the word just read. Advancing past the end is
    /// harmless: the next read simply reports end-of-stream.
    pub fn next(&mut self)
        requires
            old(self).counter + 2 <= usize::MAX,
        ensures
            final(self).counter == old(self).counter + 2,
            final(self).offset == old(self).offset,
            final(self).data@ == old(self).data@,
    {
        self.counter += 2;
    }

    /// The memory address the word at the cursor would be rendered at.
    pub fn addr(&self) -> (a: usize)
        requires
            self.counter + self.offset <= usize::MAX,
        ensures
            a == self.counter + self.offset,
    {
        self.counter + self.offset
    }

    /// Reads the word under the cursor without advancing.
    ///
    /// Returns `Some` exactly when at least two bytes remain; an odd
    /// trailing byte cannot form a word and is never consumed.
    pub fn get_next_opcode(&mut self) -> (r: Option<Opcode>)
        ensures
            *final(self) == *old(self),
            r is Some <==> old(self).counter + 2 <= old(self).data@.len(),
            r is Some ==> {
                &&& r->Some_0.wf()
                &&& r->Some_0.opcode == word_at(old(self).data@, old(self).counter as int)
            },
    {
        if self.counter < self.data.len() && self.data.len() - self.counter >= 2 {
            let b0 = self.data[self.counter];
            let b1 = self.data[self.counter + 1];
            Some(Opcode::new(((b0 as u16) << 8) | (b1 as u16)))
        } else {
            None
        }
    }

    /// Renders one decoded instruction at the cursor's current address.
    ///
    /// Total over every possible word: the result is exactly
    /// [`line_of`]`(counter + offset, word)`, and never empty.
    pub fn translate_opcode(&self, opcode: Opcode) -> (s: String)
        requires
            opcode.wf(),
            self.counter + self.offset <= usize::MAX,
        ensures
            s@ == line_of((self.counter + self.offset) as int, opcode.opcode),
            s@.len() > 0,
    {
        crate::render::render_line(self.counter + self.offset, &opcode)
    }

    /// Decodes every remaining word, one line per instruction, in address
    /// order, and leaves the cursor at end-of-stream.
    pub fn get_all_opcodes(&mut self) -> (result: Vec<String>)
        requires
            old(self).data@.len() + old(self).offset <= usize::MAX,
        ensures
            line_views(result@) == listing(
                old(self).data@,
                old(self).counter as int,
                old(self).offset as int,
                words_left(old(self).data@, old(self).counter as int),
            ),
            result@.len() == words_left(old(self).data@, old(self).counter as int),
            final(self).counter == old(self).counter + 2 * result@.len(),
            final(self).offset == old(self).offset,
            final(self).data@ == old(self).data@,
    {
        let ghost d = old(self).data@;
        let ghost c0 = old(self).counter as int;
        let ghost o = old(self).offset as int;
        let ghost total = words_left(d, c0);
        let mut result: Vec<String> = Vec::new();
        loop
            invariant
                self.data@ == d,
                self.offset as int == o,
                d.len() + o <= usize::MAX,
                self.counter == c0 + 2 * result@.len(),
                total == result@.len() + words_left(d, self.counter as int),
                listing(d, c0, o, total) == line_views(result@) + listing(
                    d,
                    self.counter as int,
                    o,
                    words_left(d, self.counter as int),
                ),
            ensures
                self.data@ == d,
                self.offset as int == o,
                self.counter == c0 + 2 * result@.len(),
                words_left(d, self.counter as int) == 0,
                total == result@.len(),
                listing(d, c0, o, total) == line_views(result@) + listing(
                    d,
                    self.counter as int,
                    o,
                    words_left(d, self.counter as int),
                ),
            decreases words_left(d, self.counter as int),
        {
            let ghost c = self.counter as int;
            let ghost j = result@.len() as int;
            match self.get_next_opcode() {
                None => {
                    break;
                },
                Some(op) => {
                    let line = self.translate_opcode(op);
                    result.push(line);
                    self.next();
                    proof {
                        assert(words_left(d, c) == words_left(d, c + 2) + 1);
                        assert(listing(d, c, o, words_left(d, c)) == seq![
                            line_of(c + o, word_at(d, c)),
                        ] + listing(d, c + 2, o, words_left(d, c) - 1));
                        assert(line_views(result@) =~= line_views(result@.take(j)) + seq![line@]);
                        assert(listing(d, c0, o, total) =~= line_views(result@) + listing(
                            d,
                            c + 2,
                            o,
                            words_left(d, c + 2),
                        ));
                    }
                },
            }
        }
        proof {
            assert(line_views(result@) =~= listing(d, c0, o, total));
        }
        result
    }

    /// Decodes at most `n` further words, one line per instruction, in
    /// address order; stops early, without error, at end-of-stream.
    ///
    /// Exactly `min(n, words remaining)` lines come back, and they are a
    /// prefix of what [`Self::get_all_opcodes`] would have produced.
    pub fn get_n_opcodes(&mut self, start: usize, n: usize) -> (result: Vec<String>)
        requires
            start + n <= usize::MAX,
            old(self).data@.len() + old(self).offset <= usize::MAX,
        ensures
            line_views(result@) == listing(
                old(self).data@,
                old(self).counter as int,
                old(self).offset as int,
                n as int,
            ),
            result@.len() == if n as int <= words_left(old(self).data@, old(self).counter as int) {
                n as int
            } else {
                words_left(old(self).data@, old(self).counter as int)
            },
            final(self).counter == old(self).counter + 2 * result@.len(),
            final(self).offset == old(self).offset,
            final(self).data@ == old(self).data@,
    {
        let ghost d = old(self).data@;
        let ghost c0 = old(self).counter as int;
        let ghost o = old(self).offset as int;
        let mut result: Vec<String> = Vec::new();
        let mut i: usize = start;
        while i < start + n
            invariant
                start + n <= usize::MAX,
                start <= i <= start + n,
                self.data@ == d,
                self.offset as int == o,
                d.len() + o <= usize::MAX,
                i == start + result@.len(),
                self.counter == c0 + 2 * result@.len(),
                listing(d, c0, o, n as int) == line_views(result@) + listing(
                    d,
                    self.counter as int,
                    o,
                    n - result@.len(),
                ),
            ensures
                self.data@ == d,
                self.offset as int == o,
                self.counter == c0 + 2 * result@.len(),
                result@.len() <= n,
                result@.len() == n || words_left(d, self.counter as int) == 0,
                listing(d, c0, o, n as int) == line_views(result@) + listing(
                    d,
                    self.counter as int,
                    o,
                    n - result@.len(),
                ),
            decreases start + n - i,
        {
            let ghost c = self.counter as int;
            let ghost j = result@.len() as int;
            match self.get_next_opcode() {
                None => {
                    break;
                },
                Some(op) => {
                    let line = self.translate_opcode(op);
                    result.push(line);
                    self.next();
                    i += 1;
                    proof {
                        assert(listing(d, c, o, n - j) == seq![line_of(c + o, word_at(d, c))]
                            + listing(d, c + 2, o, n - j - 1));
                        assert(line_views(result@) =~= line_views(result@.take(j)) + seq![line@]);
                        assert(listing(d, c0, o, n as int) =~= line_views(result@) + listing(
                            d,
                            c + 2,
                            o,
                            n - j - 1,
                        ));
                    }
                },
            }
        }
        proof {
            assert(listing(d, self.counter as int, o, n - result@.len())
                =~= Seq::<Seq<char>>::empty());
            assert(line_views(result@) =~= listing(d, c0, o, n as int));
            lemma_listing_len(d, c0, o, n as int);
        }
        result
    }
}

} // verus!
