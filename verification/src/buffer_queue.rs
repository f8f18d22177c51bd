//! An ordered queue of text chunks.
//!
//! A `BufferQueue` holds one logical character stream, split into chunks for
//! incremental delivery. Its view is the sequence of chunk contents; the
//! characters of the stream are the view's flattening. Popping chunks front to
//! back and concatenating them reproduces the stream exactly once, in order.

use vstd::prelude::*;

verus! {

/// An ordered buffer of text fragments representing one logical character
/// stream.
pub struct BufferQueue {
    chunks: Vec<String>,
}

impl View for BufferQueue {
    type V = Seq<Seq<char>>;

    closed spec fn view(&self) -> Seq<Seq<char>> {
        self.chunks@.map_values(|s: String| s@)
    }
}

/// `suffix` is what remains of the character stream `s` after some prefix of
/// it has been consumed.
pub open spec fn stream_suffix_of(suffix: Seq<char>, s: Seq<char>) -> bool {
    exists|k: int| 0 <= k <= s.len() && suffix == s.skip(k)
}

impl BufferQueue {
    /// A fresh, empty queue.
    pub fn new() -> (q: BufferQueue)
        ensures
            q@ == Seq::<Seq<char>>::empty(),
    {
        let q = BufferQueue { chunks: Vec::new() };
        proof {
            assert(q@ =~= Seq::<Seq<char>>::empty());
        }
        q
    }

    /// How many chunks are buffered.
    pub fn len(&self) -> (n: usize)
        ensures
            n == self@.len(),
    {
        self.chunks.len()
    }

    /// Whether no chunk is buffered.
    pub fn is_empty(&self) -> (r: bool)
        ensures
            r == (self@.len() == 0),
    {
        self.chunks.len() == 0
    }

    /// Append a chunk at the back of the queue.
    pub fn push_back(&mut self, data: String)
        ensures
            final(self)@ == old(self)@.push(data@),
    {
        self.chunks.push(data);
        proof {
            assert(self@ =~= old(self)@.push(data@));
        }
    }

    /// Remove and return the front chunk, if any.
    pub fn pop_front(&mut self) -> (r: Option<String>)
        ensures
            old(self)@.len() == 0 ==> r is None && final(self)@ == old(self)@,
            old(self)@.len() > 0 ==> (r matches Some(c)
                && c@ == old(self)@.first()
                && final(self)@ == old(self)@.drop_first()),
    {
        if self.chunks.len() == 0 {
            None
        } else {
            let c = self.chunks.remove(0);
            proof {
                assert(self@ =~= old(self)@.drop_first());
            }
            Some(c)
        }
    }

    /// Discard every buffered chunk.
    pub fn clear(&mut self)
        ensures
            final(self)@ == Seq::<Seq<char>>::empty(),
    {
        self.chunks.clear();
        proof {
            assert(self@ =~= Seq::<Seq<char>>::empty());
        }
    }

    /// Exchange the entire contents of the two queues.
    pub fn swap_with(&mut self, other: &mut BufferQueue)
        ensures
            final(self)@ == old(other)@,
            final(other)@ == old(self)@,
    {
        core::mem::swap(self, other);
    }
}

/// Draining a queue front to back reproduces the concatenation of the chunks
/// appended to it, in call order: an empty queue holds the empty stream,
/// appending a chunk appends its characters at the back of the stream, and the
/// front chunk always carries the characters that come first.
pub proof fn lemma_appended_chunks_concatenate(q: Seq<Seq<char>>, c: Seq<char>)
    ensures
        Seq::<Seq<char>>::empty().flatten() == Seq::<char>::empty(),
        q.push(c).flatten() == q.flatten() + c,
        q.len() > 0 ==> q.flatten() == q.first() + q.drop_first().flatten(),
{
    q.lemma_flatten_push(c);
}

/// Consuming a stream never reorders it: what remains after any number of
/// consumption steps is still a suffix of every earlier state of the stream.
pub proof fn lemma_stream_suffix_transitive(a: Seq<char>, b: Seq<char>, c: Seq<char>)
    requires
        stream_suffix_of(a, b),
        stream_suffix_of(b, c),
    ensures
        stream_suffix_of(a, c),
{
    let k1 = choose|k: int| 0 <= k <= c.len() && b == c.skip(k);
    let k2 = choose|k: int| 0 <= k <= b.len() && a == b.skip(k);
    assert(a =~= c.skip(k1 + k2));
}

/// The whole stream is a suffix of itself: consuming nothing is a legal step.
pub proof fn lemma_stream_suffix_reflexive(s: Seq<char>)
    ensures
        stream_suffix_of(s, s),
{
    assert(s =~= s.skip(0));
}

} // verus!
