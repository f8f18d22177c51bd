//! The document input stream and the driving coordinator.
//!
//! The coordinator arbitrates between three sources of input: the main input
//! stream fed by the host as data arrives, a stack of private queues, one per
//! currently active reentrant write call, and a queue of input deferred while
//! a parser-blocking script is pending. Its contracts pin down the one
//! property everything here exists for: input is handed to the parsing engine
//! exactly once, in the right order.

use vstd::prelude::*;

use crate::buffer_queue::BufferQueue;
use crate::buffer_queue::stream_suffix_of;
use vstd::seq_lib::lemma_flatten_concat;

verus! {

/// The document's canonical remaining input: one chunk queue, fed by the host
/// and drained by the parsing engine.
pub struct InputStream {
    input: BufferQueue,
}

impl View for InputStream {
    type V = Seq<Seq<char>>;

    closed spec fn view(&self) -> Seq<Seq<char>> {
        self.input@
    }
}

impl InputStream {
    /// A fresh stream with no buffered input.
    pub fn new() -> (s: InputStream)
        ensures
            s@ == Seq::<Seq<char>>::empty(),
    {
        InputStream { input: BufferQueue::new() }
    }

    /// Append a chunk at the back of the stream. Empty chunks are legal
    /// no-ops at the stream level.
    pub fn append(&mut self, data: String)
        ensures
            final(self)@ == old(self)@.push(data@),
    {
        self.input.push_back(data);
    }

    /// A read-only view of the buffered input.
    pub fn code_points(&self) -> (q: &BufferQueue)
        ensures
            q@ == self@,
    {
        &self.input
    }

    /// Remove all input from the stream.
    pub fn clear(&mut self)
        ensures
            final(self)@ == Seq::<Seq<char>>::empty(),
    {
        self.input.clear();
    }
}

impl Default for InputStream {
    /// Same as `InputStream::new`: a stream with no buffered input.
    fn default() -> (s: Self)
        ensures
            s@ == Seq::<Seq<char>>::empty(),
    {
        InputStream::new()
    }
}

/// An instruction yielded by the parsing engine that the host must carry out
/// before parsing can go further.
#[derive(Debug)]
pub enum ParserAction<Handle> {
    /// The element named by the handle is a script the host must execute now.
    HandleScript(Handle),
}

impl<T> ParserAction<T> {
    /// Rewrap the action's handle through `f`, keeping the action's kind.
    pub fn map_script<U, F: FnOnce(T) -> U>(self, f: F) -> (r: ParserAction<U>)
        requires
            self matches ParserAction::HandleScript(t) ==> f.requires((t,)),
        ensures
            (self matches ParserAction::HandleScript(t)
                && r matches ParserAction::HandleScript(u) && f.ensures((t,), u)),
    {
        match self {
            ParserAction::HandleScript(script) => ParserAction::HandleScript(f(script)),
        }
    }
}

/// Something that can consume buffered input: in practice a tokenizer driving
/// a tree builder. The engine drains the queue it is lent from the front
/// only, so whatever it leaves behind is a suffix of the stream it was
/// offered; every character that leaves the queue lands at the back of the
/// engine's consumed stream, so nothing is lost or reordered between the
/// queue and the engine; when the engine reports nothing further to hand
/// out, it has consumed all input available to it.
pub trait InputSink {
    /// An opaque engine-owned reference to an element the host must execute.
    type Handle;

    /// The characters the engine has consumed so far, in order.
    spec fn consumed(&self) -> Seq<char>;

    /// Run the engine against the buffered input until it either yields an
    /// action the host must handle (`Some`) or exhausts the available input
    /// (`None`).
    fn feed(&mut self, input: &mut BufferQueue) -> (r: Option<ParserAction<Self::Handle>>)
        ensures
            stream_suffix_of(final(input)@.flatten(), old(input)@.flatten()),
            r is None ==> final(input)@.len() == 0,
            final(self).consumed() + final(input)@.flatten() == old(self).consumed() + old(
                input,
            )@.flatten(),
    ;
}

/// A caller contract violation: the coordinator was driven in a state the
/// host must never drive it in.
#[derive(Clone, Copy, Debug, PartialEq, Eq, Structural)]
pub enum ControlFault {
    /// Input was fed for parsing while a pending parser-blocking script
    /// should have kept the parser suspended.
    ParserBlocked,
    /// A write transaction was used or ended while none was active.
    NoActiveTransaction,
}

/// The driving coordinator: owns the input stream, the stack of reentrant
/// write transactions and the deferred-script queue, and feeds the right
/// queue to the parsing engine.
pub struct DecodingParser<Sink> {
    /// One private queue per `document.write` call that is currently
    /// executing, innermost last. When a call finishes, whatever remains in
    /// its queue moves to `script_input`.
    document_write_input: Vec<BufferQueue>,
    /// Pending input from `document.write` calls that blocked the parser
    /// before all their input was parsed. When the script that made those
    /// calls finishes loading, this goes to the front of the input stream.
    script_input: BufferQueue,
    input_stream: InputStream,
    /// Something that can consume buffered input.
    input_sink: Sink,
}

impl<Sink: InputSink> DecodingParser<Sink> {
    /// The stack of active write transactions, as the chunks each one still
    /// holds, innermost last.
    pub closed spec fn write_stack(&self) -> Seq<Seq<Seq<char>>> {
        self.document_write_input@.map_values(|q: BufferQueue| q@)
    }

    /// The chunks deferred behind a pending parser-blocking script.
    pub closed spec fn deferred(&self) -> Seq<Seq<char>> {
        self.script_input@
    }

    /// The chunks buffered in the main input stream.
    pub closed spec fn stream(&self) -> Seq<Seq<char>> {
        self.input_stream@
    }

    /// The consumer of buffered input.
    pub closed spec fn spec_sink(&self) -> Sink {
        self.input_sink
    }

    /// A coordinator with no buffered, deferred or transactional input.
    pub fn new(sink: Sink) -> (p: Self)
        ensures
            p.write_stack() == Seq::<Seq<Seq<char>>>::empty(),
            p.deferred() == Seq::<Seq<char>>::empty(),
            p.stream() == Seq::<Seq<char>>::empty(),
            p.spec_sink() == sink,
    {
        let p = DecodingParser {
            document_write_input: Vec::new(),
            script_input: BufferQueue::new(),
            input_stream: InputStream::new(),
            input_sink: sink,
        };
        proof {
            assert(p.write_stack() =~= Seq::<Seq<Seq<char>>>::empty());
        }
        p
    }

    /// The consumer of buffered input.
    pub fn sink(&self) -> (s: &Sink)
        ensures
            *s == self.spec_sink(),
    {
        &self.input_sink
    }

    /// The document's main input stream.
    pub fn input_stream(&self) -> (s: &InputStream)
        ensures
            s@ == self.stream(),
    {
        &self.input_stream
    }

    /// Mutable access to the document's main input stream, for the host to
    /// append newly arrived data or to abort by clearing.
    pub fn input_stream_mut(&mut self) -> (s: &mut InputStream)
        ensures
            (*s)@ == old(self).stream(),
            final(self).stream() == (*final(s))@,
            final(self).write_stack() == old(self).write_stack(),
            final(self).deferred() == old(self).deferred(),
            final(self).spec_sink() == old(self).spec_sink(),
    {
        &mut self.input_stream
    }

    /// Drive the parser one step against the main input stream.
    ///
    /// While a parser-blocking script is pending the parser must stay
    /// suspended, so driving it with deferred input present is a host
    /// contract violation and is rejected without touching any queue.
    /// Otherwise one engine step runs: it consumes a prefix of the stream,
    /// every removed character reaches the engine's consumed stream in
    /// order, and it yields at most one action; the transaction stack and
    /// the deferred queue are untouched.
    pub fn parse(&mut self) -> (r: Result<Option<ParserAction<Sink::Handle>>, ControlFault>)
        ensures
            old(self).deferred().len() > 0 ==> (r matches Err(ControlFault::ParserBlocked)
                && *final(self) == *old(self)),
            old(self).deferred().len() == 0 ==> r is Ok
                && final(self).deferred() == old(self).deferred()
                && final(self).write_stack() == old(self).write_stack()
                && stream_suffix_of(final(self).stream().flatten(), old(self).stream().flatten())
                && ((r matches Ok(None)) ==> final(self).stream().len() == 0)
                && final(self).spec_sink().consumed() + final(self).stream().flatten() == old(
                self,
            ).spec_sink().consumed() + old(self).stream().flatten(),
    {
        if !self.script_input.is_empty() {
            return Err(ControlFault::ParserBlocked);
        }
        let r = self.input_sink.feed(&mut self.input_stream.input);
        Ok(r)
    }

    /// Begin a `document.write` transaction whose private queue holds
    /// `input`.
    ///
    /// A write while the parser is suspended on a pending parser-blocking
    /// script is a host contract violation and is rejected without touching
    /// any queue. Otherwise a fresh queue holding exactly `input` becomes the
    /// innermost transaction; nothing else moves.
    pub fn document_write(&mut self, input: String) -> (r: Result<(), ControlFault>)
        ensures
            old(self).deferred().len() > 0 ==> (r matches Err(ControlFault::ParserBlocked)
                && *final(self) == *old(self)),
            old(self).deferred().len() == 0 ==> r is Ok
                && final(self).write_stack() == old(self).write_stack().push(seq![input@])
                && final(self).deferred() == old(self).deferred()
                && final(self).stream() == old(self).stream()
                && final(self).spec_sink() == old(self).spec_sink(),
    {
        if !self.script_input.is_empty() {
            return Err(ControlFault::ParserBlocked);
        }
        let mut buffer_queue = BufferQueue::new();
        buffer_queue.push_back(input);
        self.document_write_input.push(buffer_queue);
        proof {
            assert(self.write_stack() =~= old(self).write_stack().push(seq![input@]));
            assert(seq![input@] =~= Seq::<Seq<char>>::empty().push(input@));
        }
        Ok(())
    }

    /// Drive the parser one step against the innermost active write
    /// transaction's queue.
    ///
    /// Stepping with no transaction active is a host contract violation and
    /// is rejected without touching any queue. Otherwise one engine step runs
    /// against the top of the stack: it consumes a prefix of that queue's
    /// stream, every removed character reaches the engine's consumed stream
    /// in order, and it yields at most one action; the enclosing
    /// transactions, the main stream and the deferred queue are untouched.
    /// If a nested write begins while the host handles a yielded action, the
    /// nested queue is the one the next step drains, by stack discipline.
    pub fn document_write_step(&mut self) -> (r: Result<
        Option<ParserAction<Sink::Handle>>,
        ControlFault,
    >)
        ensures
            old(self).write_stack().len() == 0 ==> (r matches Err(
                ControlFault::NoActiveTransaction,
            ) && *final(self) == *old(self)),
            old(self).write_stack().len() > 0 ==> r is Ok
                && final(self).write_stack().len() == old(self).write_stack().len()
                && final(self).write_stack().drop_last() == old(self).write_stack().drop_last()
                && stream_suffix_of(
                final(self).write_stack().last().flatten(),
                old(self).write_stack().last().flatten(),
            )
                && ((r matches Ok(None)) ==> final(self).write_stack().last().len() == 0)
                && final(self).deferred() == old(self).deferred()
                && final(self).stream() == old(self).stream()
                && final(self).spec_sink().consumed()
                    + final(self).write_stack().last().flatten() == old(
                self,
            ).spec_sink().consumed() + old(self).write_stack().last().flatten(),
    {
        if self.document_write_input.len() == 0 {
            return Err(ControlFault::NoActiveTransaction);
        }
        let mut active = match self.document_write_input.pop() {
            Some(q) => q,
            None => {
                return Err(ControlFault::NoActiveTransaction);
            },
        };
        let r = self.input_sink.feed(&mut active);
        self.document_write_input.push(active);
        proof {
            assert(self.write_stack().drop_last() =~= old(self).write_stack().drop_last());
            assert(old(self).write_stack().last() == old(
                self,
            ).document_write_input@.last()@);
            assert(self.write_stack().last() == active@);
        }
        Ok(r)
    }

    /// End the innermost `document.write` transaction.
    ///
    /// Ending with no transaction active is a host contract violation and is
    /// rejected without touching any queue. Otherwise the innermost queue is
    /// popped, and every chunk still in it — input the engine could not parse
    /// because a parser-blocking script turned up mid-transaction — moves in
    /// order to the back of the deferred-script queue, to be replayed ahead
    /// of newer main-stream input once that script loads.
    pub fn end_document_write_transaction(&mut self) -> (r: Result<(), ControlFault>)
        ensures
            old(self).write_stack().len() == 0 ==> (r matches Err(
                ControlFault::NoActiveTransaction,
            ) && *final(self) == *old(self)),
            old(self).write_stack().len() > 0 ==> r is Ok
                && final(self).write_stack() == old(self).write_stack().drop_last()
                && final(self).deferred() == old(self).deferred() + old(self).write_stack().last()
                && final(self).stream() == old(self).stream()
                && final(self).spec_sink() == old(self).spec_sink(),
    {
        if self.document_write_input.len() == 0 {
            return Err(ControlFault::NoActiveTransaction);
        }
        let mut input = match self.document_write_input.pop() {
            Some(q) => q,
            None => {
                return Err(ControlFault::NoActiveTransaction);
            },
        };
        proof {
            assert(self.write_stack() =~= old(self).write_stack().drop_last());
            assert(input@ == old(self).write_stack().last());
        }
        loop
            invariant
                self.script_input@ + input@ == old(self).deferred() + old(
                    self,
                ).write_stack().last(),
                self.write_stack() == old(self).write_stack().drop_last(),
                self.stream() == old(self).stream(),
                self.spec_sink() == old(self).spec_sink(),
            ensures
                self.script_input@ == old(self).deferred() + old(self).write_stack().last(),
                self.write_stack() == old(self).write_stack().drop_last(),
                self.stream() == old(self).stream(),
                self.spec_sink() == old(self).spec_sink(),
            decreases input@.len(),
        {
            match input.pop_front() {
                Some(chunk) => {
                    self.script_input.push_back(chunk);
                    proof {
                        assert(self.script_input@ + input@ =~= old(self).deferred() + old(
                            self,
                        ).write_stack().last());
                    }
                },
                None => {
                    proof {
                        assert(self.script_input@ =~= self.script_input@ + input@);
                    }
                    break ;
                },
            }
        }
        Ok(())
    }

    /// Append input to the deferred-script queue: used when a write happens
    /// while a different, parser-blocking script is already pending.
    pub fn push_script_input(&mut self, input: String)
        ensures
            final(self).deferred() == old(self).deferred().push(input@),
            final(self).write_stack() == old(self).write_stack(),
            final(self).stream() == old(self).stream(),
            final(self).spec_sink() == old(self).spec_sink(),
    {
        self.script_input.push_back(input);
    }

    /// The parser-blocking script has loaded: parsing may resume.
    ///
    /// All deferred input moves, in its original arrival order, to the front
    /// of the main input stream — ahead of whatever arrived on the stream
    /// while the script was pending — and the deferred queue ends empty.
    pub fn notify_parser_blocking_script_loaded(&mut self)
        ensures
            final(self).stream() == old(self).deferred() + old(self).stream(),
            final(self).deferred() == Seq::<Seq<char>>::empty(),
            final(self).write_stack() == old(self).write_stack(),
            final(self).spec_sink() == old(self).spec_sink(),
    {
        self.script_input.swap_with(&mut self.input_stream.input);
        loop
            invariant
                self.input_stream@ + self.script_input@ == old(self).deferred() + old(
                    self,
                ).stream(),
                self.write_stack() == old(self).write_stack(),
                self.spec_sink() == old(self).spec_sink(),
            ensures
                self.input_stream@ == old(self).deferred() + old(self).stream(),
                self.script_input@ == Seq::<Seq<char>>::empty(),
                self.write_stack() == old(self).write_stack(),
                self.spec_sink() == old(self).spec_sink(),
            decreases self.script_input@.len(),
        {
            match self.script_input.pop_front() {
                Some(chunk) => {
                    self.input_stream.input.push_back(chunk);
                    proof {
                        assert(self.input_stream@ + self.script_input@ =~= old(self).deferred()
                            + old(self).stream());
                    }
                },
                None => {
                    proof {
                        assert(self.input_stream@ =~= self.input_stream@ + self.script_input@);
                        assert(self.script_input@ =~= Seq::<Seq<char>>::empty());
                    }
                    break ;
                },
            }
        }
    }
}

/// The deferred queue after ending every active write transaction in LIFO
/// order, one `end_document_write_transaction` at a time: each call takes the
/// pair of transaction stack and deferred chunks to the stack without its
/// innermost queue and the deferred chunks followed by that queue's remaining
/// chunks.
pub open spec fn unwound_deferred(
    stack: Seq<Seq<Seq<char>>>,
    deferred: Seq<Seq<char>>,
) -> Seq<Seq<char>>
    decreases stack.len(),
{
    if stack.len() == 0 {
        deferred
    } else {
        unwound_deferred(stack.drop_last(), deferred + stack.last())
    }
}

/// The undrained chunks of a stack of write transactions, innermost
/// transaction first, each transaction's chunks in their original order.
pub open spec fn lifo_chunks(stack: Seq<Seq<Seq<char>>>) -> Seq<Seq<char>>
    decreases stack.len(),
{
    if stack.len() == 0 {
        Seq::<Seq<char>>::empty()
    } else {
        stack.last() + lifo_chunks(stack.drop_last())
    }
}

/// For every nesting depth of `document_write`: ending all active
/// transactions in LIFO order leaves deferred whatever was already deferred,
/// followed by each transaction's undrained chunks in their original order,
/// innermost transaction first — so an inner write's content is replayed
/// before the enclosing transaction's remainder, and everything lands behind
/// the previously deferred input.
pub proof fn lemma_end_all_transactions_lifo(
    stack: Seq<Seq<Seq<char>>>,
    deferred: Seq<Seq<char>>,
)
    ensures
        unwound_deferred(stack, deferred) == deferred + lifo_chunks(stack),
    decreases stack.len(),
{
    if stack.len() == 0 {
        assert(deferred + lifo_chunks(stack) =~= deferred);
    } else {
        lemma_end_all_transactions_lifo(stack.drop_last(), deferred + stack.last());
        assert((deferred + stack.last()) + lifo_chunks(stack.drop_last()) =~= deferred + (
        stack.last() + lifo_chunks(stack.drop_last())));
    }
}

/// Input deferred while a parser-blocking script is pending is always
/// replayed ahead of input that arrives on the main stream afterwards: if
/// chunk `a` is pushed to the deferred queue and chunk `b` is then appended
/// to the main stream, the stream that
/// `notify_parser_blocking_script_loaded` produces holds `a` right after the
/// previously deferred chunks and `b` at the very end, so every character of
/// `a` is drained before any character of `b`.
pub proof fn lemma_script_input_precedes_later_append(
    deferred: Seq<Seq<char>>,
    stream: Seq<Seq<char>>,
    a: Seq<char>,
    b: Seq<char>,
)
    ensures
        deferred.push(a) + stream.push(b) == deferred + seq![a] + stream + seq![b],
        (deferred.push(a) + stream.push(b)).flatten() == deferred.flatten() + a
            + stream.flatten() + b,
{
    assert(deferred.push(a) + stream.push(b) =~= deferred + seq![a] + stream + seq![b]);
    lemma_flatten_concat(deferred.push(a), stream.push(b));
    deferred.lemma_flatten_push(a);
    stream.lemma_flatten_push(b);
    assert((deferred.push(a) + stream.push(b)).flatten() =~= deferred.flatten() + a
        + stream.flatten() + b);
}

} // verus!
