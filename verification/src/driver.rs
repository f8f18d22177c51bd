//! The synchronous driver: a simpler, non-reentrant front end.
//!
//! For hosts that need no document-write support, the driver wraps a parsing
//! engine directly: it buffers incoming text in one queue and busy-drives the
//! engine past any in-band script signals, assuming script handling completes
//! synchronously. It never suspends; the reentrant protocol lives in
//! `crate::input_stream`.

use vstd::prelude::*;

use crate::buffer_queue::BufferQueue;
use crate::buffer_queue::lemma_appended_chunks_concatenate;
use crate::buffer_queue::stream_suffix_of;

verus! {

/// A qualified element name, as tree sinks know elements.
#[derive(Clone)]
pub struct QualName {
    /// The namespace the name lives in.
    pub ns: String,
    /// The local part of the name.
    pub local: String,
}

/// One attribute of an element: a qualified name and a value.
#[derive(Clone)]
pub struct Attribute {
    /// The attribute's name.
    pub name: QualName,
    /// The attribute's value.
    pub value: String,
}

/// Tokenizer options the driver passes through to the engine.
#[derive(Clone)]
pub struct TokenizerOpts {
    /// Report all parse errors described by the markup specification, at some
    /// cost in speed.
    pub exact_errors: bool,
    /// Discard a U+FEFF byte-order mark at the beginning of the stream.
    pub discard_bom: bool,
}

/// Tree-builder options the driver passes through to the engine.
#[derive(Clone)]
pub struct TreeBuilderOpts {
    /// Report all parse errors described by the markup specification, at some
    /// cost in speed.
    pub exact_errors: bool,
    /// Whether scripting is enabled in the document being built.
    pub scripting_enabled: bool,
    /// Whether the document is being built for an inline frame's source
    /// document attribute.
    pub iframe_srcdoc: bool,
    /// Drop any doctype token instead of handing it to the sink.
    pub drop_doctype: bool,
}

/// All-encompassing options struct for the parser.
#[derive(Clone)]
pub struct ParseOpts {
    /// Tokenizer options.
    pub tokenizer: TokenizerOpts,
    /// Tree builder options.
    pub tree_builder: TreeBuilderOpts,
}

impl Default for ParseOpts {
    /// No exact error reporting, a discarded byte-order mark, scripting
    /// enabled, an ordinary document, doctype tokens kept.
    fn default() -> (opts: Self)
        ensures
            !opts.tokenizer.exact_errors,
            opts.tokenizer.discard_bom,
            !opts.tree_builder.exact_errors,
            opts.tree_builder.scripting_enabled,
            !opts.tree_builder.iframe_srcdoc,
            !opts.tree_builder.drop_doctype,
    {
        ParseOpts {
            tokenizer: TokenizerOpts { exact_errors: false, discard_bom: true },
            tree_builder: TreeBuilderOpts {
                exact_errors: false,
                scripting_enabled: true,
                iframe_srcdoc: false,
                drop_doctype: false,
            },
        }
    }
}

/// The consumer of finished nodes: the collaborator that owns tree
/// construction's output. Only the one operation the driver itself needs is
/// named here; everything else about the sink is the engine's business.
pub trait TreeSink {
    /// An opaque sink-owned reference to an element.
    type Handle;

    /// Create an element with the given name and attributes and hand back a
    /// reference to it.
    fn create_element(&mut self, name: QualName, attrs: Vec<Attribute>) -> Self::Handle;
}

/// What one run of the parsing engine against the available input reports.
pub enum TokenizerResult<Handle> {
    /// The engine stopped at a script the host must execute before the
    /// engine can go further.
    Script(Handle),
    /// The engine consumed all input available to it.
    Done,
}

/// The parsing engine capability: tokenization and tree construction, owned
/// by a collaborator and opaque here. The engine drains the queue it is lent
/// from the front only, so whatever it leaves behind is a suffix of the
/// stream it was offered; every character that leaves the queue lands at the
/// back of the engine's consumed stream, so nothing is lost or reordered
/// between the queue and the engine; when the engine reports `Done` it has
/// consumed all input available to it, buffering any partial token
/// internally.
pub trait ParseEngine: Sized {
    /// An opaque engine-owned reference to a script element.
    type Handle;

    /// The finished output of tree construction.
    type Output;

    /// The tree sink the engine is built around.
    type Sink;

    /// The characters the engine has consumed so far, in order.
    spec fn fed(&self) -> Seq<char>;

    /// Whether end-of-input has been signalled.
    spec fn ended(&self) -> bool;

    /// The error descriptions reported to the engine so far, in order.
    spec fn reported(&self) -> Seq<Seq<char>>;

    /// The output the engine would construct from its current state.
    spec fn output(&self) -> Self::Output;

    /// Build the engine for a full document parse, feeding finished nodes to
    /// `sink`: nothing consumed, nothing reported, end-of-input not yet
    /// signalled.
    fn new_document(sink: Self::Sink, opts: ParseOpts) -> (r: Self)
        ensures
            r.fed() == Seq::<char>::empty(),
            r.reported() == Seq::<Seq<char>>::empty(),
            !r.ended(),
    ;

    /// Build the engine for a fragment parse with the given context element:
    /// tree construction runs in fragment mode, and the tokenizer starts in
    /// the state the context element calls for. Nothing consumed, nothing
    /// reported, end-of-input not yet signalled.
    fn new_for_fragment(
        sink: Self::Sink,
        opts: ParseOpts,
        context_element: Self::Handle,
        context_element_allows_scripting: bool,
        form_element: Option<Self::Handle>,
    ) -> (r: Self)
        ensures
            r.fed() == Seq::<char>::empty(),
            r.reported() == Seq::<Seq<char>>::empty(),
            !r.ended(),
    ;

    /// Run the engine against the buffered input until it either stops at a
    /// script or exhausts the available input. Every character removed from
    /// the queue lands at the back of the engine's consumed stream. Stopping
    /// at a script means the engine read at least the script element itself,
    /// so each report of a script comes with strict progress through the
    /// stream.
    fn feed(&mut self, input: &mut BufferQueue) -> (r: TokenizerResult<Self::Handle>)
        ensures
            stream_suffix_of(final(input)@.flatten(), old(input)@.flatten()),
            r is Done ==> final(input)@.len() == 0,
            r is Script ==> final(input)@.flatten().len() < old(input)@.flatten().len(),
            final(self).fed() + final(input)@.flatten() == old(self).fed() + old(
                input,
            )@.flatten(),
    ;

    /// Signal end-of-input: no more text will ever be fed, and nothing is
    /// consumed by the signal itself.
    fn end(&mut self)
        ensures
            final(self).ended(),
            final(self).fed() == old(self).fed(),
    ;

    /// Report a non-fatal error in the input, such as a malformed byte
    /// sequence found while decoding, to the downstream consumer: the
    /// description joins the reports, exactly once, and nothing is consumed.
    fn parse_error(&mut self, desc: String)
        ensures
            final(self).reported() == old(self).reported().push(desc@),
            final(self).fed() == old(self).fed(),
    ;

    /// Hand out the final constructed output, which is fixed by the engine's
    /// state. End-of-input must have been signalled first.
    fn finish(self) -> (r: Self::Output)
        requires
            self.ended(),
        ensures
            r == self.output(),
    ;
}

/// A parser ready to receive Unicode input incrementally: the synchronous,
/// non-reentrant driver around a parsing engine.
pub struct Parser<Engine: ParseEngine> {
    /// The engine that consumes the buffered input.
    pub tokenizer: Engine,
    /// Input received but not yet consumed by the engine.
    pub input_buffer: BufferQueue,
}

/// Parse a document: build the engine around `sink` and wrap it in a driver
/// with nothing buffered yet. Which tokenization rules run and which tree is
/// built are the engine's business.
pub fn parse_document<Engine: ParseEngine>(sink: Engine::Sink, opts: ParseOpts) -> (p: Parser<
    Engine,
>)
    ensures
        p.input_buffer@ == Seq::<Seq<char>>::empty(),
        p.tokenizer.fed() == Seq::<char>::empty(),
        p.tokenizer.reported() == Seq::<Seq<char>>::empty(),
        !p.tokenizer.ended(),
{
    Parser { tokenizer: Engine::new_document(sink, opts), input_buffer: BufferQueue::new() }
}

/// Parse a fragment: create the context element on the sink from its name
/// and attributes, then parse as `parse_fragment_for_element` does, with no
/// form element.
pub fn parse_fragment<Engine>(
    sink: Engine::Sink,
    opts: ParseOpts,
    context_name: QualName,
    context_attrs: Vec<Attribute>,
    context_element_allows_scripting: bool,
) -> (p: Parser<Engine>) where
    Engine: ParseEngine,
    Engine::Sink: TreeSink<Handle = Engine::Handle>,

    ensures
        p.input_buffer@ == Seq::<Seq<char>>::empty(),
        p.tokenizer.fed() == Seq::<char>::empty(),
        p.tokenizer.reported() == Seq::<Seq<char>>::empty(),
        !p.tokenizer.ended(),
{
    let mut sink = sink;
    let context_element = sink.create_element(context_name, context_attrs);
    parse_fragment_for_element(
        sink,
        opts,
        context_element,
        context_element_allows_scripting,
        None,
    )
}

/// Like `parse_fragment`, but with an existing context element and optionally
/// a form element: build the engine in fragment mode around `sink` and wrap
/// it in a driver with nothing buffered yet.
pub fn parse_fragment_for_element<Engine: ParseEngine>(
    sink: Engine::Sink,
    opts: ParseOpts,
    context_element: Engine::Handle,
    context_element_allows_scripting: bool,
    form_element: Option<Engine::Handle>,
) -> (p: Parser<Engine>)
    ensures
        p.input_buffer@ == Seq::<Seq<char>>::empty(),
        p.tokenizer.fed() == Seq::<char>::empty(),
        p.tokenizer.reported() == Seq::<Seq<char>>::empty(),
        !p.tokenizer.ended(),
{
    Parser {
        tokenizer: Engine::new_for_fragment(
            sink,
            opts,
            context_element,
            context_element_allows_scripting,
            form_element,
        ),
        input_buffer: BufferQueue::new(),
    }
}

impl<Engine: ParseEngine> Parser<Engine> {
    /// Accept one chunk of text, then drive the engine past any script
    /// signals until the available input is consumed or more is needed.
    ///
    /// On return the buffer is drained and the engine has consumed exactly
    /// the text that was buffered with `t` appended, in order: nothing is
    /// duplicated, dropped or reordered, and this driver never defers input.
    pub fn process(&mut self, t: String)
        ensures
            final(self).tokenizer.fed() == old(self).tokenizer.fed() + old(
                self,
            ).input_buffer@.flatten() + t@,
            final(self).input_buffer@.len() == 0,
    {
        self.input_buffer.push_back(t);
        proof {
            lemma_appended_chunks_concatenate(old(self).input_buffer@, t@);
            assert(self.tokenizer.fed() + self.input_buffer@.flatten() =~= old(
                self,
            ).tokenizer.fed() + old(self).input_buffer@.flatten() + t@);
        }
        loop
            invariant
                self.tokenizer.fed() + self.input_buffer@.flatten() == old(self).tokenizer.fed()
                    + old(self).input_buffer@.flatten() + t@,
            ensures
                self.tokenizer.fed() == old(self).tokenizer.fed() + old(
                    self,
                ).input_buffer@.flatten() + t@,
                self.input_buffer@.len() == 0,
            decreases self.input_buffer@.flatten().len(),
        {
            let r = self.tokenizer.feed(&mut self.input_buffer);
            match r {
                TokenizerResult::Script(_) => {
                },
                TokenizerResult::Done => {
                    proof {
                        assert(self.input_buffer@ =~= Seq::<Seq<char>>::empty());
                        assert(self.tokenizer.fed() + self.input_buffer@.flatten()
                            =~= self.tokenizer.fed());
                    }
                    break ;
                },
            }
        }
    }

    /// Report a non-fatal decoding error; the stream continues. The
    /// description is forwarded to the engine exactly once, nothing is fed
    /// to it, and buffered input is untouched by the report.
    pub fn error(&mut self, desc: String)
        ensures
            final(self).tokenizer.reported() == old(self).tokenizer.reported().push(desc@),
            final(self).tokenizer.fed() == old(self).tokenizer.fed(),
            final(self).input_buffer@ == old(self).input_buffer@,
    {
        self.tokenizer.parse_error(desc);
    }

    /// Signal end-of-input and return the final constructed output.
    ///
    /// The engine is first driven past any remaining script signals until
    /// the buffer is provably drained into it, then told that input has
    /// ended; the result is the output of exactly that engine state: one
    /// that saw end-of-input after consuming all previously buffered text.
    pub fn finish(self) -> (out: Engine::Output)
        ensures
            (exists|engine: Engine|
                #[trigger] engine.ended() && engine.fed() == self.tokenizer.fed()
                    + self.input_buffer@.flatten() && out == engine.output()),
    {
        let ghost fed0 = self.tokenizer.fed();
        let ghost buffered0 = self.input_buffer@.flatten();
        let Parser { mut tokenizer, mut input_buffer } = self;
        loop
            invariant
                tokenizer.fed() + input_buffer@.flatten() == fed0 + buffered0,
            ensures
                tokenizer.fed() == fed0 + buffered0,
                input_buffer@.len() == 0,
            decreases input_buffer@.flatten().len(),
        {
            let r = tokenizer.feed(&mut input_buffer);
            match r {
                TokenizerResult::Script(_) => {
                },
                TokenizerResult::Done => {
                    proof {
                        assert(input_buffer@ =~= Seq::<Seq<char>>::empty());
                        assert(tokenizer.fed() + input_buffer@.flatten() =~= tokenizer.fed());
                    }
                    break ;
                },
            }
        }
        tokenizer.end();
        let ghost engine0 = tokenizer;
        let out = tokenizer.finish();
        proof {
            assert(engine0.ended() && engine0.fed() == fed0 + buffered0 && out
                == engine0.output());
        }
        out
    }

    /// Wrap this parser into one that accepts UTF-8 bytes, decoded lossily
    /// like `String::from_utf8_lossy`, with nothing pending yet.
    pub fn from_utf8(self) -> (p: Utf8LossyParser<Engine>)
        ensures
            p.inner == self,
            p.pending() == Seq::<u8>::empty(),
    {
        Utf8LossyParser { inner: self, incomplete: Vec::new() }
    }
}

/// What `String::from_utf8_lossy` decodes the given bytes to: the bytes'
/// UTF-8 decoding, with each ill-formed sequence replaced.
pub uninterp spec fn utf8_lossy_of(bytes: Seq<u8>) -> Seq<char>;

/// Relies on `String::from_utf8_lossy`: the decoding depends on the bytes
/// alone, and no bytes decode to no text.
#[verifier::external_body]
fn decode_utf8_lossy(bytes: &Vec<u8>) -> (r: String)
    ensures
        r@ == utf8_lossy_of(bytes@),
        bytes@.len() == 0 ==> r@.len() == 0,
{
    String::from_utf8_lossy(bytes).into_owned()
}

/// Whether the bytes are well-formed UTF-8.
pub uninterp spec fn utf8_valid(bytes: Seq<u8>) -> bool;

/// Relies on `str::from_utf8`: it succeeds exactly on well-formed UTF-8,
/// which depends on the bytes alone, and the empty sequence is well-formed.
#[verifier::external_body]
fn utf8_is_valid(bytes: &Vec<u8>) -> (r: bool)
    ensures
        r == utf8_valid(bytes@),
        bytes@.len() == 0 ==> r,
{
    core::str::from_utf8(bytes).is_ok()
}

/// How many bytes a UTF-8 sequence whose first byte is `b` has: 1 for ASCII,
/// 2 to 4 for the multi-byte lead bytes, 0 when `b` cannot begin a sequence.
pub open spec fn utf8_lead_len(b: u8) -> int {
    if b < 0x80 {
        1
    } else if b & 0xE0 == 0xC0 {
        2
    } else if b & 0xF0 == 0xE0 {
        3
    } else if b & 0xF8 == 0xF0 {
        4
    } else {
        0
    }
}

/// Whether `b` is a UTF-8 continuation byte.
pub open spec fn is_utf8_continuation(b: u8) -> bool {
    b & 0xC0 == 0x80
}

/// How many trailing bytes of `bytes` could still grow into one complete
/// UTF-8 sequence with more input: the length of the longest proper sequence
/// prefix at the very end, judged by byte shape alone — lead and continuation
/// classes, not full sequence validity. A tail such as a lead byte followed
/// by a continuation outside its allowed range is held although nothing can
/// repair it; the decoded text is identical either way, only later. At most
/// 3, since a sequence has at most 4 bytes.
pub open spec fn incomplete_suffix_len(bytes: Seq<u8>) -> int {
    let n = bytes.len() as int;
    if n >= 1 && utf8_lead_len(bytes[n - 1]) > 1 {
        1
    } else if n >= 2 && is_utf8_continuation(bytes[n - 1]) && utf8_lead_len(bytes[n - 2]) > 2 {
        2
    } else if n >= 3 && is_utf8_continuation(bytes[n - 1]) && is_utf8_continuation(bytes[n - 2])
        && utf8_lead_len(bytes[n - 3]) > 3 {
        3
    } else {
        0
    }
}

/// The bytes one decoding step consumes: everything but the trailing
/// incomplete sequence prefix.
pub open spec fn decodable_prefix(bytes: Seq<u8>) -> Seq<u8> {
    bytes.take(bytes.len() - incomplete_suffix_len(bytes))
}

/// The trailing bytes one decoding step holds back for the next call.
pub open spec fn held_back_suffix(bytes: Seq<u8>) -> Seq<u8> {
    bytes.skip(bytes.len() - incomplete_suffix_len(bytes))
}

/// How many bytes a UTF-8 sequence whose first byte is `b` has.
fn utf8_lead_len_of(b: u8) -> (n: usize)
    ensures
        n == utf8_lead_len(b),
{
    if b < 0x80 {
        1
    } else if b & 0xE0 == 0xC0 {
        2
    } else if b & 0xF0 == 0xE0 {
        3
    } else if b & 0xF8 == 0xF0 {
        4
    } else {
        0
    }
}

/// Whether `b` is a UTF-8 continuation byte.
fn is_continuation_byte(b: u8) -> (r: bool)
    ensures
        r == is_utf8_continuation(b),
{
    b & 0xC0 == 0x80
}

/// Count the trailing bytes that could still grow into a complete sequence.
fn trailing_incomplete_len(bytes: &Vec<u8>) -> (n: usize)
    ensures
        n == incomplete_suffix_len(bytes@),
        n <= bytes@.len(),
{
    let len = bytes.len();
    if len >= 1 && utf8_lead_len_of(bytes[len - 1]) > 1 {
        1
    } else if len >= 2 && is_continuation_byte(bytes[len - 1]) && utf8_lead_len_of(
        bytes[len - 2],
    ) > 2 {
        2
    } else if len >= 3 && is_continuation_byte(bytes[len - 1]) && is_continuation_byte(
        bytes[len - 2],
    ) && utf8_lead_len_of(bytes[len - 3]) > 3 {
        3
    } else {
        0
    }
}

/// A parser that accepts raw UTF-8 bytes, decoding them lossily before they
/// reach the engine. Trailing bytes that could still grow into one complete
/// multi-byte sequence are carried into the next call, so a character split
/// across chunks is decoded whole; an ill-formed sequence is replaced and
/// reported downstream as a non-fatal parse error, and the stream continues.
pub struct Utf8LossyParser<Engine: ParseEngine> {
    /// The text-level driver the decoded input is handed to.
    pub inner: Parser<Engine>,
    /// Trailing bytes of earlier input that could still grow into one
    /// complete UTF-8 sequence: decoded with the next call's bytes, or
    /// flushed as ill-formed at end-of-input.
    pub incomplete: Vec<u8>,
}

impl<Engine: ParseEngine> Utf8LossyParser<Engine> {
    /// The bytes received but not yet decoded: by byte shape, a proper
    /// prefix of one multi-byte UTF-8 sequence.
    pub open spec fn pending(&self) -> Seq<u8> {
        self.incomplete@
    }

    /// Accept one chunk of bytes. The pending bytes of earlier calls
    /// followed by `bytes`, less a trailing incomplete sequence prefix that
    /// is held for the next call, are decoded lossily and drive the engine
    /// as `Parser::process` does, so the engine consumes exactly their
    /// decoding; if the decoded bytes were ill-formed, a parse error is
    /// reported downstream first.
    pub fn process(&mut self, bytes: &Vec<u8>)
        ensures
            final(self).pending() == held_back_suffix(old(self).pending() + bytes@),
            final(self).inner.tokenizer.fed() == old(self).inner.tokenizer.fed() + old(
                self,
            ).inner.input_buffer@.flatten() + utf8_lossy_of(
                decodable_prefix(old(self).pending() + bytes@),
            ),
            final(self).inner.input_buffer@.len() == 0,
    {
        let ghost total0 = old(self).pending() + bytes@;
        let mut total: Vec<u8> = Vec::new();
        core::mem::swap(&mut total, &mut self.incomplete);
        proof {
            assert(total@ =~= old(self).pending() + bytes@.take(0));
        }
        let mut i: usize = 0;
        while i < bytes.len()
            invariant
                i <= bytes@.len(),
                total@ == old(self).pending() + bytes@.take(i as int),
                self.inner == old(self).inner,
            decreases bytes@.len() - i,
        {
            total.push(bytes[i]);
            proof {
                assert(bytes@.take(i as int).push(bytes@[i as int]) =~= bytes@.take(i + 1));
                assert(total@ =~= old(self).pending() + bytes@.take(i + 1));
            }
            i += 1;
        }
        proof {
            assert(bytes@.take(bytes@.len() as int) =~= bytes@);
            assert(total@ =~= total0);
        }
        let hold = trailing_incomplete_len(&total);
        let cut = total.len() - hold;
        let pending = total.split_off(cut);
        self.incomplete = pending;
        proof {
            assert(total@ =~= decodable_prefix(total0));
            assert(self.incomplete@ =~= held_back_suffix(total0));
        }
        let valid = utf8_is_valid(&total);
        let decoded = decode_utf8_lossy(&total);
        if !valid {
            self.inner.error("invalid byte sequence".to_owned());
        }
        self.inner.process(decoded);
        proof {
            assert(self.inner.tokenizer.fed() =~= old(self).inner.tokenizer.fed() + old(
                self,
            ).inner.input_buffer@.flatten() + utf8_lossy_of(decodable_prefix(total0)));
        }
    }

    /// Flush and signal end-of-input, returning the final constructed
    /// output. Pending trailing bytes can no longer be completed, so they
    /// are decoded on their own — replaced and reported downstream as a
    /// parse error — before the driver finishes as `Parser::finish` does:
    /// the result is the output of an engine that saw end-of-input after
    /// consuming all buffered text and the flushed pending bytes' decoding.
    pub fn finish(self) -> (out: Engine::Output)
        ensures
            (exists|engine: Engine|
                #[trigger] engine.ended() && engine.fed() == self.inner.tokenizer.fed()
                    + self.inner.input_buffer@.flatten() + (if self.pending().len() == 0 {
                    Seq::<char>::empty()
                } else {
                    utf8_lossy_of(self.pending())
                }) && out == engine.output()),
    {
        let ghost fed0 = self.inner.tokenizer.fed();
        let ghost buffered0 = self.inner.input_buffer@.flatten();
        let ghost flushed0 = (if self.pending().len() == 0 {
            Seq::<char>::empty()
        } else {
            utf8_lossy_of(self.pending())
        });
        let Utf8LossyParser { mut inner, incomplete } = self;
        if incomplete.len() > 0 {
            let decoded = decode_utf8_lossy(&incomplete);
            inner.error("invalid byte sequence".to_owned());
            inner.process(decoded);
        }
        let ghost fed1 = inner.tokenizer.fed();
        let ghost buffered1 = inner.input_buffer@.flatten();
        proof {
            assert(fed1 + buffered1 =~= fed0 + buffered0 + flushed0);
        }
        let out = inner.finish();
        proof {
            let engine0 = choose|engine: Engine|
                #[trigger] engine.ended() && engine.fed() == fed1 + buffered1 && out
                    == engine.output();
            assert(engine0.ended() && engine0.fed() == fed0 + buffered0 + flushed0 && out
                == engine0.output());
        }
        out
    }
}

} // verus!
