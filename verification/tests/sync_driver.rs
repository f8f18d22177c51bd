//! The synchronous, non-reentrant driver.

use markup_driver::buffer_queue::BufferQueue;
use markup_driver::driver::parse_document;
use markup_driver::driver::parse_fragment;
use markup_driver::driver::parse_fragment_for_element;
use markup_driver::driver::Attribute;
use markup_driver::driver::ParseEngine;
use markup_driver::driver::ParseOpts;
use markup_driver::driver::QualName;
use markup_driver::driver::TokenizerResult;
use markup_driver::driver::TreeSink;

/// A tree sink that records the elements it was asked to create.
struct FakeSink {
    created: Vec<String>,
}

impl TreeSink for FakeSink {
    type Handle = usize;

    fn create_element(&mut self, name: QualName, attrs: Vec<Attribute>) -> usize {
        let mut desc = name.local;
        for attr in attrs {
            desc.push(' ');
            desc.push_str(&attr.name.local);
            desc.push('=');
            desc.push_str(&attr.value);
        }
        self.created.push(desc);
        self.created.len() - 1
    }
}

/// An engine that records everything fed to it; a chunk containing the word
/// "script" makes it stop once with a script signal before going on.
struct FakeEngine {
    sink: FakeSink,
    fragment_context: Option<usize>,
    text: String,
    errors: Vec<String>,
    ended: bool,
    pending_script: bool,
}

impl ParseEngine for FakeEngine {
    type Handle = usize;

    type Output = (String, usize);

    type Sink = FakeSink;

    fn fed(&self) -> vstd::seq::Seq<char> {
        unreachable!()
    }

    fn ended(&self) -> bool {
        unreachable!()
    }

    fn reported(&self) -> vstd::seq::Seq<vstd::seq::Seq<char>> {
        unreachable!()
    }

    fn output(&self) -> (String, usize) {
        unreachable!()
    }

    fn new_document(sink: FakeSink, _opts: ParseOpts) -> FakeEngine {
        FakeEngine {
            sink,
            fragment_context: None,
            text: String::new(),
            errors: Vec::new(),
            ended: false,
            pending_script: false,
        }
    }

    fn new_for_fragment(
        sink: FakeSink,
        _opts: ParseOpts,
        context_element: usize,
        _context_element_allows_scripting: bool,
        _form_element: Option<usize>,
    ) -> FakeEngine {
        FakeEngine {
            sink,
            fragment_context: Some(context_element),
            text: String::new(),
            errors: Vec::new(),
            ended: false,
            pending_script: false,
        }
    }

    fn feed(&mut self, input: &mut BufferQueue) -> TokenizerResult<usize> {
        while let Some(chunk) = input.pop_front() {
            self.text.push_str(&chunk);
            if chunk.contains("script") && !self.pending_script {
                self.pending_script = true;
                return TokenizerResult::Script(7);
            }
        }
        self.pending_script = false;
        TokenizerResult::Done
    }

    fn end(&mut self) {
        self.ended = true;
    }

    fn parse_error(&mut self, desc: String) {
        self.errors.push(desc);
    }

    fn finish(self) -> (String, usize) {
        assert!(self.ended);
        (self.text, self.errors.len())
    }
}

fn fresh_sink() -> FakeSink {
    FakeSink { created: Vec::new() }
}

#[test]
fn driver_feeds_chunks_in_order() {
    let mut parser = parse_document::<FakeEngine>(fresh_sink(), ParseOpts::default());
    parser.process("ab".to_string());
    parser.process("cd".to_string());
    let (out, errors) = parser.finish();
    assert_eq!(out, "abcd");
    assert_eq!(errors, 0);
}

#[test]
fn driver_busy_drives_past_script_signals() {
    let mut parser = parse_document::<FakeEngine>(fresh_sink(), ParseOpts::default());
    parser.process("one script here".to_string());
    parser.process(" and more".to_string());
    let (out, _) = parser.finish();
    assert_eq!(out, "one script here and more");
}

#[test]
fn driver_forwards_decode_errors() {
    let mut parser = parse_document::<FakeEngine>(fresh_sink(), ParseOpts::default());
    parser.error("invalid byte sequence".to_string());
    assert_eq!(parser.tokenizer.errors, vec!["invalid byte sequence".to_string()]);
}

#[test]
fn fragment_parse_creates_the_context_element() {
    let name = QualName { ns: "html".to_string(), local: "div".to_string() };
    let attrs = vec![Attribute {
        name: QualName { ns: "".to_string(), local: "id".to_string() },
        value: "root".to_string(),
    }];
    let mut parser = parse_fragment::<FakeEngine>(fresh_sink(), ParseOpts::default(), name, attrs, true);
    assert_eq!(parser.tokenizer.fragment_context, Some(0));
    assert_eq!(parser.tokenizer.sink.created, vec!["div id=root".to_string()]);
    parser.process("inner".to_string());
    let (out, _) = parser.finish();
    assert_eq!(out, "inner");
}

#[test]
fn fragment_parse_for_existing_element_skips_creation() {
    let mut parser = parse_fragment_for_element::<FakeEngine>(
        fresh_sink(),
        ParseOpts::default(),
        42,
        false,
        None,
    );
    assert_eq!(parser.tokenizer.fragment_context, Some(42));
    assert!(parser.tokenizer.sink.created.is_empty());
    parser.process("x".to_string());
    let (out, _) = parser.finish();
    assert_eq!(out, "x");
}

#[test]
fn default_options_keep_scripting_on() {
    let opts = ParseOpts::default();
    assert!(opts.tree_builder.scripting_enabled);
    assert!(opts.tokenizer.discard_bom);
    assert!(!opts.tokenizer.exact_errors);
    assert!(!opts.tree_builder.drop_doctype);
}

#[test]
fn lossy_decoding_replaces_invalid_bytes_and_reports() {
    let mut parser =
        parse_document::<FakeEngine>(fresh_sink(), ParseOpts::default()).from_utf8();
    parser.process(&b"ab\xffcd".to_vec());
    let (out, errors) = parser.finish();
    assert_eq!(out, "ab\u{fffd}cd");
    // The ill-formed sequence was reported downstream, not swallowed.
    assert_eq!(errors, 1);
}

#[test]
fn valid_utf8_bytes_decode_unchanged() {
    let mut parser =
        parse_document::<FakeEngine>(fresh_sink(), ParseOpts::default()).from_utf8();
    parser.process(&"héllo".as_bytes().to_vec());
    parser.process(&" wörld".as_bytes().to_vec());
    let (out, errors) = parser.finish();
    assert_eq!(out, "héllo wörld");
    assert_eq!(errors, 0);
}

#[test]
fn multibyte_char_split_across_chunks_decodes_whole() {
    // "é" is two bytes; feed them in different chunks around ASCII text.
    let mut parser =
        parse_document::<FakeEngine>(fresh_sink(), ParseOpts::default()).from_utf8();
    parser.process(&vec![0x61, 0xc3]);
    parser.process(&vec![0xa9, 0x62]);
    let (out, errors) = parser.finish();
    assert_eq!(out, "aéb");
    assert_eq!(errors, 0);
}

#[test]
fn four_byte_char_split_across_chunks_decodes_whole() {
    // U+1F600 is four bytes; split them two and two.
    let mut parser =
        parse_document::<FakeEngine>(fresh_sink(), ParseOpts::default()).from_utf8();
    parser.process(&vec![0xf0, 0x9f]);
    parser.process(&vec![0x98, 0x80]);
    let (out, errors) = parser.finish();
    assert_eq!(out, "\u{1f600}");
    assert_eq!(errors, 0);
}

#[test]
fn incomplete_trailing_bytes_are_flushed_at_finish() {
    // The chunk ends in a sequence prefix that never completes.
    let mut parser =
        parse_document::<FakeEngine>(fresh_sink(), ParseOpts::default()).from_utf8();
    parser.process(&vec![0x6f, 0x6b, 0xe2, 0x82]);
    let (out, errors) = parser.finish();
    assert_eq!(out, "ok\u{fffd}");
    assert_eq!(errors, 1);
}
