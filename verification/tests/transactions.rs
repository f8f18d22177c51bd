//! The reentrant document-write transaction stack.

use markup_driver::buffer_queue::BufferQueue;
use markup_driver::input_stream::ControlFault;
use markup_driver::input_stream::DecodingParser;
use markup_driver::input_stream::InputSink;
use markup_driver::input_stream::ParserAction;

/// An engine that drains every chunk it is offered and records the text it
/// saw, yielding no actions.
struct RecordingSink {
    text: String,
}

impl InputSink for RecordingSink {
    type Handle = u32;

    fn consumed(&self) -> vstd::seq::Seq<char> {
        unreachable!()
    }

    fn feed(&mut self, input: &mut BufferQueue) -> Option<ParserAction<u32>> {
        while let Some(chunk) = input.pop_front() {
            self.text.push_str(&chunk);
        }
        None
    }
}

/// An engine that consumes one chunk per feed and yields a script action for
/// it, so a write transaction can be observed step by step.
struct OneChunkSink {
    text: String,
    next_handle: u32,
}

impl InputSink for OneChunkSink {
    type Handle = u32;

    fn consumed(&self) -> vstd::seq::Seq<char> {
        unreachable!()
    }

    fn feed(&mut self, input: &mut BufferQueue) -> Option<ParserAction<u32>> {
        match input.pop_front() {
            Some(chunk) => {
                self.text.push_str(&chunk);
                self.next_handle += 1;
                Some(ParserAction::HandleScript(self.next_handle))
            }
            None => None,
        }
    }
}

#[test]
fn end_without_transaction_is_rejected() {
    let mut parser = DecodingParser::new(RecordingSink { text: String::new() });
    assert_eq!(
        parser.end_document_write_transaction().unwrap_err(),
        ControlFault::NoActiveTransaction
    );
    // Not silently ignored, and nothing was corrupted: the parser still
    // behaves as a fresh one.
    parser.input_stream_mut().append("ok".to_string());
    parser.parse().expect("parser is not suspended");
    assert_eq!(parser.sink().text, "ok");
}

#[test]
fn step_without_transaction_is_rejected() {
    let mut parser = DecodingParser::new(RecordingSink { text: String::new() });
    assert_eq!(
        parser.document_write_step().unwrap_err(),
        ControlFault::NoActiveTransaction
    );
}

#[test]
fn write_while_suspended_is_rejected() {
    let mut parser = DecodingParser::new(RecordingSink { text: String::new() });
    parser.push_script_input("pending".to_string());
    assert_eq!(
        parser.document_write("late".to_string()).unwrap_err(),
        ControlFault::ParserBlocked
    );
}

#[test]
fn nested_writes_end_lifo_and_replay_inner_first() {
    let mut parser = DecodingParser::new(RecordingSink { text: String::new() });
    parser.document_write("X".to_string()).expect("not suspended");
    parser.document_write("Y".to_string()).expect("not suspended");
    parser.end_document_write_transaction().expect("inner transaction active");
    parser.end_document_write_transaction().expect("outer transaction active");
    parser.input_stream_mut().append("Z".to_string());
    parser.notify_parser_blocking_script_loaded();
    parser.parse().expect("parser is no longer suspended");
    // The inner write's content comes right before the outer remainder, and
    // both precede input that arrived later on the main stream.
    assert_eq!(parser.sink().text, "YXZ");
}

#[test]
fn undrained_write_remainder_precedes_later_append() {
    let mut parser = DecodingParser::new(RecordingSink { text: String::new() });
    parser.document_write("X-remainder".to_string()).expect("not suspended");
    // A parser-blocking script turned up before any of the write's input was
    // parsed, so the transaction ends with everything undrained.
    parser.end_document_write_transaction().expect("transaction active");
    parser.input_stream_mut().append("Z".to_string());
    parser.notify_parser_blocking_script_loaded();
    parser.parse().expect("parser is no longer suspended");
    assert_eq!(parser.sink().text, "X-remainderZ");
}

#[test]
fn document_write_steps_drain_the_transaction_queue() {
    let mut parser = DecodingParser::new(OneChunkSink { text: String::new(), next_handle: 0 });
    parser.document_write("W".to_string()).expect("not suspended");
    let first = parser.document_write_step().expect("transaction active");
    assert!(matches!(first, Some(ParserAction::HandleScript(1))));
    let second = parser.document_write_step().expect("transaction active");
    assert!(second.is_none());
    assert_eq!(parser.sink().text, "W");
    parser.end_document_write_transaction().expect("transaction active");
    // Fully drained before ending: nothing was deferred, so the main stream
    // stays in charge.
    parser.input_stream_mut().append("tail".to_string());
    parser.notify_parser_blocking_script_loaded();
    parser.parse().expect("parser is not suspended");
    assert_eq!(parser.sink().text, "Wtail");
}

#[test]
fn nested_write_begun_mid_action_is_drained_first() {
    let mut parser = DecodingParser::new(OneChunkSink { text: String::new(), next_handle: 0 });
    parser.document_write("X".to_string()).expect("not suspended");
    let outer_action = parser.document_write_step().expect("transaction active");
    assert!(matches!(outer_action, Some(ParserAction::HandleScript(1))));
    // The host reacts to the yielded action by writing again before resuming:
    // the nested queue becomes the active top of the stack.
    parser.document_write("Y".to_string()).expect("not suspended");
    let inner_action = parser.document_write_step().expect("transaction active");
    assert!(matches!(inner_action, Some(ParserAction::HandleScript(2))));
    assert!(parser.document_write_step().expect("transaction active").is_none());
    parser.end_document_write_transaction().expect("inner transaction active");
    assert!(parser.document_write_step().expect("transaction active").is_none());
    parser.end_document_write_transaction().expect("outer transaction active");
    // The inner write's content reached the engine before the outer
    // transaction resumed.
    assert_eq!(parser.sink().text, "XY");
    // Both transactions drained fully, so nothing was deferred: the main
    // stream alone feeds the parser from here on.
    assert!(parser.input_stream().code_points().is_empty());
    parser.input_stream_mut().append("Z".to_string());
    parser.parse().expect("parser is not suspended");
    assert_eq!(parser.sink().text, "XYZ");
}

#[test]
fn map_script_rewraps_the_handle() {
    let action: ParserAction<u32> = ParserAction::HandleScript(3);
    let mapped: ParserAction<u64> = action.map_script(|h| (h as u64) * 10);
    match mapped {
        ParserAction::HandleScript(h) => assert_eq!(h, 30),
    }
}
