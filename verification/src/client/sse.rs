//! Reading a stream of server-sent events.
//!
//! A line that begins with `data:` holds a frame. Blank lines, comments and
//! whatever is not JSON are skipped.

use vstd::prelude::*;
use vstd::string::*;

use crate::client::exceptions::{typed_error, A2AClientError, ClientErrorV};
use crate::codec::{json_of_text, one_line, parse_text, spells};
use crate::json::{Json, JsonNumber, JsonV, NumberV};
use crate::text::{chars_of, is_white, slice, starts_with, str_eq, trim_left, trim_right, white};

verus! {

/// The code of a JSON-RPC error object, as a 32-bit number; the code of an
/// internal error where it has none.
pub open spec fn error_code(err: JsonV) -> int {
    match err.get("code"@) {
        Some(JsonV::Number(NumberV::PosInt(n))) => if n <= 0x7fff_ffff_ffff_ffff {
            ((n as i64) as i32) as int
        } else {
            -32603
        },
        Some(JsonV::Number(NumberV::NegInt(n))) => ((n as i64) as i32) as int,
        _ => -32603,
    }
}

/// The client error that a JSON-RPC error object stands for.
pub open spec fn object_error(err: JsonV) -> ClientErrorV {
    typed_error(
        error_code(err),
        match err.text_at("message"@) {
            Some(m) => m,
            None => Seq::empty(),
        },
    )
}

/// The client error that a JSON-RPC error object stands for.
pub fn error_of(err: &Json) -> (r: A2AClientError)
    ensures
        r@ == object_error(err@),
{
    let code: i32 = match err.get("code") {
        Some(Json::Number(JsonNumber::PosInt(n))) => if *n <= 0x7fff_ffff_ffff_ffff {
            #[verifier::truncate]
            let c: i32 = (*n as i64) as i32;
            c
        } else {
            -32603
        },
        Some(Json::Number(JsonNumber::NegInt(n))) => {
            #[verifier::truncate]
            let c: i32 = *n as i32;
            c
        },
        _ => -32603,
    };
    match err.get_str("message") {
        Some(m) => A2AClientError::from_jsonrpc(code, m),
        None => {
            proof {
                reveal_strlit("");
                assert(""@ =~= Seq::<char>::empty());
            }
            A2AClientError::from_jsonrpc(code, "")
        },
    }
}

/// The error that a frame carries, where it is a JSON-RPC error response.
pub open spec fn frame_error(frame: JsonV) -> Option<ClientErrorV> {
    match (frame.get("jsonrpc"@), frame.get("error"@)) {
        (Some(_), Some(err)) => Some(object_error(err)),
        _ => None,
    }
}

/// The error that a frame carries, where it is a JSON-RPC error response.
pub fn stream_frame_error(frame: &Json) -> (r: Option<A2AClientError>)
    ensures
        frame_error(frame@) == (match r {
            Some(e) => Some(e@),
            None => None,
        }),
{
    if frame.get("jsonrpc").is_none() {
        return None;
    }
    match frame.get("error") {
        Some(err) => Some(error_of(err)),
        None => None,
    }
}

/// The event in a frame: the result of a JSON-RPC response, or the frame itself.
pub open spec fn unwrapped(frame: JsonV) -> JsonV {
    match (frame.get("jsonrpc"@), frame.get("result"@)) {
        (Some(_), Some(result)) => result,
        _ => frame,
    }
}

/// The event in a frame: the result of a JSON-RPC response, or the frame itself.
pub fn unwrap_stream_envelope(frame: Json) -> (r: Json)
    ensures
        r@ == unwrapped(frame@),
{
    if frame.get("jsonrpc").is_some() {
        if let Some(result) = frame.get("result") {
            return result.copy();
        }
    }
    frame
}

/// The state that a status update tells.
pub open spec fn told_state(event: JsonV) -> Option<Seq<char>> {
    match event.get("statusUpdate"@) {
        Some(update) => match update.get("status"@) {
            Some(status) => status.text_at("state"@),
            None => None,
        },
        None => None,
    }
}

/// The names of the states that end a stream.
pub open spec fn terminal_name(state: Seq<char>) -> bool {
    ||| state == "TASK_STATE_COMPLETED"@
    ||| state == "TASK_STATE_FAILED"@
    ||| state == "TASK_STATE_CANCELED"@
    ||| state == "TASK_STATE_REJECTED"@
}

/// An event that ends a stream.
pub open spec fn ends(event: JsonV) -> bool {
    told_state(event) matches Some(s) && terminal_name(s)
}

/// Whether an event ends a stream.
pub fn is_terminal_event(event: &Json) -> (r: bool)
    ensures
        r == ends(event@),
{
    let update: &Json = match event.get("statusUpdate") {
        Some(u) => u,
        None => {
            return false;
        },
    };
    let status: &Json = match update.get("status") {
        Some(s) => s,
        None => {
            return false;
        },
    };
    match status.get_str("state") {
        Some(s) => str_eq(s, "TASK_STATE_COMPLETED") || str_eq(s, "TASK_STATE_FAILED") || str_eq(
            s,
            "TASK_STATE_CANCELED",
        ) || str_eq(s, "TASK_STATE_REJECTED"),
        None => false,
    }
}

/// What a stream yields.
#[derive(Debug)]
pub enum StreamItem {
    Event(Json),
    Failure(A2AClientError),
}

/// What a yielded item denotes.
#[verifier::ext_equal]
pub enum ItemV {
    Event(JsonV),
    Failure(ClientErrorV),
}

impl View for StreamItem {
    type V = ItemV;

    open spec fn view(&self) -> ItemV {
        match self {
            StreamItem::Event(j) => ItemV::Event(j@),
            StreamItem::Failure(e) => ItemV::Failure(e@),
        }
    }
}

/// What a frame yields.
pub open spec fn frame_item(frame: JsonV) -> ItemV {
    match frame_error(frame) {
        Some(e) => ItemV::Failure(e),
        None => ItemV::Event(unwrapped(frame)),
    }
}

/// What a frame yields.
pub fn read_frame(frame: Json) -> (r: StreamItem)
    ensures
        r@ == frame_item(frame@),
{
    match stream_frame_error(&frame) {
        Some(e) => StreamItem::Failure(e),
        None => StreamItem::Event(unwrap_stream_envelope(frame)),
    }
}

/// The data of a line, where it has any.
pub open spec fn line_data(line: Seq<char>) -> Option<Seq<char>> {
    let l = trim_right(line);
    if l.len() > 0 && "data:"@.is_prefix_of(l) {
        Some(trim_left(l.subrange("data:"@.len() as int, l.len() as int)))
    } else {
        None
    }
}

/// What a line yields, where it yields anything.
pub open spec fn line_item(line: Seq<char>) -> Option<ItemV> {
    match line_data(line) {
        Some(data) => match json_of_text(data) {
            Ok(frame) => Some(frame_item(frame)),
            Err(_) => None,
        },
        None => None,
    }
}

/// The position of the first line break, or the length where there is none.
pub open spec fn line_end(s: Seq<char>) -> nat
    decreases s.len(),
{
    if s.len() == 0 || s[0] == '\n' {
        0
    } else {
        1 + line_end(s.skip(1))
    }
}

proof fn line_end_found(s: Seq<char>)
    ensures
        line_end(s) <= s.len(),
        line_end(s) < s.len() ==> s[line_end(s) as int] == '\n',
        forall|i: int| 0 <= i < line_end(s) ==> s[i] != '\n',
    decreases s.len(),
{
    if s.len() > 0 && s[0] != '\n' {
        line_end_found(s.skip(1));
        assert forall|i: int| 0 <= i < line_end(s) implies s[i] != '\n' by {
            if i > 0 {
                assert(s.skip(1)[i - 1] == s[i]);
            }
        }
    }
}

/// What the complete lines of a buffer yield next, and what of the buffer is
/// left.
pub open spec fn next_item(buffer: Seq<char>) -> (Option<ItemV>, Seq<char>)
    decreases buffer.len(),
    via next_item_shrinks
{
    let n = line_end(buffer) as int;
    if n >= buffer.len() {
        (None, buffer)
    } else {
        let rest = buffer.skip(n + 1);
        match line_item(buffer.take(n)) {
            Some(x) => (Some(x), rest),
            None => next_item(rest),
        }
    }
}

#[via_fn]
proof fn next_item_shrinks(buffer: Seq<char>) {
    line_end_found(buffer);
}

/// The text that `String::from_utf8_lossy` makes of bytes.
pub uninterp spec fn utf8_lossy(bytes: Seq<u8>) -> Seq<char>;

/// `String::from_utf8_lossy`: the bytes as text, with a replacement character
/// for what is not UTF-8. It depends on the bytes alone.
#[verifier::external_body]
fn text_of_bytes(bytes: &[u8]) -> (r: String)
    ensures
        r@ == utf8_lossy(bytes@),
{
    String::from_utf8_lossy(bytes).into_owned()
}

/// A reader of a stream.
#[derive(Debug)]
pub struct SseReader {
    buffer: Vec<char>,
    done: bool,
}

impl SseReader {
    /// What was received and not read yet.
    pub closed spec fn pending(&self) -> Seq<char> {
        self.buffer@
    }

    /// Nothing more is yielded.
    pub closed spec fn finished(&self) -> bool {
        self.done
    }

    /// A reader that has received nothing.
    pub fn new() -> (r: SseReader)
        ensures
            r.pending() == Seq::<char>::empty(),
            !r.finished(),
    {
        SseReader { buffer: Vec::new(), done: false }
    }

    /// Receive bytes.
    pub fn feed(&mut self, bytes: &[u8])
        ensures
            final(self).pending() == old(self).pending() + utf8_lossy(bytes@),
            final(self).finished() == old(self).finished(),
    {
        let text: String = text_of_bytes(bytes);
        self.feed_text(text.as_str());
    }

    /// Receive text.
    pub fn feed_text(&mut self, text: &str)
        ensures
            final(self).pending() == old(self).pending() + text@,
            final(self).finished() == old(self).finished(),
    {
        let mut cs: Vec<char> = chars_of(text);
        self.buffer.append(&mut cs);
        assert(self.buffer@ =~= old(self).buffer@ + text@);
    }

    /// Whether nothing more is yielded.
    pub fn is_finished(&self) -> (r: bool)
        ensures
            r == self.finished(),
    {
        self.done
    }

    /// What the complete lines yield next. An event that ends the stream, and a
    /// failure, is the last thing that is yielded.
    pub fn next(&mut self) -> (r: Option<StreamItem>)
        ensures
            old(self).finished() ==> r is None && final(self).finished() && final(self).pending()
                == old(self).pending(),
            !old(self).finished() ==> ({
                let (item, rest) = next_item(old(self).pending());
                &&& final(self).pending() == rest
                &&& item == (match r {
                    Some(x) => Some(x@),
                    None => None,
                })
                &&& final(self).finished() == (match item {
                    Some(ItemV::Event(e)) => ends(e),
                    Some(ItemV::Failure(_)) => true,
                    None => false,
                })
            }),
    {
        if self.done {
            return None;
        }
        loop
            invariant
                !self.done,
                !old(self).done,
                next_item(self.buffer@) == next_item(old(self).buffer@),
            decreases self.buffer.len(),
        {
            let ghost all = self.buffer@;
            let mut n: usize = 0;
            assert(all.skip(0) =~= all);
            while n < self.buffer.len() && self.buffer[n] != '\n'
                invariant
                    n <= self.buffer.len(),
                    self.buffer@ == all,
                    line_end(all) == n + line_end(all.skip(n as int)),
                decreases self.buffer.len() - n,
            {
                assert(all.skip(n as int).skip(1) =~= all.skip(n + 1));
                n += 1;
            }
            assert(line_end(all) == n);
            if n == self.buffer.len() {
                return None;
            }
            let line: String = slice(&self.buffer, 0, n);
            let mut rest: Vec<char> = Vec::new();
            let mut k: usize = n + 1;
            while k < self.buffer.len()
                invariant
                    n < k <= self.buffer.len(),
                    self.buffer@ == all,
                    rest@ == all.subrange(n + 1, k as int),
                decreases self.buffer.len() - k,
            {
                rest.push(self.buffer[k]);
                k += 1;
                assert(rest@ =~= all.subrange(n + 1, k as int));
            }
            assert(rest@ =~= all.skip(n + 1));
            assert(all.take(n as int) =~= line@);
            self.buffer = rest;
            if let Some(item) = read_line(line.as_str()) {
                self.done = match &item {
                    StreamItem::Event(e) => is_terminal_event(e),
                    StreamItem::Failure(_) => true,
                };
                return Some(item);
            }
        }
    }
}

/// What a line yields, where it yields anything.
pub fn read_line(line: &str) -> (r: Option<StreamItem>)
    ensures
        line_item(line@) == (match r {
            Some(x) => Some(x@),
            None => None,
        }),
{
    let cs: Vec<char> = chars_of(line);
    let mut hi: usize = cs.len();
    assert(cs@.subrange(0, hi as int) =~= line@);
    while hi > 0 && white(cs[hi - 1])
        invariant
            hi <= cs.len(),
            cs@ == line@,
            trim_right(cs@.subrange(0, hi as int)) == trim_right(line@),
        decreases hi,
    {
        assert(cs@.subrange(0, hi as int).drop_last() =~= cs@.subrange(0, hi - 1));
        hi -= 1;
    }
    let ghost l = cs@.subrange(0, hi as int);
    assert(trim_right(line@) == l);
    let whole: String = slice(&cs, 0, hi);
    proof {
        reveal_strlit("data:");
    }
    if !starts_with(whole.as_str(), "data:") {
        return None;
    }
    let mut lo: usize = 5;
    let ghost body = l.subrange(5, hi as int);
    assert(cs@.subrange(lo as int, hi as int) =~= body);
    while lo < hi && white(cs[lo])
        invariant
            5 <= lo <= hi <= cs.len(),
            trim_left(cs@.subrange(lo as int, hi as int)) == trim_left(body),
        decreases hi - lo,
    {
        assert(cs@.subrange(lo as int, hi as int).skip(1) =~= cs@.subrange(lo + 1, hi as int));
        lo += 1;
    }
    let data: String = slice(&cs, lo, hi);
    assert(line_data(line@) == Some(data@));
    match parse_text(data.as_str()) {
        Ok(frame) => Some(read_frame(frame)),
        Err(_) => None,
    }
}

/// A frame that is written as one line of data is the next thing that is read,
/// whatever follows it: `text` is the text of the frame, with no line break in
/// it and no whitespace at its ends.
pub proof fn written_frame_is_read(text: Seq<char>, frame: JsonV, rest: Seq<char>)
    requires
        spells(text, frame),
        one_line(text),
        text.len() > 0 && !is_white(text[0]) && !is_white(text.last()),
    ensures
        next_item("data: "@ + text + "\n\n"@ + rest) == (
            Some(frame_item(frame)),
            "\n"@ + rest,
        ),
{
    reveal_strlit("data: ");
    reveal_strlit("data:");
    reveal_strlit("\n\n");
    reveal_strlit("\n");
    let line = "data: "@ + text;
    let buffer = line + "\n\n"@ + rest;
    assert forall|i: int| 0 <= i < line.len() implies buffer[i] != '\n' by {
        if i >= 6 {
            assert(buffer[i] == text[i - 6]);
            assert(text.contains(text[i - 6]));
        }
    }
    assert(buffer[line.len() as int] == '\n');
    line_end_found(buffer);
    assert(line_end(buffer) == line.len());
    assert(buffer.take(line.len() as int) =~= line);
    assert(buffer.skip(line.len() as int + 1) =~= "\n"@ + rest);
    assert(line.last() == text.last());
    assert(trim_right(line) == line);
    let body = line.subrange(5, line.len() as int);
    assert(is_white(body[0]));
    assert(body.skip(1) =~= text);
    assert(trim_left(text) == text);
    assert(trim_left(body) == text);
    assert("data:"@.is_prefix_of(line)) by {
        assert(line.subrange(0, 5) =~= "data:"@);
    }
    assert(line_data(line) == Some(text));
}

/// What a server puts into a frame is what a client takes out of it, and a
/// client that reads the status in which a task ends takes the stream for ended
/// exactly when the server does.
pub proof fn frames_are_read_as_written(id: JsonV, event: crate::types::EventV)
    ensures
        frame_item(crate::server::handlers::rpc_result_json(id, crate::types::event_json(event)))
            == ItemV::Event(crate::types::event_json(event)),
        event matches crate::types::EventV::Status { status, .. } ==> (ends(
            crate::types::event_json(event),
        ) <==> crate::types::terminal(status.state)),
{
    crate::server::handlers::reply_echoes_the_request(
        id,
        Ok(crate::types::event_json(event)),
    );
    if let crate::types::EventV::Status { task_id, context_id, status } = event {
        reveal_with_fuel(crate::json::member, 4);
        let e = crate::types::event_json(event);
        reveal_strlit("taskId");
        reveal_strlit("contextId");
        reveal_strlit("status");
        reveal_strlit("state");
        reveal_strlit("statusUpdate");
        assert("taskId"@[0] == 't');
        assert("contextId"@[0] == 'c');
        assert("status"@[0] == 's');
        let update = e->Object_0[0].1;
        assert(e.get("statusUpdate"@) == Some(update));
        assert(update->Object_0.skip(1)[0] == update->Object_0[1]);
        assert(update->Object_0.skip(1).skip(1)[0] == update->Object_0[2]);
        assert(update.get("status"@) == Some(crate::types::status_json(status)));
        let s = crate::types::status_json(status);
        assert(s->Object_0[0] == ("state"@, JsonV::Str(crate::types::state_name(status.state))));
        assert(s.text_at("state"@) == Some(crate::types::state_name(status.state)));
        crate::wire::state_round_trip(status.state);
        crate::wire::state_round_trip(crate::types::TaskState::Completed);
        crate::wire::state_round_trip(crate::types::TaskState::Failed);
        crate::wire::state_round_trip(crate::types::TaskState::Canceled);
        crate::wire::state_round_trip(crate::types::TaskState::Rejected);
    }
}

/// An error that comes as a frame of a stream is the error that a call would
/// have ended in.
pub proof fn stream_errors_are_those_of_calls(frame: JsonV)
    requires
        frame.get("jsonrpc"@) is Some,
        frame.get("error"@) is Some,
    ensures
        frame_item(frame) matches ItemV::Failure(e) && crate::client::client::answer(frame, None)
            == Err::<JsonV, _>(e),
{
}

/// An error is known by its code, and says what its message says. A code that is no
/// integer is read as that of a failure of the server.
pub proof fn error_objects_are_read(err: JsonV, code: int)
    ensures
        i32::MIN <= code <= i32::MAX && err.get("code"@) == Some(crate::json::integer_v(code))
            ==> error_code(err) == code,
        !(err.get("code"@) matches Some(JsonV::Number(_))) ==> error_code(err) == -32603,
        err.get("code"@) matches Some(JsonV::Number(NumberV::Float(_))) ==> error_code(err)
            == -32603,
        error_code(err) != -32001 && error_code(err) != -32002 ==> (err.text_at("message"@) matches Some(
            m,
        ) ==> object_error(err) == typed_error(error_code(err), m)),
        err.text_at("message"@) is None ==> object_error(err) == typed_error(
            error_code(err),
            Seq::<char>::empty(),
        ),
{
}

/// A frame of the protocol is its error where it has one, and its result otherwise;
/// what is no frame of the protocol is an event as it stands.
pub proof fn frames_are_errors_or_events(frame: JsonV)
    ensures
        frame.get("jsonrpc"@) is Some ==> (frame.get("error"@) matches Some(err) ==> frame_item(
            frame,
        ) == ItemV::Failure(object_error(err))),
        frame.get("jsonrpc"@) is Some && frame.get("error"@) is None ==> (frame.get("result"@)
            matches Some(x) ==> frame_item(frame) == ItemV::Event(x)),
        frame.get("jsonrpc"@) is None ==> frame_item(frame) == ItemV::Event(frame),
        frame.get("error"@) is None && frame.get("result"@) is None ==> frame_item(frame)
            == ItemV::Event(frame),
{
}

/// A stream ends with an update to one of the four states in which a task ends, and
/// with no other event.
pub proof fn streams_end_with_a_terminal_update(event: JsonV, update: JsonV, status: JsonV)
    ensures
        event.get("statusUpdate"@) is None ==> !ends(event),
        event.get("statusUpdate"@) == Some(update) && update.get("status"@) is None ==> !ends(event),
        event.get("statusUpdate"@) == Some(update) && update.get("status"@) == Some(status) ==> (
        ends(event) <==> (status.text_at("state"@) matches Some(s) && (s == "TASK_STATE_COMPLETED"@
            || s == "TASK_STATE_FAILED"@ || s == "TASK_STATE_CANCELED"@ || s
            == "TASK_STATE_REJECTED"@))),
{
}

/// A buffer without a complete line yields nothing and is kept; a line that yields
/// nothing is passed over; one that yields something is taken off.
pub proof fn lines_are_read_in_order(line: Seq<char>, rest: Seq<char>)
    requires
        !line.contains('\n'),
    ensures
        next_item(line) == (None::<ItemV>, line),
        line_item(line) is None ==> next_item(line + seq!['\n'] + rest) == next_item(rest),
        line_item(line) is Some ==> next_item(line + seq!['\n'] + rest) == (line_item(line), rest),
{
    line_end_found(line);
    if line_end(line) < line.len() {
        assert(line.contains(line[line_end(line) as int]));
    }
    let buffer = line + seq!['\n'] + rest;
    line_end_found(buffer);
    assert forall|i: int| 0 <= i < line.len() implies buffer[i] != '\n' by {
        assert(buffer[i] == line[i]);
        assert(line.contains(line[i]));
    }
    assert(buffer[line.len() as int] == '\n');
    assert(line_end(buffer) == line.len());
    assert(buffer.take(line.len() as int) =~= line);
    assert(buffer.skip(line.len() as int + 1) =~= rest);
}

/// Only a line of data that is JSON yields anything, and it yields the frame that the
/// data spells: the data stands behind `data:`, with or without whitespace around it.
pub proof fn only_data_lines_yield(line: Seq<char>, text: Seq<char>, frame: JsonV)
    ensures
        line.len() < 5 || line.take(5) != "data:"@ ==> line_item(line) is None,
        text.len() > 0 && !is_white(text[0]) && !is_white(text.last()) ==> line_data(
            "data:"@ + text,
        ) == Some(text) && line_data("data: "@ + text) == Some(text) && line_data(
            ("data:"@ + text).push('\r'),
        ) == Some(text),
        line_data(line) matches Some(d) ==> (spells(d, frame) ==> line_item(line) == Some(
            frame_item(frame),
        )),
        line_data(line) matches Some(d) ==> (json_of_text(d) is Err ==> line_item(line) is None),
{
    reveal_strlit("data:");
    reveal_strlit("data: ");
    let l = trim_right(line);
    trim_right_is_a_prefix(line);
    if l.len() > 0 && "data:"@.is_prefix_of(l) {
        assert(line.take(5) =~= l.subrange(0, 5));
    }
    if text.len() > 0 && !is_white(text[0]) && !is_white(text.last()) {
        let a = "data:"@ + text;
        assert(a.last() == text.last());
        assert(trim_right(a) == a);
        assert("data:"@ =~= a.subrange(0, 5));
        assert(a.subrange(5, a.len() as int) =~= text);
        assert(trim_left(text) == text);
        let b = "data: "@ + text;
        assert(b.last() == text.last());
        assert(trim_right(b) == b);
        assert("data:"@ =~= b.subrange(0, 5));
        let body = b.subrange(5, b.len() as int);
        assert(is_white(body[0]));
        assert(body.skip(1) =~= text);
        assert(trim_left(body) == text);
        let c = a.push('\r');
        assert(is_white(c.last()));
        assert(c.drop_last() =~= a);
        assert(trim_right(c) == a);
    }
}

proof fn trim_right_is_a_prefix(s: Seq<char>)
    ensures
        trim_right(s).len() <= s.len(),
        trim_right(s) == s.take(trim_right(s).len() as int),
    decreases s.len(),
{
    if s.len() > 0 && is_white(s.last()) {
        trim_right_is_a_prefix(s.drop_last());
        let n = trim_right(s).len() as int;
        assert(s.drop_last().take(n) =~= s.take(n));
    } else {
        assert(s.take(s.len() as int) =~= s);
    }
}

} // verus!
