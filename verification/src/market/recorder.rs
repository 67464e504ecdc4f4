//! Recording raw market messages as JSON lines, in receipt order.
use crate::digest::hex_digit;
use crate::text::{i64_to_dec, signed_dec_chars, utf8};
use vstd::prelude::*;

verus! {

#[derive(Debug, Clone, PartialEq, Eq)]
pub struct RecordedMarketMessage {
    pub received_at_ms: i64,
    pub payload: String,
}

#[derive(Debug, Clone, Copy, PartialEq, Eq, Structural)]
pub enum RecorderError {
    Io,
    OutOfOrder { previous_ms: i64, current_ms: i64 },
}

/// The declared error of `serde_json`.
#[verifier::external_type_specification]
#[verifier::external_body]
pub struct ExJsonError(serde_json::Error);

/// How `serde_json` writes one character inside a string: `"` and `\`
/// behind a backslash, the short escapes `\b \t \n \f \r`, `\u00XX` in
/// lower-case hex for the other control characters below `0x20`, and every
/// other character as itself.
pub open spec fn json_escape_char(c: char) -> Seq<char> {
    let n = c as int;
    if c == '"' {
        seq!['\\', '"']
    } else if c == '\\' {
        seq!['\\', '\\']
    } else if n == 8 {
        seq!['\\', 'b']
    } else if n == 9 {
        seq!['\\', 't']
    } else if n == 10 {
        seq!['\\', 'n']
    } else if n == 12 {
        seq!['\\', 'f']
    } else if n == 13 {
        seq!['\\', 'r']
    } else if n < 32 {
        seq!['\\', 'u', '0', '0', hex_digit(n / 16), hex_digit(n % 16)]
    } else {
        seq![c]
    }
}

pub open spec fn json_escape(text: Seq<char>) -> Seq<char>
    decreases text.len(),
{
    if text.len() == 0 {
        Seq::empty()
    } else {
        json_escape(text.drop_last()) + json_escape_char(text.last())
    }
}

/// The JSON string literal, quotes included, that `serde_json` writes for a
/// text.
pub open spec fn json_string_literal(text: Seq<char>) -> Seq<char> {
    seq!['"'] + json_escape(text) + seq!['"']
}

/// Calls `serde_json::to_string` on a string slice. Serialising a string
/// into the in-memory buffer `to_string` uses cannot fail (only the writer
/// can, and a `Vec` never does); the text is the quoted, escaped literal.
#[verifier::external_body]
fn quote_json(text: &str) -> (r: Result<String, serde_json::Error>)
    ensures
        r is Ok,
        r matches Ok(s) ==> s@ == json_string_literal(text@),
{
    serde_json::to_string(text)
}

/// The bytes of one record: a compact JSON object with the receipt time and
/// the payload, given as its JSON string literal, then a newline.
pub open spec fn record_bytes_spec(received_at_ms: i64, payload_literal: Seq<char>) -> Seq<u8> {
    utf8(
        "{\"received_at_ms\":"@ + signed_dec_chars(received_at_ms as int) + ",\"payload\":"@
            + payload_literal + "}"@,
    ) + seq![10u8]
}

/// One record as it is written: the payload goes through `serde_json`.
pub open spec fn record_line(r: RecordedMarketMessage) -> Seq<u8> {
    record_bytes_spec(r.received_at_ms, json_string_literal(r.payload@))
}

/// Frames one record around the JSON string literal of its payload.
pub fn record_bytes(received_at_ms: i64, payload_literal: &str) -> (r: Vec<u8>)
    ensures
        r@ == record_bytes_spec(received_at_ms, payload_literal@),
{
    let mut line = String::new();
    line.append("{\"received_at_ms\":");
    line.append(i64_to_dec(received_at_ms).as_str());
    line.append(",\"payload\":");
    line.append(payload_literal);
    line.append("}");
    let ghost text = line@;
    let mut out: Vec<u8> = Vec::new();
    push_all(&mut out, line.as_str().as_bytes());
    out.push(10);
    proof {
        assert(text =~= "{\"received_at_ms\":"@ + signed_dec_chars(received_at_ms as int)
            + ",\"payload\":"@ + payload_literal@ + "}"@);
        assert(out@ =~= record_bytes_spec(received_at_ms, payload_literal@));
    }
    out
}

fn push_all(out: &mut Vec<u8>, bytes: &[u8])
    ensures
        final(out)@ == old(out)@ + bytes@,
{
    let mut i: usize = 0;
    while i < bytes.len()
        invariant
            i <= bytes@.len(),
            out@ == old(out)@ + bytes@.subrange(0, i as int),
        decreases bytes@.len() - i,
    {
        out.push(bytes[i]);
        proof {
            assert(out@ =~= old(out)@ + bytes@.subrange(0, i + 1));
        }
        i = i + 1;
    }
    assert(bytes@.subrange(0, bytes@.len() as int) =~= bytes@);
}

/// A receipt time earlier than the last one recorded.
pub open spec fn out_of_order(last: Option<i64>, received_at_ms: i64) -> bool {
    match last {
        Some(previous_ms) => received_at_ms < previous_ms,
        None => false,
    }
}

/// A recorder of market messages into a byte buffer, one JSON object per
/// line; receipt times never go backwards.
pub struct JsonlRecorder {
    writer: Vec<u8>,
    last_received_at_ms: Option<i64>,
}

impl JsonlRecorder {
    pub closed spec fn written(&self) -> Seq<u8> {
        self.writer@
    }

    pub closed spec fn last_received(&self) -> Option<i64> {
        self.last_received_at_ms
    }

    pub fn new(writer: Vec<u8>) -> (r: Self)
        ensures
            r.written() == writer@,
            r.last_received() is None,
    {
        JsonlRecorder { writer, last_received_at_ms: None }
    }

    /// Appends a record, refusing one received before the last; a refused
    /// record leaves the recorder as it was.
    pub fn append(&mut self, record: RecordedMarketMessage) -> (r: Result<(), RecorderError>)
        ensures
            out_of_order(old(self).last_received(), record.received_at_ms) ==> r == Err::<(), RecorderError>(
                RecorderError::OutOfOrder {
                    previous_ms: old(self).last_received()->0,
                    current_ms: record.received_at_ms,
                },
            ),
            !out_of_order(old(self).last_received(), record.received_at_ms) ==> r is Ok,
            r is Ok ==> final(self).written() == old(self).written() + record_line(record)
                && final(self).last_received() == Some(record.received_at_ms),
            r is Err ==> final(self).written() == old(self).written()
                && final(self).last_received() == old(self).last_received(),
    {
        match self.last_received_at_ms {
            Some(previous_ms) => {
                if record.received_at_ms < previous_ms {
                    return Err(RecorderError::OutOfOrder { previous_ms, current_ms: record.received_at_ms });
                }
            },
            None => {},
        }
        let literal = match quote_json(record.payload.as_str()) {
            Ok(literal) => literal,
            Err(_) => return Err(RecorderError::Io),
        };
        let line = record_bytes(record.received_at_ms, literal.as_str());
        push_all(&mut self.writer, line.as_slice());
        self.last_received_at_ms = Some(record.received_at_ms);
        Ok(())
    }

    /// The bytes written.
    pub fn finish(self) -> (r: Result<Vec<u8>, RecorderError>)
        ensures
            r matches Ok(bytes) && bytes@ == self.written(),
    {
        Ok(self.writer)
    }
}

} // verus!
