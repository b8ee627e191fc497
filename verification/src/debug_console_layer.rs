//! Turning a traced event into an event of the log bus.

use crate::debug_log_bus::{spec_to_uppercase, LogEvent, LogEventView};
use crate::text::str_equal;
use vstd::prelude::*;
use vstd::string::*;

verus! {

/// The layer that feeds the debug console.
#[derive(Debug)]
pub struct DebugConsoleLayer;

pub open spec fn fields_view(fields: Seq<(String, String)>) -> Seq<(Seq<char>, Seq<char>)> {
    Seq::new(fields.len(), |i: int| (fields[i].0@, fields[i].1@))
}

/// The text that the fields add to a message: ` name=value` for every field
/// but the one named `message`, in order.
pub open spec fn field_suffix(fields: Seq<(Seq<char>, Seq<char>)>) -> Seq<char>
    decreases fields.len(),
{
    if fields.len() == 0 {
        Seq::empty()
    } else if fields.last().0 == "message"@ {
        field_suffix(fields.drop_last())
    } else {
        field_suffix(fields.drop_last()) + " "@ + fields.last().0 + "="@ + fields.last().1
    }
}

/// A debug-formatted text without the quotes around it, if it has them.
pub open spec fn spec_unquote(text: Seq<char>) -> Seq<char> {
    if text.len() >= 2 && text[0] == '"' && text.last() == '"' {
        text.subrange(1, text.len() - 1)
    } else {
        text
    }
}

/// Removes the quotes that debug formatting puts around a text.
pub fn unquote(text: &str) -> (r: String)
    ensures
        r@ == spec_unquote(text@),
{
    let len = text.unicode_len();
    if len >= 2 && text.get_char(0) == '"' && text.get_char(len - 1) == '"' {
        text.substring_char(1, len - 1).to_owned()
    } else {
        text.to_owned()
    }
}

impl DebugConsoleLayer {
    pub fn new() -> Self {
        DebugConsoleLayer
    }

    /// The message of an event with its fields appended.
    pub fn compose_message(&self, message: &str, fields: &[(String, String)]) -> (r: String)
        ensures
            r@ == message@ + field_suffix(fields_view(fields@)),
    {
        let mut out = message.to_owned();
        let mut i: usize = 0;
        assert(fields_view(fields@).take(0) =~= Seq::<(Seq<char>, Seq<char>)>::empty());
        while i < fields.len()
            invariant
                i <= fields.len(),
                out@ == message@ + field_suffix(fields_view(fields@).take(i as int)),
            decreases fields.len() - i,
        {
            proof {
                let all = fields_view(fields@);
                assert(all.take(i + 1).drop_last() =~= all.take(i as int));
                assert(all.take(i + 1).last() == (fields@[i as int].0@, fields@[i as int].1@));
            }
            if !str_equal(fields[i].0.as_str(), "message") {
                out.append(" ");
                out.append(fields[i].0.as_str());
                out.append("=");
                out.append(fields[i].1.as_str());
                assert(out@ =~= message@ + field_suffix(fields_view(fields@).take(i + 1)));
            }
            i += 1;
        }
        assert(fields_view(fields@).take(i as int) =~= fields_view(fields@));
        out
    }

    /// The bus event of a traced event: its level in upper case, its target,
    /// its message with the fields appended, and the fields as JSON text
    /// where there are any.
    pub fn compose_event(
        &self,
        level: &str,
        target: &str,
        message: &str,
        fields: &[(String, String)],
        fields_json: Option<String>,
        timestamp: u64,
    ) -> (r: LogEvent)
        ensures
            r@ == (LogEventView {
                timestamp,
                level: spec_to_uppercase(level@),
                target: target@,
                message: message@ + field_suffix(fields_view(fields@)),
                thread_id: None,
                fields: if fields@.len() == 0 {
                    None
                } else {
                    crate::state::text_view(fields_json)
                },
            }),
    {
        let mut event = LogEvent::new(level, target, self.compose_message(message, fields), timestamp);
        if fields.len() > 0 {
            event.fields = fields_json;
        }
        event
    }
}

} // verus!
