//! The stored records, and the title a conversation takes from its first message.
use vstd::prelude::*;

use crate::text::{
    all_ws, chars_of, first_line, is_ws, lemma_first_line_stops_at_line_feed,
    lemma_trim_empty_iff_all_ws, lemma_trim_shape, line_end, take_chars, trim, trim_range,
};

verus! {

/// A stored conversation.
#[derive(Clone, Debug, PartialEq, Eq)]
pub struct ConversationRecord {
    pub id: String,
    pub title: String,
    /// Whether the title is a placeholder that the first message replaces.
    pub title_generated: bool,
    pub created_at: String,
    pub updated_at: String,
}

/// A stored message.
#[derive(Clone, Debug, PartialEq, Eq)]
pub struct MessageRecord {
    pub id: String,
    pub conversation_id: String,
    pub role: String,
    pub content: String,
    pub created_at: String,
}

/// The longest title, in characters, that a message gives a conversation.
pub const GENERATED_TITLE_MAX_CHARS: usize = 60;

/// The title a conversation takes from the message `content`: its first line,
/// trimmed and cut to 60 characters, or "New chat" where that leaves nothing.
pub open spec fn title_from(content: Seq<char>) -> Seq<char> {
    let line = trim(first_line(content));
    if line.len() == 0 {
        "New chat"@
    } else {
        take_chars(line, 60)
    }
}

/// The title a conversation takes from the message `content`.
pub fn title_from_content(content: &str) -> (title: String)
    ensures
        title@ == title_from(content@),
{
    let v = chars_of(content);
    let k = line_end(&v);
    let (a, b) = trim_range(&v, 0, k);
    assert(v@.subrange(0, k as int) =~= v@.take(k as int));
    if a == b {
        String::from_str("New chat")
    } else {
        let end = if b - a <= GENERATED_TITLE_MAX_CHARS {
            b
        } else {
            a + GENERATED_TITLE_MAX_CHARS
        };
        assert(v@.subrange(a as int, end as int) =~= take_chars(
            v@.subrange(a as int, b as int),
            60,
        ));
        String::from_str(content.substring_char(a, end))
    }
}

/// A title taken from a message is never empty, holds at most 60
/// characters and does not begin with white space.
pub proof fn lemma_generated_title_bounds(content: Seq<char>)
    ensures
        0 < title_from(content).len() <= 60,
        !is_ws(title_from(content)[0]),
{
    reveal_strlit("New chat");
    lemma_trim_shape(first_line(content));
    let line = trim(first_line(content));
    if line.len() > 0 && line.len() > 60 {
        assert(take_chars(line, 60)[0] == line[0]);
    }
}

/// A title depends on the first line of the message only: for a first line
/// `a` (no line feed) followed by anything, the title is that of `a`. A first
/// line that holds only white space gives "New chat"; any other gives its
/// trimmed text, cut to its first 60 characters.
pub proof fn lemma_title_from_first_line(a: Seq<char>, rest: Seq<char>)
    requires
        forall|i: int| 0 <= i < a.len() ==> #[trigger] a[i] != '\n',
    ensures
        title_from(a + seq!['\n'] + rest) == title_from(a),
        all_ws(a) ==> title_from(a) == "New chat"@,
        !all_ws(a) && trim(a).len() <= 60 ==> title_from(a) == trim(a),
        !all_ws(a) && trim(a).len() > 60 ==> title_from(a) == trim(a).take(60),
{
    lemma_first_line_stops_at_line_feed(a, rest);
    lemma_trim_empty_iff_all_ws(a);
}

/// The new title of `conversation` once `content` is sent to it: a title
/// still marked as generated is replaced, any other stays as it is.
pub fn title_update(conversation: &ConversationRecord, content: &str) -> (r: Option<String>)
    ensures
        r is None <==> !conversation.title_generated,
        r matches Some(t) ==> t@ == title_from(content@),
{
    if !conversation.title_generated {
        None
    } else {
        Some(title_from_content(content))
    }
}

} // verus!
