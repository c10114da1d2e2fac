//! Request validation, and the decisions of the request handlers.
use vstd::prelude::*;

use crate::db::{ConversationRecord, MessageRecord};
use crate::error::AppError;
use crate::models::{message_dto, MessageDto, StreamEvent};
use crate::openrouter::{ChatProviderError, ProviderMessage};
use crate::text::{
    all_ws, chars_of, lemma_trim_empty_iff_all_ws, lemma_trim_idempotent, trim, trimmed_with_len,
};

verus! {

/// The title of a conversation created without one.
pub open spec fn default_title() -> Seq<char> {
    "New chat"@
}

/// The longest title, in characters, that a client may give.
pub const MAX_TITLE_CHARS: usize = 120;

/// The longest message, in characters, that a client may send.
pub const MAX_MESSAGE_CHARS: usize = 8000;

/// The outcome of `validate_title` on `title`: the title with whether it is
/// generated, or the message of the validation error.
pub open spec fn title_outcome(title: Option<String>) -> Result<(Seq<char>, bool), Seq<char>> {
    title_outcome_chars(crate::text::opt_chars(title))
}

/// The outcome of `validate_message` on `content`: the message to store, or
/// the message of the validation error.
pub open spec fn message_outcome(content: Seq<char>) -> Result<Seq<char>, Seq<char>> {
    if trim(content).len() == 0 {
        Err("message content cannot be blank"@)
    } else if trim(content).len() > 8000 {
        Err("message content cannot exceed 8000 characters"@)
    } else {
        Ok(trim(content))
    }
}

/// The outcome of `validate_title` on a title given by its characters.
pub open spec fn title_outcome_chars(title: Option<Seq<char>>) -> Result<(Seq<char>, bool), Seq<char>> {
    match title {
        None => Ok((default_title(), true)),
        Some(t) => if trim(t).len() == 0 {
            Err("title cannot be blank"@)
        } else if trim(t).len() > 120 {
            Err("title cannot exceed 120 characters"@)
        } else {
            Ok((trim(t), false))
        },
    }
}

/// A title that validation accepted is accepted again, unchanged, when it is
/// validated a second time; and it never begins or ends with white space.
pub proof fn lemma_title_validation_stable(t: Seq<char>)
    ensures
        title_outcome_chars(Some(t)) matches Ok((u, g)) ==> {
            &&& !g
            &&& title_outcome_chars(Some(u)) == Ok::<(Seq<char>, bool), Seq<char>>((u, false))
            &&& !crate::text::is_ws(u[0]) && !crate::text::is_ws(u.last())
        },
{
    lemma_trim_idempotent(t);
    crate::text::lemma_trim_shape(t);
}

/// A message is refused as blank exactly when it holds only white space;
/// any other message whose trimmed text has at most 8000 characters is
/// accepted as that trimmed text, and a longer one is refused as too long.
pub proof fn lemma_message_outcome(content: Seq<char>)
    ensures
        message_outcome(content) == Err::<Seq<char>, Seq<char>>("message content cannot be blank"@)
            <==> all_ws(content),
        !all_ws(content) && trim(content).len() <= 8000 ==> message_outcome(content) == Ok::<
            Seq<char>,
            Seq<char>,
        >(trim(content)),
        !all_ws(content) && trim(content).len() > 8000 ==> message_outcome(content) == Err::<
            Seq<char>,
            Seq<char>,
        >("message content cannot exceed 8000 characters"@),
{
    lemma_trim_empty_iff_all_ws(content);
    reveal_strlit("message content cannot be blank");
    reveal_strlit("message content cannot exceed 8000 characters");
    assert("message content cannot be blank"@ != "message content cannot exceed 8000 characters"@) by {
        assert("message content cannot be blank"@.len() != "message content cannot exceed 8000 characters"@.len());
    }
}

/// A title is refused as blank exactly when it is given and holds only white
/// space; any other given title whose trimmed text has at most 120 characters
/// is accepted as that trimmed text, and a missing one becomes the generated
/// "New chat".
pub proof fn lemma_title_outcome(title: Seq<char>)
    ensures
        title_outcome_chars(Some(title)) == Err::<(Seq<char>, bool), Seq<char>>(
            "title cannot be blank"@,
        ) <==> all_ws(title),
        !all_ws(title) && trim(title).len() <= 120 ==> title_outcome_chars(Some(title)) == Ok::<
            (Seq<char>, bool),
            Seq<char>,
        >((trim(title), false)),
        !all_ws(title) && trim(title).len() > 120 ==> title_outcome_chars(Some(title)) == Err::<
            (Seq<char>, bool),
            Seq<char>,
        >("title cannot exceed 120 characters"@),
        title_outcome_chars(None) == Ok::<(Seq<char>, bool), Seq<char>>(("New chat"@, true)),
{
    lemma_trim_empty_iff_all_ws(title);
    reveal_strlit("title cannot be blank");
    reveal_strlit("title cannot exceed 120 characters");
    assert("title cannot be blank"@ != "title cannot exceed 120 characters"@) by {
        assert("title cannot be blank"@.len() != "title cannot exceed 120 characters"@.len());
    }
}

/// A message that validation accepted is accepted again, unchanged, when it
/// is validated a second time; and it never begins or ends with white space.
pub proof fn lemma_message_validation_stable(content: Seq<char>)
    ensures
        message_outcome(content) matches Ok(c) ==> {
            &&& message_outcome(c) == Ok::<Seq<char>, Seq<char>>(c)
            &&& 0 < c.len() <= 8000
            &&& !crate::text::is_ws(c[0]) && !crate::text::is_ws(c.last())
        },
{
    lemma_trim_idempotent(content);
    crate::text::lemma_trim_shape(content);
}

/// Checks the title of a new conversation. Without one the conversation is
/// called "New chat" and its title is marked as generated; a given title is
/// trimmed and must hold between 1 and 120 characters.
pub fn validate_title(title: Option<String>) -> (r: Result<(String, bool), AppError>)
    ensures
        match (r, title_outcome(title)) {
            (Ok((t, g)), Ok((et, eg))) => t@ == et && g == eg,
            (Err(AppError::Validation(m)), Err(em)) => m@ == em,
            _ => false,
        },
{
    match title {
        None => Ok((String::from_str("New chat"), true)),
        Some(title) => {
            let (t, n) = trimmed_with_len(title.as_str());
            if n == 0 {
                Err(AppError::validation("title cannot be blank"))
            } else if n > MAX_TITLE_CHARS {
                Err(AppError::validation("title cannot exceed 120 characters"))
            } else {
                Ok((t, false))
            }
        },
    }
}

/// Checks the content of a message: it is trimmed and must hold between 1
/// and 8000 characters.
pub fn validate_message(content: String) -> (r: Result<String, AppError>)
    ensures
        match (r, message_outcome(content@)) {
            (Ok(c), Ok(ec)) => c@ == ec,
            (Err(AppError::Validation(m)), Err(em)) => m@ == em,
            _ => false,
        },
{
    let (c, n) = trimmed_with_len(content.as_str());
    if n == 0 {
        Err(AppError::validation("message content cannot be blank"))
    } else if n > MAX_MESSAGE_CHARS {
        Err(AppError::validation("message content cannot exceed 8000 characters"))
    } else {
        Ok(c)
    }
}


/// The conversation a request names, or the error that it does not exist.
pub fn ensure_conversation(found: Option<ConversationRecord>) -> (r: Result<
    ConversationRecord,
    AppError,
>)
    ensures
        match found {
            Some(c) => r == Ok::<ConversationRecord, AppError>(c),
            None => r matches Err(AppError::NotFound(m)) && m@ == "conversation not found"@,
        },
{
    match found {
        Some(conversation) => Ok(conversation),
        None => Err(AppError::not_found("conversation not found")),
    }
}

/// A conversation, and what the provider is asked for its next answer.
pub struct PreparedProviderTurn {
    pub conversation: ConversationRecord,
    pub provider_messages: Vec<ProviderMessage>,
}

/// The provider's view of a stored message: its role and its content.
pub open spec fn provider_view(m: MessageRecord) -> (Seq<char>, Seq<char>) {
    (m.role@, m.content@)
}

/// What the provider is asked: the conversation's messages in their order,
/// each with its role and content, then the new user message.
pub fn prepare_provider_turn(
    conversation: ConversationRecord,
    existing_messages: Vec<MessageRecord>,
    content: &str,
) -> (turn: PreparedProviderTurn)
    ensures
        turn.conversation == conversation,
        turn.provider_messages.len() == existing_messages.len() + 1,
        forall|i: int|
            0 <= i < existing_messages.len() ==> (#[trigger] turn.provider_messages[i]).role@
                == existing_messages[i].role@ && turn.provider_messages[i].content@
                == existing_messages[i].content@,
        turn.provider_messages[existing_messages.len() as int].role@ == "user"@,
        turn.provider_messages[existing_messages.len() as int].content@ == content@,
{
    let ghost all = existing_messages@;
    let mut provider_messages: Vec<ProviderMessage> = Vec::new();
    for message in iter: existing_messages
        invariant
            iter.seq() == all,
            provider_messages.len() == iter.index(),
            forall|i: int|
                0 <= i < iter.index() ==> (#[trigger] provider_messages[i]).role@ == all[i].role@
                    && provider_messages[i].content@ == all[i].content@,
    {
        provider_messages.push(ProviderMessage { role: message.role, content: message.content });
    }
    provider_messages.push(
        ProviderMessage { role: String::from_str("user"), content: String::from_str(content) },
    );
    PreparedProviderTurn { conversation, provider_messages }
}

/// The texts streamed so far, one after another.
pub open spec fn concat_chunks(chunks: Seq<Seq<char>>) -> Seq<char>
    decreases chunks.len(),
{
    if chunks.len() == 0 {
        Seq::empty()
    } else {
        concat_chunks(chunks.drop_last()) + chunks.last()
    }
}

/// Each streamed chunk adds itself, whole and unchanged, to the end of the
/// kept answer, whatever it holds (white space included); nothing streamed
/// means an empty answer.
pub proof fn lemma_concat_chunks_push(chunks: Seq<Seq<char>>, chunk: Seq<char>)
    ensures
        concat_chunks(chunks.push(chunk)) == concat_chunks(chunks) + chunk,
        concat_chunks(Seq::<Seq<char>>::empty()) == Seq::<char>::empty(),
        concat_chunks(chunks.push(chunk)).len() == concat_chunks(chunks).len() + chunk.len(),
{
    assert(chunks.push(chunk).drop_last() =~= chunks);
}

/// The answer of a streamed turn, as it is sent to the client line by line:
/// the stored user message, one chunk per piece of text from the provider,
/// then either the stored answer and the end, or an error.
pub struct StreamTurn {
    assistant_content: String,
    finished: bool,
    chunks: Ghost<Seq<Seq<char>>>,
}

impl StreamTurn {
    /// The kept answer is every chunk sent, in order.
    pub closed spec fn wf(self) -> bool {
        self.assistant_content@ == concat_chunks(self.chunks@)
    }

    /// The texts sent to the client as chunks, in order.
    pub closed spec fn streamed(self) -> Seq<Seq<char>> {
        self.chunks@
    }

    /// The answer kept so far, which is stored when the turn ends.
    pub closed spec fn answer(self) -> Seq<char> {
        self.assistant_content@
    }

    /// Whether the turn has sent its last line.
    pub closed spec fn is_finished(self) -> bool {
        self.finished
    }

    /// Starts the turn with the stored user message, which is the first line.
    pub fn start(user_message: MessageRecord) -> (r: (StreamTurn, StreamEvent))
        ensures
            r.0.wf(),
            r.0.streamed() == Seq::<Seq<char>>::empty(),
            r.0.answer() == Seq::<char>::empty(),
            !r.0.is_finished(),
            r.1 == (StreamEvent::UserMessage { message: message_dto(user_message) }),
    {
        let turn = StreamTurn {
            assistant_content: String::new(),
            finished: false,
            chunks: Ghost(Seq::empty()),
        };
        (turn, StreamEvent::UserMessage { message: MessageDto::from(user_message) })
    }

    /// A piece of the answer arrived: it is sent on as a chunk and kept.
    pub fn on_chunk(&mut self, content: String) -> (event: StreamEvent)
        requires
            old(self).wf(),
            !old(self).is_finished(),
        ensures
            final(self).wf(),
            final(self).streamed() == old(self).streamed().push(content@),
            final(self).answer() == old(self).answer() + content@,
            !final(self).is_finished(),
            event matches StreamEvent::Chunk { content: c } && c@ == content@,
    {
        let ghost before = self.chunks@;
        self.assistant_content.append(content.as_str());
        self.chunks = Ghost(before.push(content@));
        proof {
            assert(self.chunks@.drop_last() =~= before);
        }
        StreamEvent::Chunk { content }
    }

    /// The provider failed: the client gets its public message, and the turn
    /// ends without storing an answer.
    pub fn on_provider_error(&mut self, error: &ChatProviderError) -> (event: StreamEvent)
        requires
            old(self).wf(),
            !old(self).is_finished(),
            error.wf(),
        ensures
            final(self).wf(),
            final(self).streamed() == old(self).streamed(),
            final(self).answer() == old(self).answer(),
            final(self).is_finished(),
            event matches StreamEvent::Error { code, message } && code@ == "provider_error"@
                && message@ == error.public_text(),
    {
        self.finished = true;
        StreamEvent::Error {
            code: String::from_str("provider_error"),
            message: error.public_message(),
        }
    }

    /// The whole answer: every chunk sent, in order.
    pub fn assistant_content(&self) -> (content: &String)
        requires
            self.wf(),
        ensures
            content@ == concat_chunks(self.streamed()),
            content@ == self.answer(),
    {
        &self.assistant_content
    }

    /// The answer was stored, or storing it failed: the last lines of the turn.
    pub fn on_saved(&mut self, saved: Result<MessageRecord, AppError>) -> (events: Vec<StreamEvent>)
        requires
            old(self).wf(),
            !old(self).is_finished(),
            saved matches Err(e) ==> e.wf(),
        ensures
            final(self).wf(),
            final(self).streamed() == old(self).streamed(),
            final(self).is_finished(),
            match saved {
                Ok(m) => events@ == seq![
                    StreamEvent::AssistantMessage { message: message_dto(m) },
                    StreamEvent::Done,
                ],
                Err(e) => events.len() == 1 && (events[0] matches StreamEvent::Error {
                    code,
                    message,
                } && code@ == e.error_code() && message@ == e.public_text()),
            },
    {
        self.finished = true;
        let mut events: Vec<StreamEvent> = Vec::new();
        match saved {
            Ok(message) => {
                events.push(StreamEvent::AssistantMessage { message: MessageDto::from(message) });
                events.push(StreamEvent::Done);
            },
            Err(error) => {
                let detail = error.detail();
                events.push(StreamEvent::Error { code: detail.code, message: detail.message });
            },
        }
        events
    }
}

/// Whether a character may stand in an HTTP header value, as `http` decides
/// byte by byte: a tab, or anything from a space on except DEL.
pub open spec fn header_char_ok(c: char) -> bool {
    c == '\t' || (32 <= (c as u32) && (c as u32) != 127)
}

/// Whether `origin` may be sent as the allowed origin of a CORS response.
pub open spec fn valid_origin(origin: Seq<char>) -> bool {
    forall|i: int| 0 <= i < origin.len() ==> header_char_ok(#[trigger] origin[i])
}

/// Checks the origin that the frontend is served from, which answers carry
/// in a header.
pub fn check_frontend_origin(origin: &str) -> (r: Result<(), AppError>)
    ensures
        valid_origin(origin@) ==> r is Ok,
        !valid_origin(origin@) ==> (r matches Err(AppError::Config(m)) && m@
            == "FRONTEND_ORIGIN must be a valid HTTP origin"@),
{
    let v = chars_of(origin);
    let mut i: usize = 0;
    while i < v.len()
        invariant
            i <= v.len(),
            v@ == origin@,
            forall|k: int| 0 <= k < i ==> header_char_ok(#[trigger] v@[k]),
        decreases v.len() - i,
    {
        let c = v[i];
        let u = c as u32;
        if !(c == '\t' || (32 <= u && u != 127)) {
            return Err(AppError::config("FRONTEND_ORIGIN must be a valid HTTP origin"));
        }
        i = i + 1;
    }
    Ok(())
}

} // verus!
