//! What clients send and receive.
use vstd::prelude::*;

use crate::db::{ConversationRecord, MessageRecord};

verus! {

/// A conversation as a client sees it.
#[derive(Clone, Debug, PartialEq, Eq)]
pub struct ConversationDto {
    pub id: String,
    pub title: String,
    pub created_at: String,
    pub updated_at: String,
}

impl From<ConversationRecord> for ConversationDto {
    fn from(value: ConversationRecord) -> (dto: ConversationDto) {
        ConversationDto {
            id: value.id,
            title: value.title,
            created_at: value.created_at,
            updated_at: value.updated_at,
        }
    }
}

impl vstd::std_specs::convert::FromSpecImpl<ConversationRecord> for ConversationDto {
    open spec fn obeys_from_spec() -> bool {
        true
    }

    open spec fn from_spec(value: ConversationRecord) -> ConversationDto {
        conversation_dto(value)
    }
}

/// A message as a client sees it.
#[derive(Clone, Debug, PartialEq, Eq)]
pub struct MessageDto {
    pub id: String,
    pub conversation_id: String,
    pub role: String,
    pub content: String,
    pub created_at: String,
}

impl From<MessageRecord> for MessageDto {
    fn from(value: MessageRecord) -> (dto: MessageDto) {
        MessageDto {
            id: value.id,
            conversation_id: value.conversation_id,
            role: value.role,
            content: value.content,
            created_at: value.created_at,
        }
    }
}

impl vstd::std_specs::convert::FromSpecImpl<MessageRecord> for MessageDto {
    open spec fn obeys_from_spec() -> bool {
        true
    }

    open spec fn from_spec(value: MessageRecord) -> MessageDto {
        message_dto(value)
    }
}

/// The body of a request that creates a conversation.
#[derive(Clone, Debug, PartialEq, Eq)]
pub struct CreateConversationRequest {
    pub title: Option<String>,
}

/// The body of a request that sends a message.
#[derive(Clone, Debug, PartialEq, Eq)]
pub struct SendMessageRequest {
    pub content: String,
}

/// The answer to a listing of conversations.
#[derive(Clone, Debug, PartialEq, Eq)]
pub struct ConversationListResponse {
    pub conversations: Vec<ConversationDto>,
}

/// The answer to the creation of a conversation.
#[derive(Clone, Debug, PartialEq, Eq)]
pub struct CreateConversationResponse {
    pub conversation: ConversationDto,
}

/// The answer to a listing of messages.
#[derive(Clone, Debug, PartialEq, Eq)]
pub struct MessageListResponse {
    pub messages: Vec<MessageDto>,
}

/// The answer to a message sent without streaming.
#[derive(Clone, Debug, PartialEq, Eq)]
pub struct SendMessageResponse {
    pub conversation: ConversationDto,
    pub user_message: MessageDto,
    pub assistant_message: MessageDto,
}

/// One line of a streamed answer.
#[derive(Clone, Debug, PartialEq, Eq)]
pub enum StreamEvent {
    UserMessage { message: MessageDto },
    Chunk { content: String },
    AssistantMessage { message: MessageDto },
    Done,
    Error { code: String, message: String },
}

/// A conversation as a client sees it, from its record.
pub open spec fn conversation_dto(value: ConversationRecord) -> ConversationDto {
    ConversationDto {
        id: value.id,
        title: value.title,
        created_at: value.created_at,
        updated_at: value.updated_at,
    }
}

/// A message as a client sees it, from its record.
pub open spec fn message_dto(value: MessageRecord) -> MessageDto {
    MessageDto {
        id: value.id,
        conversation_id: value.conversation_id,
        role: value.role,
        content: value.content,
        created_at: value.created_at,
    }
}

impl ConversationListResponse {
    /// The listing of the given conversations, in their order.
    pub fn from_records(records: Vec<ConversationRecord>) -> (r: ConversationListResponse)
        ensures
            r.conversations@ == records@.map_values(|c: ConversationRecord| conversation_dto(c)),
    {
        let ghost all = records@;
        let mut conversations: Vec<ConversationDto> = Vec::new();
        for record in iter: records
            invariant
                iter.seq() == all,
                conversations@ == all.take(iter.index() as int).map_values(
                    |c: ConversationRecord| conversation_dto(c),
                ),
        {
            proof {
                assert(all.take(iter.index() + 1) =~= all.take(iter.index() as int).push(record));
            }
            conversations.push(ConversationDto::from(record));
            proof {
                assert(conversations@ =~= all.take(iter.index() + 1).map_values(
                    |c: ConversationRecord| conversation_dto(c),
                ));
            }
        }
        assert(all.take(all.len() as int) =~= all);
        ConversationListResponse { conversations }
    }
}

impl MessageListResponse {
    /// The listing of the given messages, in their order.
    pub fn from_records(records: Vec<MessageRecord>) -> (r: MessageListResponse)
        ensures
            r.messages@ == records@.map_values(|m: MessageRecord| message_dto(m)),
    {
        let ghost all = records@;
        let mut messages: Vec<MessageDto> = Vec::new();
        for record in iter: records
            invariant
                iter.seq() == all,
                messages@ == all.take(iter.index() as int).map_values(
                    |m: MessageRecord| message_dto(m),
                ),
        {
            proof {
                assert(all.take(iter.index() + 1) =~= all.take(iter.index() as int).push(record));
            }
            messages.push(MessageDto::from(record));
            proof {
                assert(messages@ =~= all.take(iter.index() + 1).map_values(
                    |m: MessageRecord| message_dto(m),
                ));
            }
        }
        assert(all.take(all.len() as int) =~= all);
        MessageListResponse { messages }
    }
}

impl SendMessageResponse {
    /// The answer to a sent message: the conversation, the stored user
    /// message and the stored answer.
    pub fn from_records(
        conversation: ConversationRecord,
        user_message: MessageRecord,
        assistant_message: MessageRecord,
    ) -> (r: SendMessageResponse)
        ensures
            r.conversation == conversation_dto(conversation),
            r.user_message == message_dto(user_message),
            r.assistant_message == message_dto(assistant_message),
    {
        SendMessageResponse {
            conversation: ConversationDto::from(conversation),
            user_message: MessageDto::from(user_message),
            assistant_message: MessageDto::from(assistant_message),
        }
    }
}

impl CreateConversationResponse {
    /// The answer to the creation of `conversation`.
    pub fn from_record(conversation: ConversationRecord) -> (r: CreateConversationResponse)
        ensures
            r.conversation == conversation_dto(conversation),
    {
        CreateConversationResponse { conversation: ConversationDto::from(conversation) }
    }
}

} // verus!
