//! Chats and messages of the chat service.
use crate::api::teams;
use crate::json;
use crate::json::{Fields, FieldsV, Json, JsonV};
use crate::text;
use crate::web;
use vstd::utf8::{char_is_scalar, encode_scalar, encode_utf8};
use vstd::prelude::*;

verus! {

/// What a conversation says of its thread.
pub struct ThreadProperties {
    pub topic: Option<String>,
    pub last_join_at: Option<String>,
    pub members: Option<String>,
}

/// The model of [`ThreadProperties`].
pub struct ThreadPropertiesV {
    pub topic: Option<Seq<char>>,
    pub last_join_at: Option<Seq<char>>,
    pub members: Option<Seq<char>>,
}

impl View for ThreadProperties {
    type V = ThreadPropertiesV;

    open spec fn view(&self) -> ThreadPropertiesV {
        ThreadPropertiesV {
            topic: text::opt_text(self.topic),
            last_join_at: text::opt_text(self.last_join_at),
            members: text::opt_text(self.members),
        }
    }
}

/// An optional [`ThreadProperties`] by its model.
pub open spec fn opt_thread_properties(o: Option<ThreadProperties>) -> Option<ThreadPropertiesV> {
    match o {
        Some(x) => Some(x@),
        None => None,
    }
}

/// How a JSON value reads as a [`ThreadProperties`]; nothing where it does not.
pub open spec fn thread_properties_of(v: JsonV) -> Option<ThreadPropertiesV> {
    if !json::record_form(v, 3, 3) {
        None
    } else {
        match (
            json::opt_text_member(json::member_of(v, "topic"@, 0)),
            json::opt_text_member(json::member_of(v, "lastjoinat"@, 1)),
            json::opt_text_member(json::member_of(v, "members"@, 2)),
        ) {
            (Some(topic), Some(last_join_at), Some(members)) => Some(
                ThreadPropertiesV { topic, last_join_at, members },
            ),
            _ => None,
        }
    }
}

/// Reads a [`ThreadProperties`].
pub fn read_thread_properties(v: &Json) -> (r: Option<ThreadProperties>)
    ensures
        match r {
            Some(x) => thread_properties_of(v@) == Some(x@),
            None => thread_properties_of(v@) is None,
        },
{
    if !json::has_record_form(v, 3, 3) {
        return None;
    }
    let topic = match json::read_opt_text(json::member(v, "topic", 0)) {
        Some(x) => x,
        None => {
            return None;
        },
    };
    let last_join_at = match json::read_opt_text(json::member(v, "lastjoinat", 1)) {
        Some(x) => x,
        None => {
            return None;
        },
    };
    let members = match json::read_opt_text(json::member(v, "members", 2)) {
        Some(x) => x,
        None => {
            return None;
        },
    };
    Some(ThreadProperties { topic, last_join_at, members })
}

/// How an optional member reads as a [`ThreadProperties`].
pub open spec fn opt_thread_properties_member(m: Option<JsonV>) -> Option<
    Option<ThreadPropertiesV>,
> {
    match m {
        None => Some(None),
        Some(JsonV::Null) => Some(None),
        Some(j) => match thread_properties_of(j) {
            Some(x) => Some(Some(x)),
            None => None,
        },
    }
}

fn read_opt_thread_properties(m: Option<&Json>) -> (r: Option<Option<ThreadProperties>>)
    ensures
        match r {
            Some(o) => opt_thread_properties_member(json::opt_json(m)) == Some(
                opt_thread_properties(o),
            ),
            None => opt_thread_properties_member(json::opt_json(m)) is None,
        },
{
    match m {
        None => Some(None),
        Some(j) => if j.is_null() {
            Some(None)
        } else {
            match read_thread_properties(j) {
                Some(x) => Some(Some(x)),
                None => None,
            }
        },
    }
}
/// A message as the chat service sends it.
pub struct NativeMessage {
    pub id: Option<String>,
    pub compose_time: Option<String>,
    pub original_arrival_time: Option<String>,
    pub im_display_name: Option<String>,
    pub content: Option<String>,
    pub messagetype: Option<String>,
    pub from: Option<String>,
}

/// The model of [`NativeMessage`].
pub struct NativeMessageV {
    pub id: Option<Seq<char>>,
    pub compose_time: Option<Seq<char>>,
    pub original_arrival_time: Option<Seq<char>>,
    pub im_display_name: Option<Seq<char>>,
    pub content: Option<Seq<char>>,
    pub messagetype: Option<Seq<char>>,
    pub from: Option<Seq<char>>,
}

impl View for NativeMessage {
    type V = NativeMessageV;

    open spec fn view(&self) -> NativeMessageV {
        NativeMessageV {
            id: text::opt_text(self.id),
            compose_time: text::opt_text(self.compose_time),
            original_arrival_time: text::opt_text(self.original_arrival_time),
            im_display_name: text::opt_text(self.im_display_name),
            content: text::opt_text(self.content),
            messagetype: text::opt_text(self.messagetype),
            from: text::opt_text(self.from),
        }
    }
}

/// An optional [`NativeMessage`] by its model.
pub open spec fn opt_native_message(o: Option<NativeMessage>) -> Option<NativeMessageV> {
    match o {
        Some(x) => Some(x@),
        None => None,
    }
}

/// A list of [`NativeMessage`] by their models.
pub open spec fn native_message_views(v: Seq<NativeMessage>) -> Seq<NativeMessageV> {
    Seq::new(v.len(), |i: int| v[i]@)
}

/// How a JSON value reads as a [`NativeMessage`]; nothing where it does not.
pub open spec fn native_message_of(v: JsonV) -> Option<NativeMessageV> {
    if !json::record_form(v, 7, 7) {
        None
    } else {
        match (
            json::opt_text_member(json::member_of(v, "id"@, 0)),
            json::opt_text_member(json::member_of(v, "composetime"@, 1)),
            json::opt_text_member(json::member_of(v, "originalarrivaltime"@, 2)),
            json::opt_text_member(json::member_of(v, "imdisplayname"@, 3)),
            json::opt_text_member(json::member_of(v, "content"@, 4)),
            json::opt_text_member(json::member_of(v, "messagetype"@, 5)),
            json::opt_text_member(json::member_of(v, "from"@, 6)),
        ) {
            (
                Some(id),
                Some(compose_time),
                Some(original_arrival_time),
                Some(im_display_name),
                Some(content),
                Some(messagetype),
                Some(from),
            ) => Some(
                NativeMessageV {
                    id,
                    compose_time,
                    original_arrival_time,
                    im_display_name,
                    content,
                    messagetype,
                    from,
                },
            ),
            _ => None,
        }
    }
}

/// Reads a [`NativeMessage`].
pub fn read_native_message(v: &Json) -> (r: Option<NativeMessage>)
    ensures
        match r {
            Some(x) => native_message_of(v@) == Some(x@),
            None => native_message_of(v@) is None,
        },
{
    if !json::has_record_form(v, 7, 7) {
        return None;
    }
    let id = match json::read_opt_text(json::member(v, "id", 0)) {
        Some(x) => x,
        None => {
            return None;
        },
    };
    let compose_time = match json::read_opt_text(json::member(v, "composetime", 1)) {
        Some(x) => x,
        None => {
            return None;
        },
    };
    let original_arrival_time = match json::read_opt_text(json::member(
        v, "originalarrivaltime", 2),
    ) {
        Some(x) => x,
        None => {
            return None;
        },
    };
    let im_display_name = match json::read_opt_text(json::member(v, "imdisplayname", 3)) {
        Some(x) => x,
        None => {
            return None;
        },
    };
    let content = match json::read_opt_text(json::member(v, "content", 4)) {
        Some(x) => x,
        None => {
            return None;
        },
    };
    let messagetype = match json::read_opt_text(json::member(v, "messagetype", 5)) {
        Some(x) => x,
        None => {
            return None;
        },
    };
    let from = match json::read_opt_text(json::member(v, "from", 6)) {
        Some(x) => x,
        None => {
            return None;
        },
    };
    Some(
        NativeMessage {
            id,
            compose_time,
            original_arrival_time,
            im_display_name,
            content,
            messagetype,
            from,
        },
    )
}

/// How an optional member reads as a [`NativeMessage`].
pub open spec fn opt_native_message_member(m: Option<JsonV>) -> Option<Option<NativeMessageV>> {
    match m {
        None => Some(None),
        Some(JsonV::Null) => Some(None),
        Some(j) => match native_message_of(j) {
            Some(x) => Some(Some(x)),
            None => None,
        },
    }
}

fn read_opt_native_message(m: Option<&Json>) -> (r: Option<Option<NativeMessage>>)
    ensures
        match r {
            Some(o) => opt_native_message_member(json::opt_json(m)) == Some(opt_native_message(o)),
            None => opt_native_message_member(json::opt_json(m)) is None,
        },
{
    match m {
        None => Some(None),
        Some(j) => if j.is_null() {
            Some(None)
        } else {
            match read_native_message(j) {
                Some(x) => Some(Some(x)),
                None => None,
            }
        },
    }
}

/// How a list of JSON values reads as a list of [`NativeMessage`]: all of them or none.
pub open spec fn native_message_list(a: Seq<JsonV>) -> Option<Seq<NativeMessageV>>
    decreases a.len(),
{
    if a.len() == 0 {
        Some(Seq::empty())
    } else {
        match (native_message_list(a.drop_last()), native_message_of(a.last())) {
            (Some(l), Some(x)) => Some(l.push(x)),
            _ => None,
        }
    }
}

proof fn lemma_native_message_list_prefix(a: Seq<JsonV>, i: int)
    requires
        0 <= i <= a.len(),
        native_message_list(a.take(i)) is None,
    ensures
        native_message_list(a) is None,
    decreases a.len() - i,
{
    if i < a.len() {
        assert(a.take(i + 1).drop_last() =~= a.take(i));
        lemma_native_message_list_prefix(a, i + 1);
    } else {
        assert(a.take(i) =~= a);
    }
}

fn read_native_message_list(a: &Vec<Json>) -> (r: Option<Vec<NativeMessage>>)
    ensures
        match r {
            Some(l) => native_message_list(json::items_view(a@)) == Some(native_message_views(l@)),
            None => native_message_list(json::items_view(a@)) is None,
        },
{
    let ghost all = json::items_view(a@);
    let mut out: Vec<NativeMessage> = Vec::new();
    let mut i: usize = 0;
    proof {
        assert(all.take(0) =~= Seq::empty());
        assert(native_message_views(out@) =~= Seq::empty());
    }
    while i < a.len()
        invariant
            i <= a@.len(),
            all == json::items_view(a@),
            native_message_list(all.take(i as int)) == Some(native_message_views(out@)),
        decreases a@.len() - i,
    {
        proof {
            assert(all.take(i + 1).drop_last() =~= all.take(i as int));
            assert(all.take(i + 1).last() == a@[i as int]@);
        }
        match read_native_message(&a[i]) {
            Some(x) => {
                let ghost before = out@;
                out.push(x);
                proof {
                    assert(native_message_views(out@) =~= native_message_views(before).push(x@));
                }
            },
            None => {
                proof {
                    lemma_native_message_list_prefix(all, i + 1);
                }
                return None;
            },
        }
        i = i + 1;
    }
    proof {
        assert(all.take(i as int) =~= all);
    }
    Some(out)
}

/// How an optional list member reads.
pub open spec fn opt_native_message_list_member(m: Option<JsonV>) -> Option<
    Option<Seq<NativeMessageV>>,
> {
    match m {
        None => Some(None),
        Some(JsonV::Null) => Some(None),
        Some(JsonV::Arr(a)) => match native_message_list(a) {
            Some(l) => Some(Some(l)),
            None => None,
        },
        _ => None,
    }
}

fn read_opt_native_message_list(m: Option<&Json>) -> (r: Option<Option<Vec<NativeMessage>>>)
    ensures
        match r {
            Some(Some(l)) => opt_native_message_list_member(json::opt_json(m)) == Some(
                Some(native_message_views(l@)),
            ),
            Some(None) => opt_native_message_list_member(json::opt_json(m)) == Some(
                None::<Seq<NativeMessageV>>,
            ),
            None => opt_native_message_list_member(json::opt_json(m)) is None,
        },
{
    match m {
        None => Some(None),
        Some(Json::Null) => Some(None),
        Some(Json::Arr(a)) => {
            proof {
                json::lemma_arr_view(*a);
            }
            match read_native_message_list(a) {
                Some(l) => Some(Some(l)),
                None => None,
            }
        },
        _ => None,
    }
}
/// A conversation as the chat service sends it.
pub struct Conversation {
    pub id: Option<String>,
    pub thread_properties: Option<ThreadProperties>,
    pub last_message: Option<NativeMessage>,
}

/// The model of [`Conversation`].
pub struct ConversationV {
    pub id: Option<Seq<char>>,
    pub thread_properties: Option<ThreadPropertiesV>,
    pub last_message: Option<NativeMessageV>,
}

impl View for Conversation {
    type V = ConversationV;

    open spec fn view(&self) -> ConversationV {
        ConversationV {
            id: text::opt_text(self.id),
            thread_properties: opt_thread_properties(self.thread_properties),
            last_message: opt_native_message(self.last_message),
        }
    }
}

/// A list of [`Conversation`] by their models.
pub open spec fn conversation_views(v: Seq<Conversation>) -> Seq<ConversationV> {
    Seq::new(v.len(), |i: int| v[i]@)
}

/// How a JSON value reads as a [`Conversation`]; nothing where it does not.
pub open spec fn conversation_of(v: JsonV) -> Option<ConversationV> {
    if !json::record_form(v, 3, 3) {
        None
    } else {
        match (
            json::opt_text_member(json::member_of(v, "id"@, 0)),
            opt_thread_properties_member(json::member_of(v, "threadProperties"@, 1)),
            opt_native_message_member(json::member_of(v, "lastMessage"@, 2)),
        ) {
            (Some(id), Some(thread_properties), Some(last_message)) => Some(
                ConversationV { id, thread_properties, last_message },
            ),
            _ => None,
        }
    }
}

/// Reads a [`Conversation`].
pub fn read_conversation(v: &Json) -> (r: Option<Conversation>)
    ensures
        match r {
            Some(x) => conversation_of(v@) == Some(x@),
            None => conversation_of(v@) is None,
        },
{
    if !json::has_record_form(v, 3, 3) {
        return None;
    }
    let id = match json::read_opt_text(json::member(v, "id", 0)) {
        Some(x) => x,
        None => {
            return None;
        },
    };
    let thread_properties = match read_opt_thread_properties(json::member(
        v, "threadProperties", 1),
    ) {
        Some(x) => x,
        None => {
            return None;
        },
    };
    let last_message = match read_opt_native_message(json::member(v, "lastMessage", 2)) {
        Some(x) => x,
        None => {
            return None;
        },
    };
    Some(Conversation { id, thread_properties, last_message })
}

/// How a list of JSON values reads as a list of [`Conversation`]: all of them or none.
pub open spec fn conversation_list(a: Seq<JsonV>) -> Option<Seq<ConversationV>>
    decreases a.len(),
{
    if a.len() == 0 {
        Some(Seq::empty())
    } else {
        match (conversation_list(a.drop_last()), conversation_of(a.last())) {
            (Some(l), Some(x)) => Some(l.push(x)),
            _ => None,
        }
    }
}

proof fn lemma_conversation_list_prefix(a: Seq<JsonV>, i: int)
    requires
        0 <= i <= a.len(),
        conversation_list(a.take(i)) is None,
    ensures
        conversation_list(a) is None,
    decreases a.len() - i,
{
    if i < a.len() {
        assert(a.take(i + 1).drop_last() =~= a.take(i));
        lemma_conversation_list_prefix(a, i + 1);
    } else {
        assert(a.take(i) =~= a);
    }
}

fn read_conversation_list(a: &Vec<Json>) -> (r: Option<Vec<Conversation>>)
    ensures
        match r {
            Some(l) => conversation_list(json::items_view(a@)) == Some(conversation_views(l@)),
            None => conversation_list(json::items_view(a@)) is None,
        },
{
    let ghost all = json::items_view(a@);
    let mut out: Vec<Conversation> = Vec::new();
    let mut i: usize = 0;
    proof {
        assert(all.take(0) =~= Seq::empty());
        assert(conversation_views(out@) =~= Seq::empty());
    }
    while i < a.len()
        invariant
            i <= a@.len(),
            all == json::items_view(a@),
            conversation_list(all.take(i as int)) == Some(conversation_views(out@)),
        decreases a@.len() - i,
    {
        proof {
            assert(all.take(i + 1).drop_last() =~= all.take(i as int));
            assert(all.take(i + 1).last() == a@[i as int]@);
        }
        match read_conversation(&a[i]) {
            Some(x) => {
                let ghost before = out@;
                out.push(x);
                proof {
                    assert(conversation_views(out@) =~= conversation_views(before).push(x@));
                }
            },
            None => {
                proof {
                    lemma_conversation_list_prefix(all, i + 1);
                }
                return None;
            },
        }
        i = i + 1;
    }
    proof {
        assert(all.take(i as int) =~= all);
    }
    Some(out)
}

/// How an optional list member reads.
pub open spec fn opt_conversation_list_member(m: Option<JsonV>) -> Option<
    Option<Seq<ConversationV>>,
> {
    match m {
        None => Some(None),
        Some(JsonV::Null) => Some(None),
        Some(JsonV::Arr(a)) => match conversation_list(a) {
            Some(l) => Some(Some(l)),
            None => None,
        },
        _ => None,
    }
}

fn read_opt_conversation_list(m: Option<&Json>) -> (r: Option<Option<Vec<Conversation>>>)
    ensures
        match r {
            Some(Some(l)) => opt_conversation_list_member(json::opt_json(m)) == Some(
                Some(conversation_views(l@)),
            ),
            Some(None) => opt_conversation_list_member(json::opt_json(m)) == Some(
                None::<Seq<ConversationV>>,
            ),
            None => opt_conversation_list_member(json::opt_json(m)) is None,
        },
{
    match m {
        None => Some(None),
        Some(Json::Null) => Some(None),
        Some(Json::Arr(a)) => {
            proof {
                json::lemma_arr_view(*a);
            }
            match read_conversation_list(a) {
                Some(l) => Some(Some(l)),
                None => None,
            }
        },
        _ => None,
    }
}
/// The reply to a request for conversations.
pub struct ConversationsResponse {
    pub conversations: Option<Vec<Conversation>>,
}

/// The model of [`ConversationsResponse`].
pub struct ConversationsResponseV {
    pub conversations: Option<Seq<ConversationV>>,
}

impl View for ConversationsResponse {
    type V = ConversationsResponseV;

    open spec fn view(&self) -> ConversationsResponseV {
        ConversationsResponseV {
            conversations: match self.conversations {
                Some(a) => Some(conversation_views(a@)),
                None => None,
            },
        }
    }
}

/// How a JSON value reads as a [`ConversationsResponse`]; nothing where it does not.
pub open spec fn conversations_response_of(v: JsonV) -> Option<ConversationsResponseV> {
    if !json::record_form(v, 1, 1) {
        None
    } else {
        match opt_conversation_list_member(json::member_of(v, "conversations"@, 0)) {
            Some(conversations) => Some(ConversationsResponseV { conversations }),
            None => None,
        }
    }
}

/// Reads a [`ConversationsResponse`].
pub fn read_conversations_response(v: &Json) -> (r: Option<ConversationsResponse>)
    ensures
        match r {
            Some(x) => conversations_response_of(v@) == Some(x@),
            None => conversations_response_of(v@) is None,
        },
{
    if !json::has_record_form(v, 1, 1) {
        return None;
    }
    let conversations = match read_opt_conversation_list(json::member(v, "conversations", 0)) {
        Some(x) => x,
        None => {
            return None;
        },
    };
    Some(ConversationsResponse { conversations })
}
/// What a page of messages says of the page before it.
pub struct MessagesMetadata {
    pub backward_link: Option<String>,
}

/// The model of [`MessagesMetadata`].
pub struct MessagesMetadataV {
    pub backward_link: Option<Seq<char>>,
}

impl View for MessagesMetadata {
    type V = MessagesMetadataV;

    open spec fn view(&self) -> MessagesMetadataV {
        MessagesMetadataV {
            backward_link: text::opt_text(self.backward_link),
        }
    }
}

/// An optional [`MessagesMetadata`] by its model.
pub open spec fn opt_messages_metadata(o: Option<MessagesMetadata>) -> Option<MessagesMetadataV> {
    match o {
        Some(x) => Some(x@),
        None => None,
    }
}

/// How a JSON value reads as a [`MessagesMetadata`]; nothing where it does not.
pub open spec fn messages_metadata_of(v: JsonV) -> Option<MessagesMetadataV> {
    if !json::record_form(v, 1, 1) {
        None
    } else {
        match json::opt_text_member(json::member_of(v, "backwardLink"@, 0)) {
            Some(backward_link) => Some(MessagesMetadataV { backward_link }),
            None => None,
        }
    }
}

/// Reads a [`MessagesMetadata`].
pub fn read_messages_metadata(v: &Json) -> (r: Option<MessagesMetadata>)
    ensures
        match r {
            Some(x) => messages_metadata_of(v@) == Some(x@),
            None => messages_metadata_of(v@) is None,
        },
{
    if !json::has_record_form(v, 1, 1) {
        return None;
    }
    let backward_link = match json::read_opt_text(json::member(v, "backwardLink", 0)) {
        Some(x) => x,
        None => {
            return None;
        },
    };
    Some(MessagesMetadata { backward_link })
}

/// How an optional member reads as a [`MessagesMetadata`].
pub open spec fn opt_messages_metadata_member(m: Option<JsonV>) -> Option<
    Option<MessagesMetadataV>,
> {
    match m {
        None => Some(None),
        Some(JsonV::Null) => Some(None),
        Some(j) => match messages_metadata_of(j) {
            Some(x) => Some(Some(x)),
            None => None,
        },
    }
}

fn read_opt_messages_metadata(m: Option<&Json>) -> (r: Option<Option<MessagesMetadata>>)
    ensures
        match r {
            Some(o) => opt_messages_metadata_member(json::opt_json(m)) == Some(
                opt_messages_metadata(o),
            ),
            None => opt_messages_metadata_member(json::opt_json(m)) is None,
        },
{
    match m {
        None => Some(None),
        Some(j) => if j.is_null() {
            Some(None)
        } else {
            match read_messages_metadata(j) {
                Some(x) => Some(Some(x)),
                None => None,
            }
        },
    }
}
/// The reply to a request for messages.
pub struct MessagesResponse {
    pub messages: Option<Vec<NativeMessage>>,
    pub metadata: Option<MessagesMetadata>,
}

/// The model of [`MessagesResponse`].
pub struct MessagesResponseV {
    pub messages: Option<Seq<NativeMessageV>>,
    pub metadata: Option<MessagesMetadataV>,
}

impl View for MessagesResponse {
    type V = MessagesResponseV;

    open spec fn view(&self) -> MessagesResponseV {
        MessagesResponseV {
            messages: match self.messages {
                Some(a) => Some(native_message_views(a@)),
                None => None,
            },
            metadata: opt_messages_metadata(self.metadata),
        }
    }
}

/// How a JSON value reads as a [`MessagesResponse`]; nothing where it does not.
pub open spec fn messages_response_of(v: JsonV) -> Option<MessagesResponseV> {
    if !json::record_form(v, 2, 2) {
        None
    } else {
        match (
            opt_native_message_list_member(json::member_of(v, "messages"@, 0)),
            opt_messages_metadata_member(json::member_of(v, "_metadata"@, 1)),
        ) {
            (Some(messages), Some(metadata)) => Some(MessagesResponseV { messages, metadata }),
            _ => None,
        }
    }
}

/// Reads a [`MessagesResponse`].
pub fn read_messages_response(v: &Json) -> (r: Option<MessagesResponse>)
    ensures
        match r {
            Some(x) => messages_response_of(v@) == Some(x@),
            None => messages_response_of(v@) is None,
        },
{
    if !json::has_record_form(v, 2, 2) {
        return None;
    }
    let messages = match read_opt_native_message_list(json::member(v, "messages", 0)) {
        Some(x) => x,
        None => {
            return None;
        },
    };
    let metadata = match read_opt_messages_metadata(json::member(v, "_metadata", 1)) {
        Some(x) => x,
        None => {
            return None;
        },
    };
    Some(MessagesResponse { messages, metadata })
}

// -- Chats --

/// What a list of chats shows of one.
pub struct ChatInfo {
    pub id: String,
    pub name: String,
    pub is_group: bool,
    pub last_message_time: Option<String>,
    pub last_message_sender: Option<String>,
    pub last_message_preview: Option<String>,
}

/// The model of [`ChatInfo`].
pub struct ChatInfoV {
    pub id: Seq<char>,
    pub name: Seq<char>,
    pub is_group: bool,
    pub last_message_time: Option<Seq<char>>,
    pub last_message_sender: Option<Seq<char>>,
    pub last_message_preview: Option<Seq<char>>,
}

impl View for ChatInfo {
    type V = ChatInfoV;

    open spec fn view(&self) -> ChatInfoV {
        ChatInfoV {
            id: self.id@,
            name: self.name@,
            is_group: self.is_group,
            last_message_time: text::opt_text(self.last_message_time),
            last_message_sender: text::opt_text(self.last_message_sender),
            last_message_preview: text::opt_text(self.last_message_preview),
        }
    }
}
/// A list of [`ChatInfo`] by their models.
pub open spec fn chat_info_views(v: Seq<ChatInfo>) -> Seq<ChatInfoV> {
    Seq::new(v.len(), |i: int| v[i]@)
}

/// An optional text, where it is not empty.
pub open spec fn filled(o: Option<Seq<char>>) -> Option<Seq<char>> {
    match o {
        Some(s) => if s.len() > 0 {
            Some(s)
        } else {
            None
        },
        None => None,
    }
}

/// The topic of a conversation, where it has one.
pub open spec fn topic_of(c: ConversationV) -> Option<Seq<char>> {
    match c.thread_properties {
        Some(p) => filled(p.topic),
        None => None,
    }
}

/// The sender of a conversation's last message, where it has a name.
pub open spec fn last_sender_of(c: ConversationV) -> Option<Seq<char>> {
    match c.last_message {
        Some(m) => filled(m.im_display_name),
        None => None,
    }
}

/// The name that a conversation is shown by: its topic, else the sender of its
/// last message, else its id.
pub open spec fn shown_name(c: ConversationV) -> Seq<char> {
    match topic_of(c) {
        Some(t) => t,
        None => match last_sender_of(c) {
            Some(n) => n,
            None => match c.id {
                Some(id) => id,
                None => "[unknown]"@,
            },
        },
    }
}

/// The time of a message: of its arrival, else of its writing.
pub open spec fn time_of(m: NativeMessageV) -> Option<Seq<char>> {
    match m.original_arrival_time {
        Some(t) => Some(t),
        None => m.compose_time,
    }
}

/// The bytes of a character.
pub open spec fn char_width(c: char) -> int {
    encode_scalar(c as u32).len() as int
}

/// The number of characters from the start that fit in `n` bytes.
pub open spec fn chars_within(s: Seq<char>, n: int) -> nat
    decreases s.len(),
{
    if s.len() == 0 || char_width(s[0]) > n {
        0
    } else {
        1 + chars_within(s.skip(1), n - char_width(s[0]))
    }
}

/// A text of more than 80 bytes cut to at most 77 and dots.
pub open spec fn cut_preview(s: Seq<char>) -> Seq<char> {
    if encode_utf8(s).len() > 80 {
        s.take(chars_within(s, 77) as int) + "..."@
    } else {
        s
    }
}

/// What a list of chats shows of a conversation; nothing of one without an id.
pub open spec fn chat_info_of(c: ConversationV) -> Option<ChatInfoV> {
    match filled(c.id) {
        None => None,
        Some(id) => Some(
            ChatInfoV {
                id,
                name: shown_name(c),
                is_group: text::contains_text(id, "thread"@) || text::contains_text(
                    id,
                    "meeting"@,
                ),
                last_message_time: match c.last_message {
                    Some(m) => time_of(m),
                    None => None,
                },
                last_message_sender: match c.last_message {
                    Some(m) => m.im_display_name,
                    None => None,
                },
                last_message_preview: match c.last_message {
                    Some(m) => match m.content {
                        Some(h) => Some(cut_preview(web::visible_text(h, ""@))),
                        None => None,
                    },
                    None => None,
                },
            },
        ),
    }
}

/// Takes the tags out of HTML and decodes the common entities.
pub fn strip_html(html: &str) -> (r: String)
    ensures
        r@ == web::visible_text(html@, ""@),
{
    web::strip_tags(html, "")
}

/// The name that a conversation is shown by.
pub fn conversation_name(conv: &Conversation) -> (r: String)
    ensures
        r@ == shown_name(conv@),
{
    if let Some(props) = &conv.thread_properties {
        if let Some(topic) = &props.topic {
            if !topic.as_str().is_empty() {
                return topic.clone();
            }
        }
    }
    if let Some(msg) = &conv.last_message {
        if let Some(name) = &msg.im_display_name {
            if !name.as_str().is_empty() {
                return name.clone();
            }
        }
    }
    match &conv.id {
        Some(id) => id.clone(),
        None => "[unknown]".to_string(),
    }
}

fn width_of(c: char) -> (r: usize)
    ensures
        r == char_width(c),
        1 <= r <= 4,
{
    proof {
        char_is_scalar(c);
    }
    let u: u32 = c as u32;
    if u < 0x80 {
        1
    } else if u < 0x800 {
        2
    } else if u < 0x10000 {
        3
    } else {
        4
    }
}

fn preview(s: &str) -> (r: String)
    ensures
        r@ == cut_preview(s@),
{
    if s.as_bytes().len() <= 80 {
        return s.to_string();
    }
    let v = text::chars_of(s);
    let n: usize = v.len();
    let mut k: usize = 0;
    let mut left: usize = 77;
    proof {
        assert(v@.skip(0) =~= v@);
    }
    while k < n && width_of(v[k]) <= left
        invariant
            k <= n,
            n == v@.len(),
            left <= 77,
            k + chars_within(v@.skip(k as int), left as int) == chars_within(v@, 77),
        decreases n - k,
    {
        proof {
            assert(v@.skip(k as int).skip(1) =~= v@.skip(k + 1));
            assert(v@.skip(k as int)[0] == v@[k as int]);
        }
        left = left - width_of(v[k]);
        k = k + 1;
    }
    proof {
        if k < n {
            assert(v@.skip(k as int)[0] == v@[k as int]);
        }
        assert(chars_within(v@.skip(k as int), left as int) == 0);
        assert(v@.subrange(0, k as int) =~= v@.take(k as int));
    }
    let head = text::text_of(&v, 0, k);
    text::join2(head.as_str(), "...")
}

fn message_time(m: &NativeMessage) -> (r: Option<String>)
    ensures
        text::opt_text(r) == time_of(m@),
{
    match &m.original_arrival_time {
        Some(t) => Some(t.clone()),
        None => text::copy_opt(&m.compose_time),
    }
}

/// What a list of chats shows of a conversation; nothing of one without an id.
pub fn chat_info(conv: &Conversation) -> (r: Option<ChatInfo>)
    ensures
        match r {
            Some(x) => chat_info_of(conv@) == Some(x@),
            None => chat_info_of(conv@) is None,
        },
{
    let id = match &conv.id {
        Some(id) => if id.as_str().is_empty() {
            return None;
        } else {
            id.clone()
        },
        None => {
            return None;
        },
    };
    let name = conversation_name(conv);
    let is_group = text::contains(id.as_str(), "thread") || text::contains(id.as_str(), "meeting");
    let (last_message_time, last_message_sender, last_message_preview) = match &conv.last_message {
        Some(m) => {
            let shown = match &m.content {
                Some(h) => {
                    let t = strip_html(h.as_str());
                    Some(preview(t.as_str()))
                },
                None => None,
            };
            (message_time(m), text::copy_opt(&m.im_display_name), shown)
        },
        None => (None, None, None),
    };
    Some(
        ChatInfo {
            id,
            name,
            is_group,
            last_message_time,
            last_message_sender,
            last_message_preview,
        },
    )
}
/// What a list of chats shows of the conversations that have an id, in order.
pub open spec fn chat_rows(v: Seq<ConversationV>) -> Seq<ChatInfoV>
    decreases v.len(),
{
    if v.len() == 0 {
        Seq::empty()
    } else {
        match chat_info_of(v.last()) {
            Some(x) => chat_rows(v.drop_last()).push(x),
            None => chat_rows(v.drop_last()),
        }
    }
}

/// What a list of chats shows of the conversations that have an id, in order.
pub fn chat_infos(v: &Vec<Conversation>) -> (r: Vec<ChatInfo>)
    ensures
        chat_info_views(r@) == chat_rows(conversation_views(v@)),
{
    let ghost all = conversation_views(v@);
    let mut out: Vec<ChatInfo> = Vec::new();
    let mut i: usize = 0;
    proof {
        assert(all.take(0) =~= Seq::empty());
        assert(chat_info_views(out@) =~= Seq::empty());
    }
    while i < v.len()
        invariant
            i <= v@.len(),
            all == conversation_views(v@),
            chat_info_views(out@) == chat_rows(all.take(i as int)),
        decreases v@.len() - i,
    {
        proof {
            assert(all.take(i + 1).drop_last() =~= all.take(i as int));
            assert(all.take(i + 1).last() == v@[i as int]@);
        }
        match chat_info(&v[i]) {
            Some(x) => {
                let ghost before = out@;
                out.push(x);
                proof {
                    assert(chat_info_views(out@) =~= chat_info_views(before).push(x@));
                }
            },
            None => {},
        }
        i = i + 1;
    }
    proof {
        assert(all.take(i as int) =~= all);
    }
    out
}

/// The chats of a reply, by its JSON value; nothing where it is of another form.
pub open spec fn chats_of(v: JsonV) -> Option<Seq<ChatInfoV>> {
    match conversations_response_of(v) {
        Some(x) => Some(
            match x.conversations {
                Some(l) => chat_rows(l),
                None => Seq::empty(),
            },
        ),
        None => None,
    }
}

/// The chats of a reply, by its JSON value.
pub fn read_chats(v: &Json) -> (r: Option<Vec<ChatInfo>>)
    ensures
        match r {
            Some(l) => chats_of(v@) == Some(chat_info_views(l@)),
            None => chats_of(v@) is None,
        },
{
    match read_conversations_response(v) {
        Some(x) => match &x.conversations {
            Some(l) => Some(chat_infos(l)),
            None => {
                let none: Vec<ChatInfo> = Vec::new();
                proof {
                    assert(chat_info_views(none@) =~= Seq::empty());
                }
                Some(none)
            },
        },
        None => None,
    }
}

/// The chats of a reply, by its body.
pub fn list_chats_data(body: &[u8]) -> (r: Result<Vec<ChatInfo>, String>)
    ensures
        match r {
            Ok(l) => json::json_bytes(body@) matches Some(v) && chats_of(v) == Some(
                chat_info_views(l@),
            ),
            Err(e) => (json::json_bytes(body@) matches Some(v) ==> chats_of(v) is None) && e@
                == "Failed to parse conversations response"@,
        },
{
    if let Some(v) = json::parse_json_bytes(body) {
        if let Some(l) = read_chats(&v) {
            return Ok(l);
        }
    }
    Err("Failed to parse conversations response".to_string())
}

/// Where the list of chats is asked for.
#[derive(Clone, Copy, Debug, PartialEq, Eq, Structural)]
pub enum ChatSource {
    /// The CSA endpoint, with the Skype token as a bearer token.
    Csa,
    /// The aggregator, with the Skype token.
    Aggregator,
    /// The chat service, with the Skype token.
    ChatService,
}

impl ChatSource {
    /// The source to try when this one fails; after the last its error stands.
    pub fn after_failure(&self) -> (r: Option<ChatSource>)
        ensures
            r == (match *self {
                ChatSource::Csa => Some(ChatSource::Aggregator),
                ChatSource::Aggregator => Some(ChatSource::ChatService),
                ChatSource::ChatService => None,
            }),
    {
        match self {
            ChatSource::Csa => Some(ChatSource::Aggregator),
            ChatSource::Aggregator => Some(ChatSource::ChatService),
            ChatSource::ChatService => None,
        }
    }

    /// The address of the list of chats.
    pub fn url(&self, aggregator: &str, chat_service: &str, limit: usize) -> (r: String)
        ensures
            r@ == chats_address(*self, aggregator@, chat_service@) + text::decimal(limit as nat),
    {
        let mut s = String::new();
        match self {
            ChatSource::Csa => {
                s.append(
                    "https://teams.microsoft.com/api/csa/api/v1/teams/users/ME/conversations?view=mychats&pageSize=",
                );
            },
            ChatSource::Aggregator => {
                s.append(aggregator);
                s.append("/api/v2/users/ME/conversations?view=mychats&pageSize=");
            },
            ChatSource::ChatService => {
                s.append(chat_service);
                s.append("/v1/users/ME/conversations?view=mychats&pageSize=");
            },
        }
        proof {
            assert(s@ =~= chats_address(*self, aggregator@, chat_service@));
        }
        s.append(text::to_decimal(limit as u64).as_str());
        s
    }
}

/// The address of the list of chats, up to its size.
pub open spec fn chats_address(
    source: ChatSource,
    aggregator: Seq<char>,
    chat_service: Seq<char>,
) -> Seq<char> {
    match source {
        ChatSource::Csa =>
            "https://teams.microsoft.com/api/csa/api/v1/teams/users/ME/conversations?view=mychats&pageSize="@,
        ChatSource::Aggregator => aggregator
            + "/api/v2/users/ME/conversations?view=mychats&pageSize="@,
        ChatSource::ChatService => chat_service
            + "/v1/users/ME/conversations?view=mychats&pageSize="@,
    }
}

// -- Messages --

/// What a conversation shows of a message.
pub struct MessageInfo {
    /// The id of the server, or the time and the sender where it gives none.
    pub id: String,
    pub sender: String,
    pub timestamp: String,
    pub content: String,
    /// The HTML as the server sent it.
    pub raw: String,
    /// The id of the message that this one replies to.
    pub reply_to: Option<String>,
}

/// The model of [`MessageInfo`].
pub struct MessageInfoV {
    pub id: Seq<char>,
    pub sender: Seq<char>,
    pub timestamp: Seq<char>,
    pub content: Seq<char>,
    pub raw: Seq<char>,
    pub reply_to: Option<Seq<char>>,
}

impl View for MessageInfo {
    type V = MessageInfoV;

    open spec fn view(&self) -> MessageInfoV {
        MessageInfoV {
            id: self.id@,
            sender: self.sender@,
            timestamp: self.timestamp@,
            content: self.content@,
            raw: self.raw@,
            reply_to: text::opt_text(self.reply_to),
        }
    }
}
/// A list of [`MessageInfo`] by their models.
pub open spec fn message_info_views(v: Seq<MessageInfo>) -> Seq<MessageInfoV> {
    Seq::new(v.len(), |i: int| v[i]@)
}
/// One page of messages, oldest first, and the address of the page before it.
pub struct MessagesPage {
    pub messages: Vec<MessageInfo>,
    pub backward_link: Option<String>,
}

/// The model of [`MessagesPage`].
pub struct MessagesPageV {
    pub messages: Seq<MessageInfoV>,
    pub backward_link: Option<Seq<char>>,
}

impl View for MessagesPage {
    type V = MessagesPageV;

    open spec fn view(&self) -> MessagesPageV {
        MessagesPageV {
            messages: message_info_views(self.messages@),
            backward_link: text::opt_text(self.backward_link),
        }
    }
}

/// True of white space in a tag.
pub open spec fn is_tag_space(c: char) -> bool {
    c == ' ' || c == '\t' || c == '\n' || c == '\r' || c == '\x0c'
}

/// Where the quoted value that begins at a place in a tag ends. A value stands behind
/// an equals sign; `due` says that one does.
pub open spec fn quoted_end(tag: Seq<char>, i: int, due: bool) -> Option<int> {
    if due && 0 <= i < tag.len() && (tag[i] == '"' || tag[i] == '\'') {
        text::index_from(tag, tag[i], i + 1)
    } else {
        None
    }
}

/// What stands between quotes `q` behind the first `guid=` at or after a place in a
/// tag. Quoted values are passed over.
pub open spec fn guid_from(tag: Seq<char>, q: char, i: int, due: bool) -> Option<Seq<char>>
    decreases tag.len() - i,
{
    if i < 0 || i >= tag.len() {
        None
    } else {
        match quoted_end(tag, i, due) {
            Some(e) => if i < e < tag.len() {
                guid_from(tag, q, e + 1, false)
            } else {
                None
            },
            None => if text::occurs_at(tag, "guid="@.push(q), i) {
                match text::index_from(tag, q, i + 6) {
                    Some(e) => Some(tag.subrange(i + 6, e)),
                    None => None,
                }
            } else {
                guid_from(tag, q, i + 1, tag[i] == '=' || (due && is_tag_space(tag[i])))
            },
        }
    }
}

/// What stands between quotes `q` behind `guid=` in a tag.
#[verifier::opaque]
pub open spec fn guid_between(tag: Seq<char>, q: char) -> Option<Seq<char>> {
    guid_from(tag, q, 0, false)
}

/// The id in a quote's opening tag, between double or single quotes.
pub open spec fn guid_of(tag: Seq<char>) -> Option<Seq<char>> {
    match guid_between(tag, '"') {
        Some(g) => Some(g),
        None => guid_between(tag, '\''),
    }
}

/// The id of the quoted message, by its quote's opening tag: what stands there, with
/// entities decoded. An empty one is none.
pub open spec fn quoted_id(tag: Seq<char>) -> Option<Seq<char>> {
    match filled(guid_of(tag)) {
        Some(g) => Some(web::decoded_entities(g)),
        None => None,
    }
}

/// What the first quote block of a message splits it into: the id of the quoted
/// message and the rest. Without a whole block there is no id, and the rest is
/// all of it.
pub open spec fn split_quote(content: Seq<char>) -> (Option<Seq<char>>, Seq<char>) {
    match text::find_in(content, "<quote"@) {
        None => (None, content),
        Some(open) => {
            let rest = content.skip(open);
            match text::first_index(rest, '>') {
                None => (None, content),
                Some(end) => {
                    let after = rest.skip(end + 1);
                    match text::find_in(after, "</quote>"@) {
                        None => (None, content),
                        Some(close) => (
                            quoted_id(rest.take(end)),
                            content.take(open) + after.skip(close + 8),
                        ),
                    }
                },
            }
        },
    }
}

fn parse_guid_between(tag: &str, q: char) -> (r: Option<String>)
    ensures
        text::opt_text(r) == guid_between(tag@, q),
{
    let mut mark = "guid=".to_string();
    mark.push(q);
    proof {
        reveal(guid_between);
        reveal_strlit("guid=");
    }
    let v = text::chars_of(tag);
    let m = text::chars_of(mark.as_str());
    let mut i: usize = 0;
    let mut due = false;
    while i < v.len()
        invariant
            i <= v@.len(),
            v@ == tag@,
            m@ == "guid="@.push(q),
            m@.len() == 6,
            guid_between(tag@, q) == guid_from(v@, q, i as int, due),
        decreases v@.len() - i,
    {
        let c = v[i];
        let end: Option<usize> = if due && (c == '"' || c == '\'') {
            text::char_index_from(&v, c, i + 1)
        } else {
            None
        };
        if let Some(e) = end {
            i = e + 1;
            due = false;
        } else if text::stands_at(&v, &m, i) {
            return match text::char_index_from(&v, q, i + 6) {
                Some(e) => Some(text::text_of(&v, i + 6, e)),
                None => None,
            };
        } else {
            due = c == '=' || (due && (c == ' ' || c == '\t' || c == '\n' || c == '\r' || c
                == '\x0c'));
            i = i + 1;
        }
    }
    None
}

/// Splits the first quote block off a message.
pub fn split_reply_quote(content: &str) -> (r: (Option<String>, String))
    ensures
        (text::opt_text(r.0), r.1@) == split_quote(content@),
{
    let open: usize = match text::find(content, "<quote") {
        Some(i) => i,
        None => {
            return (None, content.to_string());
        },
    };
    let v = text::chars_of(content);
    let n: usize = v.len();
    let ghost rest = content@.skip(open as int);
    let rest_text = text::text_of(&v, open, n);
    let rv = text::chars_of(rest_text.as_str());
    proof {
        assert(rv@ =~= rest);
    }
    let end: usize = match text::char_index_from(&rv, '>', 0) {
        Some(e) => e,
        None => {
            return (None, content.to_string());
        },
    };
    let m: usize = rv.len();
    let tag = text::text_of(&rv, 0, end);
    let after_text = text::text_of(&rv, end + 1, m);
    proof {
        assert(tag@ =~= rest.take(end as int));
        assert(after_text@ =~= rest.skip(end + 1));
        reveal_strlit("</quote>");
    }
    let close: usize = match text::find(after_text.as_str(), "</quote>") {
        Some(c) => c,
        None => {
            return (None, content.to_string());
        },
    };
    let found = match parse_guid_between(tag.as_str(), '"') {
        Some(g) => Some(g),
        None => parse_guid_between(tag.as_str(), '\''),
    };
    let id = match found {
        Some(g) => if g.as_str().is_empty() {
            None
        } else {
            Some(web::decode_entities(g.as_str()))
        },
        None => None,
    };
    let av = text::chars_of(after_text.as_str());
    let head = text::text_of(&v, 0, open);
    let tail = text::text_of(&av, close + 8, av.len());
    proof {
        assert(head@ =~= content@.take(open as int));
        assert(tail@ =~= after_text@.skip(close + 8));
    }
    (id, text::join2(head.as_str(), tail.as_str()))
}

/// True when HTML holds an image tag.
pub open spec fn shows_image(html: Seq<char>) -> bool {
    text::contains_text(text::lowered(html), "<img"@)
}

/// True when HTML holds an image tag, in any case.
pub fn has_image(html: &str) -> (r: bool)
    ensures
        r == shows_image(html@),
{
    let low = text::lower(html);
    text::contains(low.as_str(), "<img")
}

/// True of the message types that hold text to read: neither events of the
/// thread nor media payloads.
pub open spec fn is_readable(kind: Seq<char>) -> bool {
    (text::contains_text(kind, "Text"@) || text::contains_text(kind, "RichText"@))
        && !text::contains_text(kind, "Media_"@)
}

/// An optional text, or an empty one.
pub open spec fn or_empty(o: Option<Seq<char>>) -> Seq<char> {
    match o {
        Some(s) => s,
        None => Seq::empty(),
    }
}

/// The name that a message's sender is shown by.
pub open spec fn sender_shown(m: NativeMessageV) -> Seq<char> {
    match m.im_display_name {
        Some(s) => if text::blank(s) {
            "?"@
        } else {
            s
        },
        None => "?"@,
    }
}

/// What a conversation shows of a message; nothing of one without text and
/// without an image.
pub open spec fn message_info_of(m: NativeMessageV) -> Option<MessageInfoV> {
    let content = or_empty(m.content);
    let (reply_to, body) = split_quote(content);
    let shown = text::trimmed(web::visible_text(body, ""@));
    let time = or_empty(time_of(m));
    if !is_readable(or_empty(m.messagetype)) || (shown.len() == 0 && !shows_image(content)) {
        None
    } else {
        Some(
            MessageInfoV {
                id: match filled(m.id) {
                    Some(id) => id,
                    None => time + "@"@ + sender_shown(m),
                },
                sender: sender_shown(m),
                timestamp: time,
                content: shown,
                raw: content,
                reply_to,
            },
        )
    }
}

fn text_or_empty(o: &Option<String>) -> (r: String)
    ensures
        r@ == or_empty(text::opt_text(*o)),
{
    match o {
        Some(s) => s.clone(),
        None => {
            let s = String::new();
            proof {
                assert(s@ =~= Seq::empty());
            }
            s
        },
    }
}

/// What a conversation shows of a message; nothing of one without text and
/// without an image.
pub fn message_info(m: &NativeMessage) -> (r: Option<MessageInfo>)
    ensures
        match r {
            Some(x) => message_info_of(m@) == Some(x@),
            None => message_info_of(m@) is None,
        },
{
    let kind = text_or_empty(&m.messagetype);
    if !text::contains(kind.as_str(), "Text") && !text::contains(kind.as_str(), "RichText") {
        return None;
    }
    if text::contains(kind.as_str(), "Media_") {
        return None;
    }
    let sender = match &m.im_display_name {
        Some(s) => if text::is_blank(s.as_str()) {
            "?".to_string()
        } else {
            s.clone()
        },
        None => "?".to_string(),
    };
    let time = text_or_empty(&message_time(m));
    let raw = text_or_empty(&m.content);
    let (reply_to, body) = split_reply_quote(raw.as_str());
    let shown = strip_html(body.as_str());
    let content = text::trim(shown.as_str());
    if content.as_str().is_empty() && !has_image(raw.as_str()) {
        return None;
    }
    let id = match &m.id {
        Some(s) => if s.as_str().is_empty() {
            text::join3(time.as_str(), "@", sender.as_str())
        } else {
            s.clone()
        },
        None => text::join3(time.as_str(), "@", sender.as_str()),
    };
    Some(MessageInfo { id, sender, timestamp: time, content, raw, reply_to })
}

/// The messages of a page, oldest first; the server sends the newest first.
pub open spec fn message_rows(v: Seq<NativeMessageV>) -> Seq<MessageInfoV>
    decreases v.len(),
{
    if v.len() == 0 {
        Seq::empty()
    } else {
        match message_info_of(v[0]) {
            Some(x) => message_rows(v.skip(1)).push(x),
            None => message_rows(v.skip(1)),
        }
    }
}

/// The messages of a page, oldest first.
pub fn message_infos(v: &Vec<NativeMessage>) -> (r: Vec<MessageInfo>)
    ensures
        message_info_views(r@) == message_rows(native_message_views(v@)),
{
    let ghost all = native_message_views(v@);
    let mut out: Vec<MessageInfo> = Vec::new();
    let mut i: usize = v.len();
    proof {
        assert(all.skip(i as int) =~= Seq::empty());
        assert(message_info_views(out@) =~= Seq::empty());
    }
    while i > 0
        invariant
            i <= v@.len(),
            all == native_message_views(v@),
            message_info_views(out@) == message_rows(all.skip(i as int)),
        decreases i,
    {
        i = i - 1;
        proof {
            assert(all.skip(i as int).skip(1) =~= all.skip(i + 1));
            assert(all.skip(i as int)[0] == v@[i as int]@);
        }
        match message_info(&v[i]) {
            Some(x) => {
                let ghost before = out@;
                out.push(x);
                proof {
                    assert(message_info_views(out@) =~= message_info_views(before).push(x@));
                }
            },
            None => {},
        }
    }
    proof {
        assert(all.skip(0) =~= all);
    }
    out
}

/// The page of a reply, by its JSON value; nothing where it is of another form.
pub open spec fn page_of(v: JsonV) -> Option<MessagesPageV> {
    match messages_response_of(v) {
        Some(x) => Some(
            MessagesPageV {
                messages: match x.messages {
                    Some(l) => message_rows(l),
                    None => Seq::empty(),
                },
                backward_link: match x.metadata {
                    Some(m) => m.backward_link,
                    None => None,
                },
            },
        ),
        None => None,
    }
}

/// The page of a reply, by its JSON value.
pub fn read_page(v: &Json) -> (r: Option<MessagesPage>)
    ensures
        match r {
            Some(x) => page_of(v@) == Some(x@),
            None => page_of(v@) is None,
        },
{
    match read_messages_response(v) {
        Some(x) => {
            let messages = match &x.messages {
                Some(l) => message_infos(l),
                None => {
                    let none: Vec<MessageInfo> = Vec::new();
                    proof {
                        assert(message_info_views(none@) =~= Seq::empty());
                    }
                    none
                },
            };
            let backward_link = match &x.metadata {
                Some(m) => text::copy_opt(&m.backward_link),
                None => None,
            };
            Some(MessagesPage { messages, backward_link })
        },
        None => None,
    }
}

/// The page of a reply, by its body.
pub fn read_messages_page(body: &[u8]) -> (r: Result<MessagesPage, String>)
    ensures
        match r {
            Ok(x) => json::json_bytes(body@) matches Some(v) && page_of(v) == Some(x@),
            Err(e) => (json::json_bytes(body@) matches Some(v) ==> page_of(v) is None) && e@
                == "Failed to parse messages response"@,
        },
{
    if let Some(v) = json::parse_json_bytes(body) {
        if let Some(x) = read_page(&v) {
            return Ok(x);
        }
    }
    Err("Failed to parse messages response".to_string())
}

/// A text without its leading digits.
pub open spec fn after_digits(s: Seq<char>) -> Seq<char>
    decreases s.len(),
{
    if s.len() > 0 && '0' <= s[0] <= '9' {
        after_digits(s.skip(1))
    } else {
        s
    }
}

/// The address with its page size set; one without a page size stays.
pub open spec fn resized(url: Seq<char>, limit: nat) -> Seq<char> {
    match text::find_in(url, "pageSize="@) {
        Some(i) => url.take(i + 9) + text::decimal(limit) + after_digits(url.skip(i + 9)),
        None => url,
    }
}

/// Sets the page size of an address, so that a followed link keeps the caller's
/// limit. One without a page size stays.
pub fn with_page_size(url: &str, limit: usize) -> (r: String)
    ensures
        r@ == resized(url@, limit as nat),
{
    proof {
        reveal_strlit("pageSize=");
    }
    match text::find(url, "pageSize=") {
        Some(i) => {
            let v = text::chars_of(url);
            let n: usize = v.len();
            let from: usize = i + 9;
            let mut to: usize = from;
            while to < n && v[to] >= '0' && v[to] <= '9'
                invariant
                    from <= to <= n,
                    n == v@.len(),
                    after_digits(v@.skip(to as int)) == after_digits(v@.skip(from as int)),
                decreases n - to,
            {
                proof {
                    assert(v@.skip(to as int)[0] == v@[to as int]);
                    assert(v@.skip(to as int).skip(1) =~= v@.skip(to + 1));
                }
                to = to + 1;
            }
            let head = text::text_of(&v, 0, from);
            let tail = text::text_of(&v, to, n);
            proof {
                if to < n {
                    assert(v@.skip(to as int)[0] == v@[to as int]);
                }
                assert(head@ =~= url@.take(i + 9));
                assert(tail@ =~= v@.skip(to as int));
            }
            text::join3(head.as_str(), text::to_decimal(limit as u64).as_str(), tail.as_str())
        },
        None => url.to_string(),
    }
}

/// The address of a page: the one of the link that led to it, or the newest of
/// the conversation.
pub fn page_url(base: &str, chat_id: &str, limit: usize, link: Option<&str>) -> (r: String)
    ensures
        r@ == match link {
            Some(u) => resized(u@, limit as nat),
            None => base@ + "/v1/users/ME/conversations/"@ + chat_id@ + "/messages?pageSize="@
                + text::decimal(limit as nat),
        },
{
    match link {
        Some(u) => with_page_size(u, limit),
        None => {
            let mut s = base.to_string();
            s.append("/v1/users/ME/conversations/");
            s.append(chat_id);
            s.append("/messages?pageSize=");
            s.append(text::to_decimal(limit as u64).as_str());
            s
        },
    }
}

// -- Sending --

/// The address that a message is sent to.
pub fn messages_url(base: &str, chat_id: &str) -> (r: String)
    ensures
        r@ == base@ + "/v1/users/ME/conversations/"@ + chat_id@ + "/messages"@,
{
    let mut s = base.to_string();
    s.append("/v1/users/ME/conversations/");
    s.append(chat_id);
    s.append("/messages");
    s
}

/// The body that sends HTML as a message.
pub open spec fn html_message_payload(html: Seq<char>) -> JsonV {
    FieldsV::new()
        .text("content"@, html)
        .text("messagetype"@, "RichText/Html"@)
        .text("contenttype"@, "text"@).obj()
}

/// The body that sends HTML as a message.
pub fn html_message(html: &str) -> (r: Json)
    ensures
        r@ == html_message_payload(html@),
{
    let mut o = Fields::new();
    o.text("content", html);
    o.text("messagetype", "RichText/Html");
    o.text("contenttype", "text");
    o.obj()
}

/// The body that sends a plain text as a message.
pub fn send_message_with_client(message: &str) -> (r: Json)
    ensures
        r@ == html_message_payload("<p>"@ + web::escaped(message@, true) + "</p>"@),
{
    let escaped = web::escape(message, true);
    html_message(text::join3("<p>", escaped.as_str(), "</p>").as_str())
}

/// The most characters of the quoted message in a reply.
pub const REPLY_SNIPPET_MAX: usize = 140;

/// The first line of a quote: the text with its white space collapsed, cut to
/// 140 characters and an ellipsis where it is longer.
pub open spec fn snippet(s: Seq<char>) -> Seq<char> {
    let line = web::collapsed(s);
    if line.len() <= REPLY_SNIPPET_MAX {
        line
    } else {
        line.take(REPLY_SNIPPET_MAX as int).push('\u{2026}')
    }
}

/// Collapses white space and cuts a text to one line of a quote.
pub fn reply_snippet(s: &str) -> (r: String)
    ensures
        r@ == snippet(s@),
        r@.len() <= 141,
{
    let line = web::collapse(s);
    let v = text::chars_of(line.as_str());
    if v.len() <= REPLY_SNIPPET_MAX {
        return line;
    }
    let mut head = text::text_of(&v, 0, REPLY_SNIPPET_MAX);
    proof {
        assert(head@ =~= v@.take(REPLY_SNIPPET_MAX as int));
    }
    head.push('\u{2026}');
    head
}

/// Cutting a text for a quote a second time changes nothing: what was cut is still
/// one character too long, and is cut at the same place.
pub proof fn law_snippet_twice(s: Seq<char>)
    ensures
        snippet(snippet(s)) == snippet(s),
{
    let line = web::collapsed(s);
    if line.len() <= REPLY_SNIPPET_MAX {
        web::law_collapse_twice(s);
    } else {
        web::lemma_collapsed_spaced(s);
        let cut = snippet(s);
        assert forall|i: int| 0 <= i < cut.len() && text::is_space(#[trigger] cut[i]) implies cut[i]
            == ' ' && (i + 1 < cut.len() ==> !text::is_space(cut[i + 1])) by {
            assert(cut[i] == line[i]);
            if i + 1 < REPLY_SNIPPET_MAX {
                assert(cut[i + 1] == line[i + 1]);
            }
        }
        assert(cut[0] == line[0]);
        web::law_spaced_text_stays(cut);
        assert(cut.take(REPLY_SNIPPET_MAX as int) =~= line.take(REPLY_SNIPPET_MAX as int));
    }
}

/// The HTML of a reply: a quote of the message that it replies to, then its own
/// paragraph.
pub open spec fn reply_html(
    parent_id: Seq<char>,
    parent_sender: Seq<char>,
    parent_text: Seq<char>,
    message: Seq<char>,
) -> Seq<char> {
    "<quote author=\""@ + web::escaped(parent_sender, true) + "\" guid=\""@ + web::escaped(
        parent_id,
        true,
    ) + "\">"@ + web::escaped(snippet(parent_text), true) + "</quote><p>"@ + web::escaped(
        message,
        true,
    ) + "</p>"@
}

/// Builds the HTML of a reply.
pub fn build_reply_html(
    parent_id: &str,
    parent_sender: &str,
    parent_text: &str,
    message: &str,
) -> (r: String)
    ensures
        r@ == reply_html(parent_id@, parent_sender@, parent_text@, message@),
{
    let mut s = "<quote author=\"".to_string();
    s.append(web::escape(parent_sender, true).as_str());
    s.append("\" guid=\"");
    s.append(web::escape(parent_id, true).as_str());
    s.append("\">");
    s.append(web::escape(reply_snippet(parent_text).as_str(), true).as_str());
    s.append("</quote><p>");
    s.append(web::escape(message, true).as_str());
    s.append("</p>");
    s
}

proof fn lemma_first_index_at(s: Seq<char>, c: char, k: int)
    requires
        0 <= k < s.len(),
        s[k] == c,
        forall|j: int| 0 <= j < k ==> #[trigger] s[j] != c,
    ensures
        text::first_index(s, c) == Some(k),
{
    text::lemma_index_from(s, c, 0);
}

proof fn lemma_find_at(s: Seq<char>, p: Seq<char>, k: int)
    requires
        text::occurs_at(s, p, k),
        forall|j: int| 0 <= j < k ==> !#[trigger] text::occurs_at(s, p, j),
    ensures
        text::find_in(s, p) == Some(k),
{
    text::lemma_find_from(s, p, 0);
}

proof fn lemma_escaped_filled(s: Seq<char>)
    requires
        s.len() > 0,
    ensures
        web::escaped(s, true).len() > 0,
{
    reveal_strlit("&amp;");
    reveal_strlit("&lt;");
    reveal_strlit("&gt;");
    reveal_strlit("&quot;");
    reveal_strlit("&#39;");
}

// The walk over the part of a tag before the author's name.
proof fn lemma_author_passed(tag: Seq<char>)
    requires
        tag.len() > 15,
        "<quote author=\""@.is_prefix_of(tag),
    ensures
        guid_between(tag, '"') == guid_from(tag, '"', 14, true),
        tag[14] == '"',
{
    reveal_strlit("<quote author=\"");
    reveal_strlit("guid=");
    let a = "<quote author=\""@;
    assert forall|i: int| 0 <= i < 15 implies #[trigger] tag[i] == a[i] by {
        assert(tag.take(a.len() as int)[i] == tag[i]);
    }
    let mark = "guid="@.push('"');
    assert forall|j: int| 0 <= j < 14 implies !#[trigger] text::occurs_at(tag, mark, j) by {
        if text::occurs_at(tag, mark, j) {
            assert(tag.subrange(j, j + 6)[0] == tag[j]);
            assert(mark[0] == 'g' && tag[j] == a[j]);
        }
    }
    reveal(guid_between);
    reveal_with_fuel(guid_from, 15);
}

// Where the id stands in the opening tag of a reply's quote.
proof fn lemma_tag_guid(sender: Seq<char>, id: Seq<char>)
    ensures
        guid_of(
            "<quote author=\""@ + web::escaped(sender, true) + "\" guid=\""@
                + web::escaped(id, true)
                + "\""@,
        ) == Some(web::escaped(id, true)),
{
    let s = web::escaped(sender, true);
    let g = web::escaped(id, true);
    let a = "<quote author=\""@;
    let b = "\" guid=\""@;
    let c = "\""@;
    let mark = "guid="@.push('"');
    reveal_strlit("<quote author=\"");
    reveal_strlit("\" guid=\"");
    reveal_strlit("\"");
    reveal_strlit("guid=");
    web::lemma_escaped_plain(sender, true);
    web::lemma_escaped_plain(id, true);
    let tag = a + s + b + g + c;
    assert(a.is_prefix_of(tag)) by {
        assert(tag.take(a.len() as int) =~= a);
    }
    lemma_author_passed(tag);
    let m = a.len() as int + s.len();
    assert(tag[m] == b[0]);
    assert forall|j: int| 15 <= j < m implies #[trigger] tag[j] != '"' by {
        assert(tag[j] == s[j - a.len()]);
    }
    text::lemma_index_from(tag, '"', 15);
    assert(text::index_from(tag, '"', 15) == Some(m));
    assert(guid_from(tag, '"', 14, true) == guid_from(tag, '"', m + 1, false));
    let k = m + 2;
    assert(tag[m + 1] == b[1]);
    assert(!text::occurs_at(tag, mark, m + 1)) by {
        if text::occurs_at(tag, mark, m + 1) {
            assert(tag.subrange(m + 1, m + 7)[0] == tag[m + 1]);
            assert(mark[0] == 'g');
        }
    }
    assert(guid_from(tag, '"', m + 1, false) == guid_from(tag, '"', k, false));
    assert(tag.subrange(k, k + 6) =~= mark) by {
        assert forall|i: int| 0 <= i < 6 implies tag[k + i] == mark[i] by {
            assert(tag[k + i] == b[2 + i]);
        }
    }
    let e = k + 6 + g.len();
    assert(tag[e] == c[0]);
    assert forall|j: int| k + 6 <= j < e implies #[trigger] tag[j] != '"' by {
        assert(tag[j] == g[j - k - 6]);
    }
    text::lemma_index_from(tag, '"', k + 6);
    assert(text::index_from(tag, '"', k + 6) == Some(e));
    assert(tag.subrange(k + 6, e) =~= g);
}

// Where the opening tag of a quote stands in a reply, and where it ends.
proof fn lemma_reply_opens(s: Seq<char>, g: Seq<char>, rest: Seq<char>)
    requires
        forall|i: int| 0 <= i < s.len() ==> #[trigger] s[i] != '>',
        forall|i: int| 0 <= i < g.len() ==> #[trigger] g[i] != '>',
    ensures
        ({
            let tag = "<quote author=\""@ + s + "\" guid=\""@ + g + "\""@;
            let html = tag + ">"@ + rest;
            &&& text::find_in(html, "<quote"@) == Some(0int)
            &&& text::first_index(html, '>') == Some(tag.len() as int)
            &&& html.take(tag.len() as int) == tag
            &&& html.skip(tag.len() as int + 1) == rest
        }),
{
    reveal_strlit("<quote author=\"");
    reveal_strlit("\" guid=\"");
    reveal_strlit("\"");
    reveal_strlit(">");
    reveal_strlit("<quote");
    let a = "<quote author=\""@;
    let b = "\" guid=\""@;
    let tag = a + s + b + g + "\""@;
    let html = tag + ">"@ + rest;
    let end = tag.len() as int;
    assert(html.subrange(0, 6) =~= "<quote"@) by {
        assert forall|i: int| 0 <= i < 6 implies html[i] == "<quote"@[i] by {
            assert(html[i] == a[i]);
        }
    }
    lemma_find_at(html, "<quote"@, 0);
    assert(html[end] == '>');
    assert forall|j: int| 0 <= j < end implies #[trigger] html[j] != '>' by {
        assert(html[j] == tag[j]);
        let n1 = a.len() as int;
        let n2 = n1 + s.len();
        let n3 = n2 + b.len();
        let n4 = n3 + g.len();
        if j < n1 {
            assert(tag[j] == a[j]);
        } else if j < n2 {
            assert(tag[j] == s[j - n1]);
        } else if j < n3 {
            assert(tag[j] == b[j - n2]);
        } else if j < n4 {
            assert(tag[j] == g[j - n3]);
        }
    }
    lemma_first_index_at(html, '>', end);
    assert(html.take(end) =~= tag);
    assert(html.skip(end + 1) =~= rest);
}

// Where a quote ends.
proof fn lemma_quote_closes(q: Seq<char>, rest: Seq<char>)
    requires
        forall|i: int| 0 <= i < q.len() ==> #[trigger] q[i] != '<',
    ensures
        text::find_in(q + "</quote>"@ + rest, "</quote>"@) == Some(q.len() as int),
        (q + "</quote>"@ + rest).skip(q.len() as int + 8) == rest,
{
    reveal_strlit("</quote>");
    let p = "</quote>"@;
    let after = q + p + rest;
    let close = q.len() as int;
    assert(after.subrange(close, close + 8) =~= p);
    assert forall|j: int| 0 <= j < close implies !#[trigger] text::occurs_at(after, p, j) by {
        if text::occurs_at(after, p, j) {
            assert(after.subrange(j, j + 8)[0] == '<');
            assert(after[j] == q[j]);
        }
    }
    lemma_find_at(after, p, close);
    assert(after.skip(close + 8) =~= rest);
}

/// A reply reads back, whoever sent the message that it replies to: splitting the
/// quote off gives the id of that message and leaves the reply's own paragraph, which
/// shows the text of the reply.
pub proof fn law_reply_round_trip(
    parent_id: Seq<char>,
    parent_sender: Seq<char>,
    parent_text: Seq<char>,
    message: Seq<char>,
)
    requires
        parent_id.len() > 0,
    ensures
        split_quote(reply_html(parent_id, parent_sender, parent_text, message)) == (
            Some(parent_id),
            "<p>"@ + web::escaped(message, true) + "</p>"@,
        ),
        web::visible_text(
            split_quote(reply_html(parent_id, parent_sender, parent_text, message)).1,
            ""@,
        ) == message,
{
    let s = web::escaped(parent_sender, true);
    let g = web::escaped(parent_id, true);
    let q = web::escaped(snippet(parent_text), true);
    let p = "<p>"@ + web::escaped(message, true) + "</p>"@;
    web::lemma_escaped_plain(parent_sender, true);
    web::lemma_escaped_plain(parent_id, true);
    web::lemma_escaped_plain(snippet(parent_text), true);
    let rest = q + "</quote>"@ + p;
    let tag = "<quote author=\""@ + s + "\" guid=\""@ + g + "\""@;
    let html = tag + ">"@ + rest;
    lemma_reply_parts(s, g, q, web::escaped(message, true));
    assert(html == reply_html(parent_id, parent_sender, parent_text, message));
    lemma_reply_opens(s, g, rest);
    lemma_quote_closes(q, p);
    assert(html.skip(0) =~= html);
    assert(html.take(0) + p =~= p);
    lemma_tag_guid(parent_sender, parent_id);
    lemma_escaped_filled(parent_id);
    web::law_decode_undoes_escape(parent_id, true);
    web::law_visible_undoes_escape(message);
}

// The parts of a reply's HTML.
proof fn lemma_reply_parts(s: Seq<char>, g: Seq<char>, q: Seq<char>, m: Seq<char>)
    ensures
        "<quote author=\""@ + s + "\" guid=\""@ + g + "\">"@ + q + "</quote><p>"@ + m + "</p>"@
            == ("<quote author=\""@ + s + "\" guid=\""@ + g + "\""@) + ">"@ + (q + "</quote>"@ + (
        "<p>"@ + m + "</p>"@)),
{
    reveal_strlit("\">");
    reveal_strlit("\"");
    reveal_strlit(">");
    reveal_strlit("</quote><p>");
    reveal_strlit("</quote>");
    reveal_strlit("<p>");
    assert("\">"@ =~= "\""@ + ">"@);
    assert("</quote><p>"@ =~= "</quote>"@ + "<p>"@);
    let a = "<quote author=\""@ + s + "\" guid=\""@ + g;
    assert(a + ("\""@ + ">"@) =~= a + "\""@ + ">"@);
    let b = a + "\""@ + ">"@;
    let e = "</p>"@;
    assert(b + q + ("</quote>"@ + "<p>"@) + m + e =~= b + (q + "</quote>"@ + ("<p>"@ + m + e)));
}

/// The body that sends a reply.
pub fn reply_message_with_client(
    parent_id: &str,
    parent_sender: &str,
    parent_text: &str,
    message: &str,
) -> (r: Json)
    ensures
        r@ == html_message_payload(reply_html(parent_id@, parent_sender@, parent_text@, message@)),
{
    html_message(build_reply_html(parent_id, parent_sender, parent_text, message).as_str())
}

/// True of the message with this id.
pub open spec fn has_id(msgs: Seq<MessageInfo>, id: Seq<char>, i: int) -> bool {
    0 <= i < msgs.len() && msgs[i].id@ == id
}

/// Finds the message that a reply is to among the newest ones; the error is the
/// text to show.
pub fn reply_message(msgs: &Vec<MessageInfo>, parent_id: &str) -> (r: Result<usize, String>)
    ensures
        match r {
            Ok(i) => has_id(msgs@, parent_id@, i as int) && forall|j: int|
                0 <= j < i ==> !#[trigger] has_id(msgs@, parent_id@, j),
            Err(e) => e@ == "parent message "@ + parent_id@ + " not found in recent history"@
                && forall|j: int| !#[trigger] has_id(msgs@, parent_id@, j),
        },
{
    let mut i: usize = 0;
    while i < msgs.len()
        invariant
            i <= msgs@.len(),
            forall|j: int| 0 <= j < i ==> !#[trigger] has_id(msgs@, parent_id@, j),
        decreases msgs@.len() - i,
    {
        if text::same(msgs[i].id.as_str(), parent_id) {
            return Ok(i);
        }
        i = i + 1;
    }
    Err(text::join3("parent message ", parent_id, " not found in recent history"))
}

// -- What the commands show --

/// What is shown of the last message of a chat: nothing of a blank one.
pub open spec fn preview_shown(x: ChatInfoV) -> Seq<char> {
    match x.last_message_preview {
        Some(p) => if text::blank(p) {
            Seq::empty()
        } else {
            "  ["@ + teams::or_text(x.last_message_sender, "?"@) + "]: "@ + text::trimmed(p) + "\n"@
        },
        None => Seq::empty(),
    }
}

fn show_preview(x: &ChatInfo) -> (r: String)
    ensures
        r@ == preview_shown(x@),
{
    let mut s = String::new();
    if let Some(p) = &x.last_message_preview {
        if !text::is_blank(p.as_str()) {
            s.append("  [");
            s.append(teams::text_or(&x.last_message_sender, "?").as_str());
            s.append("]: ");
            s.append(text::trim(p.as_str()).as_str());
            s.append("\n");
        }
    }
    proof {
        assert(s@ =~= preview_shown(x@));
    }
    s
}

/// What is shown of a chat.
pub open spec fn chat_shown(x: ChatInfoV) -> Seq<char> {
    x.name + "\n  ID: "@ + x.id + "\n"@
        + (match x.last_message_time {
            Some(t) => "  Last: "@ + t + "\n"@,
            None => Seq::empty(),
        }) + preview_shown(x) + "\n"@
}

fn show_chat(x: &ChatInfo) -> (r: String)
    ensures
        r@ == chat_shown(x@),
{
    let mut s = String::new();
    s.append(x.name.as_str());
    s.append("\n  ID: ");
    s.append(x.id.as_str());
    s.append("\n");
    match &x.last_message_time {
        Some(t) => {
            s.append("  Last: ");
            s.append(t.as_str());
            s.append("\n");
        },
        None => {},
    }
    s.append(show_preview(x).as_str());
    s.append("\n");
    proof {
        assert(s@ =~= chat_shown(x@));
    }
    s
}

/// What is shown of a list, entry by entry.
pub open spec fn chats_shown(v: Seq<ChatInfoV>) -> Seq<char>
    decreases v.len(),
{
    if v.len() == 0 {
        Seq::empty()
    } else {
        chats_shown(v.drop_last()) + chat_shown(v.last())
    }
}

fn show_chats(v: &Vec<ChatInfo>) -> (r: String)
    ensures
        r@ == chats_shown(chat_info_views(v@)),
{
    let ghost all = chat_info_views(v@);
    let mut s = String::new();
    let mut i: usize = 0;
    proof {
        assert(all.take(0) =~= Seq::empty());
        assert(s@ =~= Seq::empty());
    }
    while i < v.len()
        invariant
            i <= v@.len(),
            all == chat_info_views(v@),
            s@ == chats_shown(all.take(i as int)),
        decreases v@.len() - i,
    {
        proof {
            assert(all.take(i + 1).drop_last() =~= all.take(i as int));
            assert(all.take(i + 1).last() == v@[i as int]@);
        }
        s.append(show_chat(&v[i]).as_str());
        i = i + 1;
    }
    proof {
        assert(all.take(i as int) =~= all);
    }
    s
}

/// The list of recent chats.
pub fn list_chats(v: &Vec<ChatInfo>) -> (r: String)
    ensures
        r@ == "\nRecent Chats:\n------------------------------------------------------------\n"@
            + (if v@.len() == 0 {
            "  (no chats found)\n"@
        } else {
            chats_shown(chat_info_views(v@))
        }),
{
    let mut s = String::new();
    s.append("\nRecent Chats:\n------------------------------------------------------------\n");
    if v.len() == 0 {
        s.append("  (no chats found)\n");
    } else {
        s.append(show_chats(v).as_str());
    }
    proof {
        assert(s@ =~= "\nRecent Chats:\n------------------------------------------------------------\n"@
            + (if v@.len() == 0 {
            "  (no chats found)\n"@
        } else {
            chats_shown(chat_info_views(v@))
        }));
    }
    s
}

/// What is shown of a message.
pub open spec fn message_shown(x: MessageInfoV) -> Seq<char> {
    "["@ + x.timestamp + "] "@ + x.sender + ": "@ + x.content
        + (match x.reply_to {
            Some(t) => " (reply to "@ + t + ")"@,
            None => Seq::empty(),
        }) + "\n"@
}

fn show_message(x: &MessageInfo) -> (r: String)
    ensures
        r@ == message_shown(x@),
{
    let mut s = String::new();
    s.append("[");
    s.append(x.timestamp.as_str());
    s.append("] ");
    s.append(x.sender.as_str());
    s.append(": ");
    s.append(x.content.as_str());
    match &x.reply_to {
        Some(t) => {
            s.append(" (reply to ");
            s.append(t.as_str());
            s.append(")");
        },
        None => {},
    }
    s.append("\n");
    proof {
        assert(s@ =~= message_shown(x@));
    }
    s
}

/// What is shown of a list, entry by entry.
pub open spec fn messages_shown(v: Seq<MessageInfoV>) -> Seq<char>
    decreases v.len(),
{
    if v.len() == 0 {
        Seq::empty()
    } else {
        messages_shown(v.drop_last()) + message_shown(v.last())
    }
}

fn show_messages(v: &Vec<MessageInfo>) -> (r: String)
    ensures
        r@ == messages_shown(message_info_views(v@)),
{
    let ghost all = message_info_views(v@);
    let mut s = String::new();
    let mut i: usize = 0;
    proof {
        assert(all.take(0) =~= Seq::empty());
        assert(s@ =~= Seq::empty());
    }
    while i < v.len()
        invariant
            i <= v@.len(),
            all == message_info_views(v@),
            s@ == messages_shown(all.take(i as int)),
        decreases v@.len() - i,
    {
        proof {
            assert(all.take(i + 1).drop_last() =~= all.take(i as int));
            assert(all.take(i + 1).last() == v@[i as int]@);
        }
        s.append(show_message(&v[i]).as_str());
        i = i + 1;
    }
    proof {
        assert(all.take(i as int) =~= all);
    }
    s
}

/// The messages of a chat.
pub fn read_messages(v: &Vec<MessageInfo>) -> (r: String)
    ensures
        r@ == (if v@.len() == 0 {
            "(no messages)\n"@
        } else {
            messages_shown(message_info_views(v@))
        }),
{
    let mut s = String::new();
    if v.len() == 0 {
        s.append("(no messages)\n");
    } else {
        s.append(show_messages(v).as_str());
    }
    proof {
        assert(s@ =~= (if v@.len() == 0 {
            "(no messages)\n"@
        } else {
            messages_shown(message_info_views(v@))
        }));
    }
    s
}

// -- What is read --

/// What is read of a [`ThreadProperties`] stands in the members of these names, and it is read
/// where they hold what they should.
pub proof fn law_thread_properties_reads_its_members(v: JsonV)
    requires
        v is Obj,
    ensures
        match thread_properties_of(v) {
            Some(x) => {
                &&& x.topic == json::str_of(json::get_of(v, "topic"@))
                &&& x.last_join_at == json::str_of(json::get_of(v, "lastjoinat"@))
                &&& x.members == json::str_of(json::get_of(v, "members"@))
            },
            None => !(json::opt_text_member(json::get_of(v, "topic"@)) is Some
                && json::opt_text_member(json::get_of(v, "lastjoinat"@)) is Some
                && json::opt_text_member(json::get_of(v, "members"@)) is Some),
        },
{
}

/// What is read of a [`NativeMessage`] stands in the members of these names, and it is read
/// where they hold what they should.
pub proof fn law_native_message_reads_its_members(v: JsonV)
    requires
        v is Obj,
    ensures
        match native_message_of(v) {
            Some(x) => {
                &&& x.id == json::str_of(json::get_of(v, "id"@))
                &&& x.compose_time == json::str_of(json::get_of(v, "composetime"@))
                &&& x.original_arrival_time == json::str_of(json::get_of(v, "originalarrivaltime"@))
                &&& x.im_display_name == json::str_of(json::get_of(v, "imdisplayname"@))
                &&& x.content == json::str_of(json::get_of(v, "content"@))
                &&& x.messagetype == json::str_of(json::get_of(v, "messagetype"@))
                &&& x.from == json::str_of(json::get_of(v, "from"@))
            },
            None => !(json::opt_text_member(json::get_of(v, "id"@)) is Some
                && json::opt_text_member(json::get_of(v, "composetime"@)) is Some
                && json::opt_text_member(json::get_of(v, "originalarrivaltime"@)) is Some
                && json::opt_text_member(json::get_of(v, "imdisplayname"@)) is Some
                && json::opt_text_member(json::get_of(v, "content"@)) is Some
                && json::opt_text_member(json::get_of(v, "messagetype"@)) is Some
                && json::opt_text_member(json::get_of(v, "from"@)) is Some),
        },
{
}

/// What is read of a [`Conversation`] stands in the members of these names, and it is read
/// where they hold what they should.
pub proof fn law_conversation_reads_its_members(v: JsonV)
    requires
        v is Obj,
    ensures
        match conversation_of(v) {
            Some(x) => {
                &&& x.id == json::str_of(json::get_of(v, "id"@))
                &&& (json::get_of(v, "threadProperties"@) is None
                    || json::get_of(v, "threadProperties"@) == Some(JsonV::Null))
                    ==> x.thread_properties is None
                &&& json::get_of(v, "threadProperties"@) matches Some(w) ==> w != JsonV::Null
                    ==> x.thread_properties is Some
                    && thread_properties_of(w) == x.thread_properties
                &&& (json::get_of(v, "lastMessage"@) is None
                    || json::get_of(v, "lastMessage"@) == Some(JsonV::Null))
                    ==> x.last_message is None
                &&& json::get_of(v, "lastMessage"@) matches Some(w) ==> w != JsonV::Null
                    ==> x.last_message is Some && native_message_of(w) == x.last_message
            },
            None => !(json::opt_text_member(json::get_of(v, "id"@)) is Some
                && opt_thread_properties_member(json::get_of(v, "threadProperties"@)) is Some
                && opt_native_message_member(json::get_of(v, "lastMessage"@)) is Some),
        },
{
}

// The entries of a list, in their order.
proof fn lemma_conversation_list_entries(a: Seq<JsonV>)
    ensures
        conversation_list(a) matches Some(l) ==> l.len() == a.len() && forall|i: int|
            0 <= i < a.len() ==> conversation_of(a[i]) == Some(#[trigger] l[i]),
    decreases a.len(),
{
    if a.len() > 0 {
        lemma_conversation_list_entries(a.drop_last());
        if let Some(l) = conversation_list(a) {
            assert forall|i: int| 0 <= i < a.len() implies conversation_of(a[i])
                == Some(#[trigger] l[i]) by {
                if i < a.len() - 1 {
                    let before = conversation_list(a.drop_last())->0;
                    assert(l[i] == before[i]);
                    assert(a.drop_last()[i] == a[i]);
                }
            }
        }
    }
}

/// What is read of a [`ConversationsResponse`] stands in the members of these names, and it is read
/// where they hold what they should.
pub proof fn law_conversations_response_reads_its_members(v: JsonV)
    requires
        v is Obj,
    ensures
        match conversations_response_of(v) {
            Some(x) => {
                &&& x.conversations is None <==> json::get_of(v, "conversations"@) is None
                    || json::get_of(v, "conversations"@) == Some(JsonV::Null)
                &&& x.conversations matches Some(l)
                    ==> (json::arr_of(json::get_of(v, "conversations"@)) matches Some(a)
                    && l.len() == a.len() && forall|i: int| 0 <= i < a.len()
                    ==> conversation_of(a[i]) == Some(#[trigger] l[i]))
            },
            None => !(opt_conversation_list_member(json::get_of(v, "conversations"@)) is Some),
        },
{
    if let Some(JsonV::Arr(a)) = json::get_of(v, "conversations"@) {
        lemma_conversation_list_entries(a);
    }
}

/// What is read of a [`MessagesMetadata`] stands in the members of these names, and it is read
/// where they hold what they should.
pub proof fn law_messages_metadata_reads_its_members(v: JsonV)
    requires
        v is Obj,
    ensures
        match messages_metadata_of(v) {
            Some(x) => {
                &&& x.backward_link == json::str_of(json::get_of(v, "backwardLink"@))
            },
            None => !(json::opt_text_member(json::get_of(v, "backwardLink"@)) is Some),
        },
{
}

// The entries of a list, in their order.
proof fn lemma_native_message_list_entries(a: Seq<JsonV>)
    ensures
        native_message_list(a) matches Some(l) ==> l.len() == a.len() && forall|i: int|
            0 <= i < a.len() ==> native_message_of(a[i]) == Some(#[trigger] l[i]),
    decreases a.len(),
{
    if a.len() > 0 {
        lemma_native_message_list_entries(a.drop_last());
        if let Some(l) = native_message_list(a) {
            assert forall|i: int| 0 <= i < a.len() implies native_message_of(a[i])
                == Some(#[trigger] l[i]) by {
                if i < a.len() - 1 {
                    let before = native_message_list(a.drop_last())->0;
                    assert(l[i] == before[i]);
                    assert(a.drop_last()[i] == a[i]);
                }
            }
        }
    }
}

/// What is read of a [`MessagesResponse`] stands in the members of these names, and it is read
/// where they hold what they should.
pub proof fn law_messages_response_reads_its_members(v: JsonV)
    requires
        v is Obj,
    ensures
        match messages_response_of(v) {
            Some(x) => {
                &&& x.messages is None <==> json::get_of(v, "messages"@) is None
                    || json::get_of(v, "messages"@) == Some(JsonV::Null)
                &&& x.messages matches Some(l)
                    ==> (json::arr_of(json::get_of(v, "messages"@)) matches Some(a)
                    && l.len() == a.len() && forall|i: int| 0 <= i < a.len()
                    ==> native_message_of(a[i]) == Some(#[trigger] l[i]))
                &&& (json::get_of(v, "_metadata"@) is None
                    || json::get_of(v, "_metadata"@) == Some(JsonV::Null)) ==> x.metadata is None
                &&& json::get_of(v, "_metadata"@) matches Some(w) ==> w != JsonV::Null
                    ==> x.metadata is Some && messages_metadata_of(w) == x.metadata
            },
            None => !(opt_native_message_list_member(json::get_of(v, "messages"@)) is Some
                && opt_messages_metadata_member(json::get_of(v, "_metadata"@)) is Some),
        },
{
    if let Some(JsonV::Arr(a)) = json::get_of(v, "messages"@) {
        lemma_native_message_list_entries(a);
    }
}

// -- What is listed --

/// Messages are listed from the last of the page to the first: those of the later part
/// of a page stand before those of the earlier part.
pub proof fn law_later_messages_first(earlier: Seq<NativeMessageV>, later: Seq<NativeMessageV>)
    ensures
        message_rows(earlier + later) == message_rows(later) + message_rows(earlier),
    decreases earlier.len(),
{
    if earlier.len() == 0 {
        assert(earlier + later =~= later);
        assert(message_rows(later) + message_rows(earlier) =~= message_rows(later));
    } else {
        law_later_messages_first(earlier.skip(1), later);
        assert((earlier + later).skip(1) =~= earlier.skip(1) + later);
        assert((earlier + later)[0] == earlier[0]);
        assert(message_rows(earlier + later) =~= message_rows(later) + message_rows(earlier));
    }
}

/// Of two messages that are shown, the one that stands later in the page comes earlier in
/// the list, wherever they stand.
pub proof fn law_later_message_comes_earlier(v: Seq<NativeMessageV>, i: int, j: int) -> (at: (
    int,
    int,
))
    requires
        0 <= i < j < v.len(),
        message_info_of(v[i]) is Some,
        message_info_of(v[j]) is Some,
    ensures
        0 <= at.1 < at.0 < message_rows(v).len(),
        message_rows(v)[at.0] == message_info_of(v[i])->0,
        message_rows(v)[at.1] == message_info_of(v[j])->0,
{
    let before = v.take(i);
    let between = v.subrange(i + 1, j);
    let after = v.skip(j + 1);
    let first = Seq::empty().push(v[i]);
    let second = Seq::empty().push(v[j]);
    lemma_one_message(v[i]);
    lemma_one_message(v[j]);
    law_later_messages_first(second, after);
    law_later_messages_first(between, second + after);
    law_later_messages_first(first, between + (second + after));
    law_later_messages_first(before, first + (between + (second + after)));
    assert(v =~= before + (first + (between + (second + after))));
    let a = message_rows(after);
    let b = message_rows(between);
    let r = message_rows(v);
    assert(r == a + message_rows(second) + b + message_rows(first) + message_rows(before));
    let q = a.len() as int;
    let p = (a.len() + 1 + b.len()) as int;
    assert(r[q] == message_info_of(v[j])->0);
    assert(r[p] == message_info_of(v[i])->0);
    (p, q)
}

proof fn lemma_one_message(m: NativeMessageV)
    ensures
        message_rows(Seq::empty().push(m)) == match message_info_of(m) {
            Some(x) => Seq::empty().push(x),
            None => Seq::empty(),
        },
{
    let one = Seq::empty().push(m);
    assert(one.skip(1) =~= Seq::empty());
    assert(message_rows(one.skip(1)) =~= Seq::empty());
}

/// A page of which every message is shown gives as many, in the other order: the last of
/// the page first.
pub proof fn law_whole_page_is_turned_round(v: Seq<NativeMessageV>)
    requires
        forall|i: int| 0 <= i < v.len() ==> message_info_of(#[trigger] v[i]) is Some,
    ensures
        message_rows(v).len() == v.len(),
        forall|i: int|
            0 <= i < v.len() ==> #[trigger] message_rows(v)[i] == message_info_of(
                v[v.len() - 1 - i],
            )->0,
    decreases v.len(),
{
    if v.len() > 0 {
        let rest = v.skip(1);
        assert forall|i: int| 0 <= i < rest.len() implies message_info_of(
            #[trigger] rest[i],
        ) is Some by {
            assert(rest[i] == v[i + 1]);
        }
        law_whole_page_is_turned_round(rest);
        assert forall|i: int| 0 <= i < v.len() implies #[trigger] message_rows(v)[i]
            == message_info_of(v[v.len() - 1 - i])->0 by {
            if i < v.len() - 1 {
                assert(message_rows(v)[i] == message_rows(rest)[i]);
                assert(rest[rest.len() - 1 - i] == v[v.len() - 1 - i]);
            }
        }
    }
}

/// What is listed of a page are messages of it: nothing is listed that the page does not
/// hold.
pub proof fn law_listed_messages_are_of_the_page(v: Seq<NativeMessageV>, k: int) -> (i: int)
    requires
        0 <= k < message_rows(v).len(),
    ensures
        0 <= i < v.len(),
        message_info_of(v[i]) == Some(message_rows(v)[k]),
    decreases v.len(),
{
    if message_info_of(v[0]) is Some && k == message_rows(v.skip(1)).len() {
        0
    } else {
        let i = law_listed_messages_are_of_the_page(v.skip(1), k);
        assert(v.skip(1)[i] == v[i + 1]);
        i + 1
    }
}

/// A message is shown with its own text, sender and time, or not at all: not where its
/// kind is no text, nor where it holds neither text nor an image.
pub proof fn law_message_is_shown_as_it_is(m: NativeMessageV, kind: Seq<char>, html: Seq<char>)
    requires
        m.messagetype == Some(kind),
        m.content == Some(html),
    ensures
        !text::contains_text(kind, "Text"@) && !text::contains_text(kind, "RichText"@)
            ==> message_info_of(m) is None,
        text::contains_text(kind, "Media_"@) ==> message_info_of(m) is None,
        text::trimmed(web::visible_text(split_quote(html).1, ""@)).len() == 0
            && !text::contains_text(text::lowered(html), "<img"@) ==> message_info_of(m) is None,
        message_info_of(m) matches Some(x) ==> {
            &&& x.raw == html
            &&& x.content == text::trimmed(web::visible_text(split_quote(html).1, ""@))
            &&& x.reply_to == split_quote(html).0
            &&& m.original_arrival_time matches Some(t) ==> x.timestamp == t
            &&& m.original_arrival_time is None ==> (m.compose_time matches Some(t)
                ==> x.timestamp == t)
            &&& m.im_display_name matches Some(n) ==> (!text::blank(n) ==> x.sender == n)
            &&& m.im_display_name is None ==> x.sender == "?"@
            &&& m.id matches Some(id) ==> (id.len() > 0 ==> x.id == id)
        },
        text::contains_text(kind, "Text"@) && !text::contains_text(kind, "Media_"@)
            && text::trimmed(web::visible_text(split_quote(html).1, ""@)).len() > 0
            ==> message_info_of(m) is Some,
{
}

/// A message without a quote is all its own.
pub proof fn law_unquoted_message_is_whole(html: Seq<char>)
    requires
        !text::contains_text(html, "<quote"@),
    ensures
        split_quote(html) == (None::<Seq<char>>, html),
{
    text::lemma_contains_find(html, "<quote"@);
}

/// A chat goes by its topic, else by who wrote last, else by its id.
pub proof fn law_chat_goes_by_its_topic(c: ConversationV, id: Seq<char>)
    requires
        c.id == Some(id),
    ensures
        id.len() == 0 ==> chat_info_of(c) is None,
        id.len() > 0 ==> (chat_info_of(c) matches Some(x) && {
            &&& x.id == id
            &&& c.thread_properties matches Some(p) ==> (p.topic matches Some(t) ==> (t.len() > 0
                ==> x.name == t))
            &&& c.thread_properties is None ==> (c.last_message matches Some(m) ==> (
            m.im_display_name matches Some(n) ==> (n.len() > 0 ==> x.name == n)))
            &&& c.thread_properties is None && c.last_message is None ==> x.name == id
            &&& text::contains_text(id, "thread"@) ==> x.is_group
            &&& text::contains_text(id, "meeting"@) ==> x.is_group
            &&& !text::contains_text(id, "thread"@) && !text::contains_text(id, "meeting"@)
                ==> !x.is_group
            &&& c.last_message is None ==> x.last_message_time is None && x.last_message_sender
                is None && x.last_message_preview is None
            &&& c.last_message matches Some(m) ==> x.last_message_sender == m.im_display_name
            &&& c.last_message matches Some(m) ==> (m.original_arrival_time is Some
                ==> x.last_message_time == m.original_arrival_time)
            &&& c.last_message matches Some(m) ==> (m.original_arrival_time is None
                ==> x.last_message_time == m.compose_time)
        }),
{
}

/// A preview of at most eighty bytes is whole; a longer one is cut to at most eighty and
/// begins as it did.
pub proof fn law_preview_begins_as_the_message(s: Seq<char>)
    ensures
        encode_utf8(s).len() <= 80 ==> cut_preview(s) == s,
        encode_utf8(s).len() > 80 ==> exists|k: int|
            0 <= k <= s.len() && #[trigger] s.take(k) + "..."@ == cut_preview(s)
                && encode_utf8(s.take(k)).len() <= 77 && (k < s.len() ==> encode_utf8(
                s.take(k + 1),
            ).len() > 77),
{
    if encode_utf8(s).len() > 80 {
        let k = chars_within(s, 77) as int;
        lemma_within(s, 77);
        assert(s.take(k) + "..."@ == cut_preview(s));
    }
}

proof fn lemma_within(s: Seq<char>, n: int)
    requires
        n >= 0,
    ensures
        0 <= chars_within(s, n) <= s.len(),
        encode_utf8(s.take(chars_within(s, n) as int)).len() <= n,
        chars_within(s, n) < s.len() ==> encode_utf8(
            s.take(chars_within(s, n) as int + 1),
        ).len() > n,
    decreases s.len(),
{
    let k = chars_within(s, n) as int;
    reveal_with_fuel(encode_utf8, 2);
    if s.len() == 0 || char_width(s[0]) > n {
        assert(s.take(0) =~= Seq::empty());
        if s.len() > 0 {
            assert(s.take(1).drop_first() =~= Seq::empty());
            assert(s.take(1)[0] == s[0]);
        }
    } else {
        lemma_within(s.skip(1), n - char_width(s[0]));
        assert(s.take(k).drop_first() =~= s.skip(1).take(k - 1));
        assert(s.take(k)[0] == s[0]);
        if k < s.len() {
            assert(s.take(k + 1).drop_first() =~= s.skip(1).take(k));
            assert(s.take(k + 1)[0] == s[0]);
        }
    }
}

/// Chats are listed in the order in which they came: those of the first part before those
/// of the second.
pub proof fn law_chats_keep_their_order(a: Seq<ConversationV>, b: Seq<ConversationV>)
    ensures
        chat_rows(a + b) == chat_rows(a) + chat_rows(b),
    decreases b.len(),
{
    if b.len() == 0 {
        assert(a + b =~= a);
        assert(chat_rows(a) + chat_rows(b) =~= chat_rows(a));
    } else {
        law_chats_keep_their_order(a, b.drop_last());
        assert((a + b).drop_last() =~= a + b.drop_last());
        assert((a + b).last() == b.last());
        assert(chat_rows(a + b) =~= chat_rows(a) + chat_rows(b));
    }
}

/// A chat is listed once, unless it has no id.
pub proof fn law_every_chat_is_listed(c: ConversationV)
    ensures
        (c.id matches Some(id) && id.len() > 0) ==> chat_rows(Seq::empty().push(c)).len() == 1
            && Some(chat_rows(Seq::empty().push(c))[0].id) == c.id,
        !(c.id matches Some(id) && id.len() > 0) ==> chat_rows(Seq::empty().push(c)).len() == 0,
{
    let one = Seq::empty().push(c);
    assert(one.drop_last() =~= Seq::empty());
    assert(chat_rows(one.drop_last()) =~= Seq::empty());
}

/// The page size stands behind its name, and nothing else of the address changes.
pub proof fn law_page_size_is_the_limit(
    head: Seq<char>,
    digits: Seq<char>,
    rest: Seq<char>,
    limit: nat,
)
    requires
        text::find_in(head + "pageSize="@ + digits + rest, "pageSize="@) == Some(
            head.len() as int,
        ),
        forall|i: int| 0 <= i < digits.len() ==> '0' <= #[trigger] digits[i] <= '9',
        rest.len() > 0 ==> !('0' <= rest[0] <= '9'),
    ensures
        resized(head + "pageSize="@ + digits + rest, limit) == head + "pageSize="@
            + text::decimal(limit) + rest,
{
    reveal_strlit("pageSize=");
    let url = head + "pageSize="@ + digits + rest;
    let i = head.len() as int;
    assert(url.take(i + 9) =~= head + "pageSize="@);
    assert(url.skip(i + 9) =~= digits + rest);
    lemma_after_digits(digits, rest);
}

proof fn lemma_after_digits(digits: Seq<char>, rest: Seq<char>)
    requires
        forall|i: int| 0 <= i < digits.len() ==> '0' <= #[trigger] digits[i] <= '9',
        rest.len() > 0 ==> !('0' <= rest[0] <= '9'),
    ensures
        after_digits(digits + rest) == rest,
    decreases digits.len(),
{
    if digits.len() == 0 {
        assert(digits + rest =~= rest);
    } else {
        assert((digits + rest)[0] == digits[0]);
        assert((digits + rest).skip(1) =~= digits.skip(1) + rest);
        assert forall|i: int| 0 <= i < digits.skip(1).len() implies '0' <= #[trigger] digits.skip(
            1,
        )[i] <= '9' by {
            assert(digits.skip(1)[i] == digits[i + 1]);
        }
        lemma_after_digits(digits.skip(1), rest);
    }
}

/// The messages that are shown stand one after the other, in the order of the list.
pub proof fn law_messages_are_shown_in_order(a: Seq<MessageInfoV>, b: Seq<MessageInfoV>)
    ensures
        messages_shown(a + b) == messages_shown(a) + messages_shown(b),
    decreases b.len(),
{
    if b.len() == 0 {
        assert(a + b =~= a);
        assert(messages_shown(a) + messages_shown(b) =~= messages_shown(a));
    } else {
        law_messages_are_shown_in_order(a, b.drop_last());
        assert((a + b).drop_last() =~= a + b.drop_last());
        assert((a + b).last() == b.last());
        assert(messages_shown(a + b) =~= messages_shown(a) + messages_shown(b));
    }
}

/// The chats that are shown stand one after the other, in the order of the list.
pub proof fn law_chats_are_shown_in_order(a: Seq<ChatInfoV>, b: Seq<ChatInfoV>)
    ensures
        chats_shown(a + b) == chats_shown(a) + chats_shown(b),
    decreases b.len(),
{
    if b.len() == 0 {
        assert(a + b =~= a);
        assert(chats_shown(a) + chats_shown(b) =~= chats_shown(a));
    } else {
        law_chats_are_shown_in_order(a, b.drop_last());
        assert((a + b).drop_last() =~= a + b.drop_last());
        assert((a + b).last() == b.last());
        assert(chats_shown(a + b) =~= chats_shown(a) + chats_shown(b));
    }
}

/// A message carries the text that was given, as HTML.
pub proof fn law_message_carries_its_html(html: Seq<char>)
    ensures
        ({
            let b = html_message_payload(html);
            &&& json::str_of(json::get_of(b, "content"@)) == Some(html)
            &&& json::str_of(json::get_of(b, "messagetype"@)) == Some("RichText/Html"@)
            &&& json::str_of(json::get_of(b, "contenttype"@)) == Some("text"@)
        }),
{
    broadcast use json::group_members;

    assert("content"@.len() == 7) by {
        reveal_strlit("content");
    }
    assert("messagetype"@.len() == 11 && "messagetype"@[0] == 'm') by {
        reveal_strlit("messagetype");
    }
    assert("contenttype"@.len() == 11 && "contenttype"@[0] == 'c') by {
        reveal_strlit("contenttype");
    }
}

/// A message is shown by its time, its sender and its text, and by what it replies to.
pub proof fn law_message_line(x: MessageInfoV)
    ensures
        x.reply_to is None ==> message_shown(x) == "["@ + x.timestamp + "] "@ + x.sender + ": "@
            + x.content + "\n"@,
        x.reply_to matches Some(t) ==> message_shown(x) == "["@ + x.timestamp + "] "@ + x.sender
            + ": "@ + x.content + (" (reply to "@ + t + ")"@) + "\n"@,
{
    let s = "["@ + x.timestamp + "] "@ + x.sender + ": "@ + x.content;
    assert(s + Seq::empty() =~= s);
}

/// A chat is shown by its name, then by its id.
pub proof fn law_chat_begins_with_its_name(x: ChatInfoV)
    ensures
        (x.name + "\n  ID: "@ + x.id + "\n"@).is_prefix_of(chat_shown(x)),
        (x.last_message_preview matches Some(p) && text::blank(p)) ==> preview_shown(x).len() == 0,
        x.last_message_preview is None ==> preview_shown(x).len() == 0,
        x.last_message_preview matches Some(p) ==> (!text::blank(p) ==> (x.last_message_sender
            matches Some(s) ==> preview_shown(x) == "  ["@ + s + "]: "@ + text::trimmed(p)
                + "\n"@)),
{
    let p = x.name + "\n  ID: "@ + x.id + "\n"@;
    assert(chat_shown(x).subrange(0, p.len() as int) =~= p);
}

/// The lists of chats and messages are those of the answers that were read; without a
/// list there is nothing, and the link back is the one that the answer names.
pub proof fn law_pages_are_read(v: JsonV)
    ensures
        chats_of(v) is Some <==> conversations_response_of(v) is Some,
        conversations_response_of(v) matches Some(x) ==> (x.conversations matches Some(l)
            ==> chats_of(v) == Some(chat_rows(l))),
        conversations_response_of(v) matches Some(x) ==> (x.conversations is None ==> chats_of(v)
            == Some(Seq::<ChatInfoV>::empty())),
        page_of(v) is Some <==> messages_response_of(v) is Some,
        messages_response_of(v) matches Some(x) ==> {
            &&& x.messages matches Some(l) ==> page_of(v)->0.messages == message_rows(l)
            &&& x.messages is None ==> page_of(v)->0.messages.len() == 0
            &&& x.metadata matches Some(m) ==> page_of(v)->0.backward_link == m.backward_link
            &&& x.metadata is None ==> page_of(v)->0.backward_link is None
        },
{
}

/// Chats are asked for at the services in turn, each at its own address.
pub proof fn law_chats_are_asked_for(aggregator: Seq<char>, service: Seq<char>)
    ensures
        aggregator.is_prefix_of(chats_address(ChatSource::Aggregator, aggregator, service)),
        service.is_prefix_of(chats_address(ChatSource::ChatService, aggregator, service)),
        chats_address(ChatSource::Aggregator, aggregator, service) == aggregator
            + "/api/v2/users/ME/conversations?view=mychats&pageSize="@,
        chats_address(ChatSource::ChatService, aggregator, service) == service
            + "/v1/users/ME/conversations?view=mychats&pageSize="@,
        chats_address(ChatSource::Csa, aggregator, service)
            == "https://teams.microsoft.com/api/csa/api/v1/teams/users/ME/conversations?view=mychats&pageSize="@,
{
    let a = chats_address(ChatSource::Aggregator, aggregator, service);
    let b = chats_address(ChatSource::ChatService, aggregator, service);
    assert(a.subrange(0, aggregator.len() as int) =~= aggregator);
    assert(b.subrange(0, service.len() as int) =~= service);
}

/// A quote that is put before a reply is at most a hundred and forty characters of one
/// line, and says where it was cut.
pub proof fn law_snippet_is_cut_at_its_length(s: Seq<char>)
    ensures
        web::collapsed(s).len() <= 140 ==> snippet(s) == web::collapsed(s),
        web::collapsed(s).len() > 140 ==> snippet(s).len() == 141 && snippet(s).take(140)
            == web::collapsed(s).take(140) && snippet(s).last() == '\u{2026}',
{
    if web::collapsed(s).len() > 140 {
        assert(snippet(s).take(140) =~= web::collapsed(s).take(140));
    }
}

/// A quote names who wrote what it quotes and which message that was, and the reply stands
/// behind it, all of it escaped.
pub proof fn law_reply_stands_behind_its_quote(
    parent_id: Seq<char>,
    parent_sender: Seq<char>,
    parent_text: Seq<char>,
    message: Seq<char>,
)
    ensures
        ({
            let h = reply_html(parent_id, parent_sender, parent_text, message);
            &&& ("<quote author=\""@ + web::escaped(parent_sender, true) + "\" guid=\""@
                + web::escaped(parent_id, true) + "\">"@ + web::escaped(
                snippet(parent_text),
                true,
            )).is_prefix_of(h)
            &&& ("</quote><p>"@ + web::escaped(message, true) + "</p>"@).is_suffix_of(h)
        }),
{
    let h = reply_html(parent_id, parent_sender, parent_text, message);
    let a = "<quote author=\""@ + web::escaped(parent_sender, true) + "\" guid=\""@
        + web::escaped(parent_id, true) + "\">"@ + web::escaped(snippet(parent_text), true);
    let b = "</quote><p>"@ + web::escaped(message, true) + "</p>"@;
    assert(h.subrange(0, a.len() as int) =~= a);
    assert(h.subrange(h.len() - b.len(), h.len() as int) =~= b);
}

/// A quote is taken out of its message, which keeps what stands before and behind it; what
/// it quotes is the id that its tag names. A quote that does not end is left in.
pub proof fn law_quote_is_taken_out(
    before: Seq<char>,
    tag: Seq<char>,
    inner: Seq<char>,
    behind: Seq<char>,
)
    requires
        "<quote"@.is_prefix_of(tag),
        !tag.contains('>'),
        text::find_in(
            before + tag + ">"@ + inner + "</quote>"@ + behind,
            "<quote"@,
        ) == Some(before.len() as int),
        text::find_in(inner + "</quote>"@ + behind, "</quote>"@) == Some(inner.len() as int),
    ensures
        split_quote(before + tag + ">"@ + inner + "</quote>"@ + behind) == (
            quoted_id(tag),
            before + behind,
        ),
{
    assert(">"@.len() == 1 && ">"@[0] == '>') by {
        reveal_strlit(">");
    }
    assert("</quote>"@.len() == 8) by {
        reveal_strlit("</quote>");
    }
    let s = before + tag + ">"@ + inner + "</quote>"@ + behind;
    let rest = s.skip(before.len() as int);
    let tail = inner + "</quote>"@ + behind;
    assert(rest =~= tag + ">"@ + tail);
    text::lemma_index_from(rest, '>', 0);
    assert(rest[tag.len() as int] == '>');
    assert forall|j: int| 0 <= j < tag.len() implies #[trigger] rest[j] != '>' by {
        assert(rest[j] == tag[j]);
        assert(tag.contains(tag[j]));
    }
    assert(text::first_index(rest, '>') == Some(tag.len() as int));
    assert(rest.skip(tag.len() as int + 1) =~= tail);
    assert(rest.take(tag.len() as int) =~= tag);
    assert(tail.skip(inner.len() as int + 8) =~= behind);
    assert(s.take(before.len() as int) =~= before);
}

/// A quote that names no message, or an empty one, leaves a message that replies to none.
pub proof fn law_quote_without_id(tag: Seq<char>, g: Seq<char>)
    ensures
        guid_of(tag) is None ==> quoted_id(tag) is None,
        guid_of(tag) == Some(g) && g.len() == 0 ==> quoted_id(tag) is None,
        guid_of(tag) == Some(g) && g.len() > 0 ==> quoted_id(tag) == Some(web::decoded_entities(g)),
        guid_between(tag, '"') == Some(g) ==> guid_of(tag) == Some(g),
        guid_between(tag, '"') is None ==> guid_of(tag) == guid_between(tag, '\''),
{
}

/// The id in the tag of a quote stands between its quotes, of either kind.
pub proof fn law_id_stands_in_the_tag(p: Seq<char>, q: char, g: Seq<char>, rest: Seq<char>)
    requires
        !p.contains('='),
        !g.contains(q),
        q == '"' || q == '\'',
        forall|j: int|
            0 <= j < p.len() ==> !#[trigger] text::occurs_at(
                p + "guid="@.push(q) + g + Seq::empty().push(q) + rest,
                "guid="@.push(q),
                j,
            ),
    ensures
        guid_between(p + "guid="@.push(q) + g + Seq::empty().push(q) + rest, q) == Some(g),
{
    let mark = "guid="@.push(q);
    let tag = p + mark + g + Seq::empty().push(q) + rest;
    let n = p.len() as int;
    assert(mark.len() == 6) by {
        reveal_strlit("guid=");
    }
    lemma_guid_from(tag, q, 0, n);
    assert(tag.subrange(n, n + 6) =~= mark);
    assert(text::occurs_at(tag, mark, n));
    let e = n + 6 + g.len();
    text::lemma_index_from(tag, q, n + 6);
    assert(tag[e] == q);
    assert forall|j: int| n + 6 <= j < e implies #[trigger] tag[j] != q by {
        assert(tag[j] == g[j - n - 6]);
        assert(g.contains(g[j - n - 6]));
    }
    assert(tag.subrange(n + 6, e) =~= g);
    assert(text::index_from(tag, q, n + 6) == Some(e));
    assert(quoted_end(tag, n, false) is None);
    assert(guid_from(tag, q, n, false) == Some(g));
    reveal(guid_between);
}

proof fn lemma_guid_from(tag: Seq<char>, q: char, i: int, n: int)
    requires
        0 <= i <= n < tag.len(),
        forall|j: int| i <= j < n ==> !#[trigger] text::occurs_at(tag, "guid="@.push(q), j),
        forall|j: int| i <= j < n ==> #[trigger] tag[j] != '=',
    ensures
        guid_from(tag, q, i, false) == guid_from(tag, q, n, false),
    decreases n - i,
{
    if i < n {
        assert(!text::occurs_at(tag, "guid="@.push(q), i));
        assert(tag[i] != '=');
        lemma_guid_from(tag, q, i + 1, n);
    }
}

/// An address that names no page size stays as it is.
pub proof fn law_address_without_page_size_stays(url: Seq<char>, limit: nat)
    requires
        !text::contains_text(url, "pageSize="@),
    ensures
        resized(url, limit) == url,
{
    text::lemma_contains_find(url, "pageSize="@);
}

} // verus!
