//! The chat task: a conversation, its sampling parameters, the request that
//! carries them and the answer that comes back.

use std::borrow::Cow;

use vstd::prelude::*;
use vstd::string::StringExecFns;

use crate::json::{
    items_view, lemma_first_named_concat, lemma_first_named_optional, lemma_items_view_push,
    lemma_members_view_push, members_view, optional_member, Json, JsonView, Number,
};
use crate::task::{Method, Request, RequestView, Task};

verus! {

/// Who speaks in one turn of a conversation.
#[derive(Debug, Clone, Copy, PartialEq, Eq, Hash)]
pub enum Role {
    System,
    User,
    Assistant,
}

impl Role {
    /// The lower-case name under which the role travels on the wire.
    pub open spec fn wire_name(self) -> Seq<char> {
        match self {
            Role::System => "system"@,
            Role::User => "user"@,
            Role::Assistant => "assistant"@,
        }
    }

    /// The role that a wire name stands for, if it stands for one.
    pub open spec fn spec_from_wire_name(name: Seq<char>) -> Option<Role> {
        if name == "system"@ {
            Some(Role::System)
        } else if name == "user"@ {
            Some(Role::User)
        } else if name == "assistant"@ {
            Some(Role::Assistant)
        } else {
            None
        }
    }

    /// The wire name of this role.
    pub fn as_str(&self) -> (name: &'static str)
        ensures
            name@ == self.wire_name(),
    {
        match self {
            Role::System => "system",
            Role::User => "user",
            Role::Assistant => "assistant",
        }
    }

    /// Reads a wire name back into a role. Any other text is no role.
    pub fn from_wire_name(name: &str) -> (role: Option<Role>)
        ensures
            role == Role::spec_from_wire_name(name@),
    {
        let name = name.to_owned();
        if name == "system".to_owned() {
            Some(Role::System)
        } else if name == "user".to_owned() {
            Some(Role::User)
        } else if name == "assistant".to_owned() {
            Some(Role::Assistant)
        } else {
            None
        }
    }
}

/// One turn of a conversation.
#[derive(Debug, PartialEq, Eq)]
pub struct Message<'a> {
    pub role: Role,
    pub content: Cow<'a, str>,
}

/// What a [`Message`] holds.
pub struct MessageView {
    pub role: Role,
    pub content: Seq<char>,
}

impl MessageView {
    /// The message as it goes on the wire: an object of the role's wire name
    /// and the content.
    pub open spec fn document(self) -> JsonView {
        JsonView::Object(
            seq![
                ("role"@, JsonView::Text(self.role.wire_name())),
                ("content"@, JsonView::Text(self.content)),
            ],
        )
    }
}

impl<'a> View for Message<'a> {
    type V = MessageView;

    open spec fn view(&self) -> MessageView {
        MessageView { role: self.role, content: self.content@ }
    }
}

impl<'a> Message<'a> {
    /// The message as a JSON document.
    pub fn to_json(&self) -> (document: Json)
        ensures
            document@ == self@.document(),
    {
        let content = match &self.content {
            Cow::Borrowed(text) => (*text).to_owned(),
            Cow::Owned(text) => text.clone(),
        };
        let mut members: Vec<(String, Json)> = Vec::new();
        members.push(("role".to_owned(), Json::Text(self.role.as_str().to_owned())));
        members.push(("content".to_owned(), Json::Text(content)));
        let document = Json::Object(members);
        assert(members_view(members@) =~= seq![
            ("role"@, JsonView::Text(self.role.wire_name())),
            ("content"@, JsonView::Text(self.content@)),
        ]);
        document
    }
}

/// What a sequence of messages holds, message by message.
pub open spec fn messages_view<'a>(messages: Seq<Message<'a>>) -> Seq<MessageView> {
    messages.map_values(|message: Message<'a>| message@)
}

/// A chat completion task: the conversation so far and how the answer is to
/// be sampled.
pub struct TaskChat<'a> {
    /// The conversation so far, oldest message first.
    pub messages: Vec<Message<'a>>,
    /// The most tokens that the answer may have. Unset, the model writes until
    /// it stops by itself or reaches its own limit.
    pub maximum_tokens: Option<u32>,
    /// How random the answer may be, expected between 0 and 1. Higher values
    /// make less probable outputs more likely.
    pub temperature: Option<Number>,
    /// The probability mass of the most probable tokens among which the next
    /// token is picked.
    pub top_p: Option<Number>,
}

/// What a [`TaskChat`] holds.
pub struct TaskChatView {
    pub messages: Seq<MessageView>,
    pub maximum_tokens: Option<u32>,
    pub temperature: Option<Number>,
    pub top_p: Option<Number>,
}

impl TaskChatView {
    /// The task of one message, with no sampling parameter set.
    pub open spec fn new(role: Role, content: Seq<char>) -> TaskChatView {
        TaskChatView {
            messages: seq![MessageView { role, content }],
            maximum_tokens: None,
            temperature: None,
            top_p: None,
        }
    }

    /// The task with one more message at the end of its conversation.
    pub open spec fn append_message(self, role: Role, content: Seq<char>) -> TaskChatView {
        TaskChatView { messages: self.messages.push(MessageView { role, content }), ..self }
    }

    /// The task with the most tokens of the answer set to `maximum_tokens`.
    pub open spec fn with_maximum_tokens(self, maximum_tokens: u32) -> TaskChatView {
        TaskChatView { maximum_tokens: Some(maximum_tokens), ..self }
    }

    /// The task with the temperature set to `temperature`.
    pub open spec fn with_temperature(self, temperature: Number) -> TaskChatView {
        TaskChatView { temperature: Some(temperature), ..self }
    }

    /// The task with the nucleus set to `top_p`.
    pub open spec fn with_top_p(self, top_p: Number) -> TaskChatView {
        TaskChatView { top_p: Some(top_p), ..self }
    }

    /// The task after a run of appends: the messages of `more` appended one
    /// by one, the first of them first.
    pub open spec fn append_messages(self, more: Seq<MessageView>) -> TaskChatView
        decreases more.len(),
    {
        if more.len() == 0 {
            self
        } else {
            self.append_messages(more.drop_last()).append_message(
                more.last().role,
                more.last().content,
            )
        }
    }

    /// A task keeps at least one message.
    pub open spec fn wf(self) -> bool {
        self.messages.len() > 0
    }
}

impl<'a> View for TaskChat<'a> {
    type V = TaskChatView;

    open spec fn view(&self) -> TaskChatView {
        TaskChatView {
            messages: messages_view(self.messages@),
            maximum_tokens: self.maximum_tokens,
            temperature: self.temperature,
            top_p: self.top_p,
        }
    }
}

impl<'a> TaskChat<'a> {
    /// A task whose conversation is the one message given. The sampling
    /// parameters are left unset.
    pub fn new(role: Role, content: Cow<'a, str>) -> (task: Self)
        ensures
            task@ == TaskChatView::new(role, content@),
            task@.wf(),
    {
        let mut messages = Vec::new();
        messages.push(Message { role, content });
        let task = TaskChat { messages, maximum_tokens: None, temperature: None, top_p: None };
        assert(task@.messages =~= seq![MessageView { role, content: content@ }]);
        task
    }

    /// Puts one more message at the end of the conversation. The messages
    /// that were there stay as they are and where they are.
    pub fn append_message(self, role: Role, content: Cow<'a, str>) -> (task: Self)
        ensures
            task@ == self@.append_message(role, content@),
            task@.wf(),
    {
        let mut task = self;
        task.messages.push(Message { role, content });
        assert(task@.messages =~= self@.messages.push(MessageView { role, content: content@ }));
        task
    }

    /// Sets the most tokens that the answer may have, and nothing else.
    pub fn with_maximum_tokens(self, maximum_tokens: u32) -> (task: Self)
        ensures
            task@ == self@.with_maximum_tokens(maximum_tokens),
            task@.wf() == self@.wf(),
    {
        let mut task = self;
        task.maximum_tokens = Some(maximum_tokens);
        task
    }

    /// Sets the temperature, and nothing else.
    pub fn with_temperature(self, temperature: Number) -> (task: Self)
        ensures
            task@ == self@.with_temperature(temperature),
            task@.wf() == self@.wf(),
    {
        let mut task = self;
        task.temperature = Some(temperature);
        task
    }

    /// Sets the nucleus, and nothing else.
    pub fn with_top_p(self, top_p: Number) -> (task: Self)
        ensures
            task@ == self@.with_top_p(top_p),
            task@.wf() == self@.wf(),
    {
        let mut task = self;
        task.top_p = Some(top_p);
        task
    }
}

/// The body of a chat request: the name of the model that is to answer, and
/// what the task holds.
pub struct ChatBody<'a> {
    /// Name of the model that is to answer.
    pub model: &'a str,
    /// The conversation so far, oldest message first.
    pub messages: &'a [Message<'a>],
    /// The most tokens that the answer may have.
    pub maximum_tokens: Option<u32>,
    /// How random the answer may be.
    pub temperature: Option<Number>,
    /// The probability mass among which the next token is picked.
    pub top_p: Option<Number>,
}

/// What a [`ChatBody`] holds.
pub struct ChatBodyView {
    pub model: Seq<char>,
    pub messages: Seq<MessageView>,
    pub maximum_tokens: Option<u32>,
    pub temperature: Option<Number>,
    pub top_p: Option<Number>,
}

impl ChatBodyView {
    /// The body that asks the model named `model` to carry out `task`.
    pub open spec fn new(model: Seq<char>, task: TaskChatView) -> ChatBodyView {
        ChatBodyView {
            model,
            messages: task.messages,
            maximum_tokens: task.maximum_tokens,
            temperature: task.temperature,
            top_p: task.top_p,
        }
    }

    /// The body as it goes on the wire: an object that names the model and
    /// lists the messages, followed by each sampling parameter that is set.
    /// A parameter that is unset has no member.
    pub open spec fn document(self) -> JsonView {
        JsonView::Object(
            seq![
                ("model"@, JsonView::Text(self.model)),
                (
                    "messages"@,
                    JsonView::List(self.messages.map_values(|message: MessageView| message.document())),
                ),
            ] + optional_member(
                "maximum_tokens"@,
                match self.maximum_tokens {
                    Some(n) => Some(JsonView::Unsigned(n)),
                    None => None,
                },
            ) + optional_member(
                "temperature"@,
                match self.temperature {
                    Some(x) => Some(JsonView::Real(x)),
                    None => None,
                },
            ) + optional_member(
                "top_p"@,
                match self.top_p {
                    Some(x) => Some(JsonView::Real(x)),
                    None => None,
                },
            ),
        )
    }
}

impl<'a> View for ChatBody<'a> {
    type V = ChatBodyView;

    open spec fn view(&self) -> ChatBodyView {
        ChatBodyView {
            model: self.model@,
            messages: messages_view(self.messages@),
            maximum_tokens: self.maximum_tokens,
            temperature: self.temperature,
            top_p: self.top_p,
        }
    }
}

impl<'a> ChatBody<'a> {
    /// The body that asks the model named `model` to carry out `task`. It
    /// borrows the conversation and copies the sampling parameters.
    pub fn new(model: &'a str, task: &'a TaskChat) -> (body: Self)
        ensures
            body@ == ChatBodyView::new(model@, task@),
    {
        ChatBody {
            model,
            messages: task.messages.as_slice(),
            maximum_tokens: task.maximum_tokens,
            temperature: task.temperature,
            top_p: task.top_p,
        }
    }

    /// The body as a JSON document.
    pub fn to_json(&self) -> (document: Json)
        ensures
            document@ == self@.document(),
    {
        let mut items: Vec<Json> = Vec::new();
        let mut i: usize = 0;
        while i < self.messages.len()
            invariant
                i <= self.messages@.len(),
                items_view(items@) == messages_view(self.messages@).subrange(0, i as int).map_values(
                    |message: MessageView| message.document(),
                ),
            decreases self.messages@.len() - i,
        {
            let item = self.messages[i].to_json();
            proof {
                lemma_items_view_push(items@, item);
                assert(messages_view(self.messages@).subrange(0, i + 1).map_values(
                    |message: MessageView| message.document(),
                ) =~= messages_view(self.messages@).subrange(0, i as int).map_values(
                    |message: MessageView| message.document(),
                ).push(item@));
            }
            items.push(item);
            i += 1;
        }
        assert(messages_view(self.messages@).subrange(0, i as int) =~= messages_view(
            self.messages@,
        ));
        let mut members: Vec<(String, Json)> = Vec::new();
        members.push(("model".to_owned(), Json::Text(self.model.to_owned())));
        members.push(("messages".to_owned(), Json::List(items)));
        let ghost required = members_view(members@);
        assert(required =~= seq![
            ("model"@, JsonView::Text(self.model@)),
            (
                "messages"@,
                JsonView::List(
                    self@.messages.map_values(|message: MessageView| message.document()),
                ),
            ),
        ]);
        if let Some(n) = self.maximum_tokens {
            let member = ("maximum_tokens".to_owned(), Json::Unsigned(n));
            proof {
                lemma_members_view_push(members@, member);
            }
            members.push(member);
        }
        let ghost with_tokens = members_view(members@);
        assert(with_tokens =~= required + optional_member(
            "maximum_tokens"@,
            match self.maximum_tokens {
                Some(n) => Some(JsonView::Unsigned(n)),
                None => None,
            },
        ));
        if let Some(x) = self.temperature {
            let member = ("temperature".to_owned(), Json::Real(x));
            proof {
                lemma_members_view_push(members@, member);
            }
            members.push(member);
        }
        let ghost with_temperature = members_view(members@);
        assert(with_temperature =~= with_tokens + optional_member(
            "temperature"@,
            match self.temperature {
                Some(x) => Some(JsonView::Real(x)),
                None => None,
            },
        ));
        if let Some(x) = self.top_p {
            let member = ("top_p".to_owned(), Json::Real(x));
            proof {
                lemma_members_view_push(members@, member);
            }
            members.push(member);
        }
        assert(members_view(members@) =~= with_temperature + optional_member(
            "top_p"@,
            match self.top_p {
                Some(x) => Some(JsonView::Real(x)),
                None => None,
            },
        ));
        Json::Object(members)
    }
}

/// One answer of the model: the message it wrote and why it stopped writing.
#[derive(Debug, PartialEq, Eq)]
pub struct ChatOutput {
    pub message: Message<'static>,
    pub finish_reason: String,
}

/// The decoded response to a chat request: the answers that the model
/// offers.
#[derive(Debug, PartialEq, Eq)]
pub struct ResponseChat {
    pub choices: Vec<ChatOutput>,
}

impl ResponseChat {
    /// Takes the last choice out of the response, if there is one. A response
    /// without choices yields nothing and stays as it is.
    pub fn take_last_choice(&mut self) -> (choice: Option<ChatOutput>)
        ensures
            old(self).choices@.len() == 0 ==> choice is None && final(self).choices@ == old(
                self,
            ).choices@,
            old(self).choices@.len() > 0 ==> choice == Some(old(self).choices@.last())
                && final(self).choices@ == old(self).choices@.drop_last(),
    {
        self.choices.pop()
    }
}

impl<'a> Task for TaskChat<'a> {
    type Output = ChatOutput;

    type ResponseBody = ResponseChat;

    /// A `POST` to `/chat/completions` below `base`, whose body is the
    /// document of the chat body for `model` and the conversation held.
    open spec fn request(&self, base: Seq<char>, model: Seq<char>) -> RequestView {
        RequestView {
            method: Method::Post,
            url: base + "/chat/completions"@,
            body: ChatBodyView::new(model, self@).document(),
        }
    }

    /// A response holds a result when it has at least one choice.
    open spec fn has_output(&self, response: ResponseChat) -> bool {
        response.choices@.len() > 0
    }

    /// The result is the last choice.
    open spec fn output(&self, response: ResponseChat) -> ChatOutput {
        response.choices@.last()
    }

    fn build_request(&self, base: &str, model: &str) -> (request: Request) {
        let body = ChatBody::new(model, self);
        let mut url = base.to_owned();
        url.append("/chat/completions");
        Request { method: Method::Post, url, body: body.to_json() }
    }

    fn body_to_output(&self, response: ResponseChat) -> (output: ChatOutput) {
        let mut response = response;
        response.take_last_choice().unwrap()
    }
}

/// Messages appended one after another stand behind the messages that were
/// there, in the order in which they were appended. Nothing else changes.
pub proof fn lemma_appends_keep_order(task: TaskChatView, more: Seq<MessageView>)
    ensures
        task.append_messages(more) == (TaskChatView { messages: task.messages + more, ..task }),
    decreases more.len(),
{
    if more.len() == 0 {
        assert(task.messages + more =~= task.messages);
    } else {
        lemma_appends_keep_order(task, more.drop_last());
        assert((task.messages + more.drop_last()).push(more.last()) =~= task.messages + more);
    }
}

/// A conversation that starts with one message and grows by appends has one
/// message more than there were appends: the first message first, then the
/// appended ones in the order of the appends.
pub proof fn lemma_conversation_of_appends(role: Role, content: Seq<char>, more: Seq<MessageView>)
    ensures
        ({
            let task = TaskChatView::new(role, content).append_messages(more);
            &&& task.wf()
            &&& task.messages.len() == 1 + more.len()
            &&& task.messages[0] == MessageView { role, content }
            &&& forall|i: int| 0 <= i < more.len() ==> task.messages[i + 1] == more[i]
        }),
{
    lemma_appends_keep_order(TaskChatView::new(role, content), more);
}

/// Which members the document of a body has, and with which values: the
/// model and the messages always, a sampling parameter where it is set and
/// with the value it is set to, and none under any other name. An unset
/// parameter has no member at all.
pub proof fn lemma_body_members(body: ChatBodyView, name: Seq<char>)
    ensures
        body.document().member(name) == (if name == "model"@ {
            Some(JsonView::Text(body.model))
        } else if name == "messages"@ {
            Some(JsonView::List(body.messages.map_values(|message: MessageView| message.document())))
        } else if name == "maximum_tokens"@ {
            match body.maximum_tokens {
                Some(n) => Some(JsonView::Unsigned(n)),
                None => None,
            }
        } else if name == "temperature"@ {
            match body.temperature {
                Some(x) => Some(JsonView::Real(x)),
                None => None,
            }
        } else if name == "top_p"@ {
            match body.top_p {
                Some(x) => Some(JsonView::Real(x)),
                None => None,
            }
        } else {
            None
        }),
{
    let model = optional_member("model"@, Some(JsonView::Text(body.model)));
    let messages = optional_member(
        "messages"@,
        Some(JsonView::List(body.messages.map_values(|message: MessageView| message.document()))),
    );
    let maximum_tokens = optional_member(
        "maximum_tokens"@,
        match body.maximum_tokens {
            Some(n) => Some(JsonView::Unsigned(n)),
            None => None,
        },
    );
    let temperature = optional_member(
        "temperature"@,
        match body.temperature {
            Some(x) => Some(JsonView::Real(x)),
            None => None,
        },
    );
    let top_p = optional_member(
        "top_p"@,
        match body.top_p {
            Some(x) => Some(JsonView::Real(x)),
            None => None,
        },
    );
    assert(body.document() == JsonView::Object(
        model + messages + maximum_tokens + temperature + top_p,
    )) by {
        assert(model + messages =~= seq![
            ("model"@, JsonView::Text(body.model)),
            (
                "messages"@,
                JsonView::List(body.messages.map_values(|message: MessageView| message.document())),
            ),
        ]);
    }
    lemma_first_named_concat(model + messages + maximum_tokens + temperature, top_p, name);
    lemma_first_named_concat(model + messages + maximum_tokens, temperature, name);
    lemma_first_named_concat(model + messages, maximum_tokens, name);
    lemma_first_named_concat(model, messages, name);
    lemma_first_named_optional("model"@, Some(JsonView::Text(body.model)), name);
    lemma_first_named_optional(
        "messages"@,
        Some(JsonView::List(body.messages.map_values(|message: MessageView| message.document()))),
        name,
    );
    lemma_first_named_optional(
        "maximum_tokens"@,
        match body.maximum_tokens {
            Some(n) => Some(JsonView::Unsigned(n)),
            None => None,
        },
        name,
    );
    lemma_first_named_optional(
        "temperature"@,
        match body.temperature {
            Some(x) => Some(JsonView::Real(x)),
            None => None,
        },
        name,
    );
    lemma_first_named_optional(
        "top_p"@,
        match body.top_p {
            Some(x) => Some(JsonView::Real(x)),
            None => None,
        },
        name,
    );
    lemma_member_names_differ();
}

/// A sampling parameter that is set shows in the document of the body under
/// its own name and with the value it was set to, and the members under all
/// other names are what they were before.
pub proof fn lemma_set_parameter_shows(
    task: TaskChatView,
    model: Seq<char>,
    maximum_tokens: u32,
    temperature: Number,
    top_p: Number,
)
    ensures
        ({
            let before = ChatBodyView::new(model, task).document();
            let after = ChatBodyView::new(
                model,
                task.with_maximum_tokens(maximum_tokens),
            ).document();
            &&& after.member("maximum_tokens"@) == Some(JsonView::Unsigned(maximum_tokens))
            &&& forall|name: Seq<char>|
                name != "maximum_tokens"@ ==> after.member(name) == #[trigger] before.member(name)
        }),
        ({
            let before = ChatBodyView::new(model, task).document();
            let after = ChatBodyView::new(model, task.with_temperature(temperature)).document();
            &&& after.member("temperature"@) == Some(JsonView::Real(temperature))
            &&& forall|name: Seq<char>|
                name != "temperature"@ ==> after.member(name) == #[trigger] before.member(name)
        }),
        ({
            let before = ChatBodyView::new(model, task).document();
            let after = ChatBodyView::new(model, task.with_top_p(top_p)).document();
            &&& after.member("top_p"@) == Some(JsonView::Real(top_p))
            &&& forall|name: Seq<char>|
                name != "top_p"@ ==> after.member(name) == #[trigger] before.member(name)
        }),
{
    lemma_member_names_differ();
    let before = ChatBodyView::new(model, task);
    let tokens_set = ChatBodyView::new(model, task.with_maximum_tokens(maximum_tokens));
    let temperature_set = ChatBodyView::new(model, task.with_temperature(temperature));
    let top_p_set = ChatBodyView::new(model, task.with_top_p(top_p));
    assert forall|name: Seq<char>|
        name != "maximum_tokens"@ implies tokens_set.document().member(name)
            == #[trigger] before.document().member(name) by {
        lemma_body_members(before, name);
        lemma_body_members(tokens_set, name);
    }
    assert forall|name: Seq<char>|
        name != "temperature"@ implies temperature_set.document().member(name)
            == #[trigger] before.document().member(name) by {
        lemma_body_members(before, name);
        lemma_body_members(temperature_set, name);
    }
    assert forall|name: Seq<char>|
        name != "top_p"@ implies top_p_set.document().member(name)
            == #[trigger] before.document().member(name) by {
        lemma_body_members(before, name);
        lemma_body_members(top_p_set, name);
    }
    lemma_body_members(tokens_set, "maximum_tokens"@);
    lemma_body_members(temperature_set, "temperature"@);
    lemma_body_members(top_p_set, "top_p"@);
}

/// The five names under which a body has members are five different names.
proof fn lemma_member_names_differ()
    ensures
        "model"@ != "messages"@,
        "model"@ != "maximum_tokens"@,
        "model"@ != "temperature"@,
        "model"@ != "top_p"@,
        "messages"@ != "maximum_tokens"@,
        "messages"@ != "temperature"@,
        "messages"@ != "top_p"@,
        "maximum_tokens"@ != "temperature"@,
        "maximum_tokens"@ != "top_p"@,
        "temperature"@ != "top_p"@,
{
    reveal_strlit("model");
    reveal_strlit("messages");
    reveal_strlit("maximum_tokens");
    reveal_strlit("temperature");
    reveal_strlit("top_p");
    assert("model"@.len() == 5);
    assert("messages"@.len() == 8);
    assert("maximum_tokens"@.len() == 14);
    assert("temperature"@.len() == 11);
    assert("top_p"@.len() == 5);
    assert("model"@[0] == 'm');
    assert("top_p"@[0] == 't');
}

/// Every role survives the trip to the wire and back, and no two roles share
/// a wire name.
pub proof fn lemma_role_round_trip(role: Role)
    ensures
        Role::spec_from_wire_name(role.wire_name()) == Some(role),
        forall|other: Role| other.wire_name() == role.wire_name() ==> other == role,
{
    reveal_strlit("system");
    reveal_strlit("user");
    reveal_strlit("assistant");
    assert("system"@.len() == 6);
    assert("user"@.len() == 4);
    assert("assistant"@.len() == 9);
}

} // verus!
