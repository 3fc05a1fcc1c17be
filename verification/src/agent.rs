//! The agent's conversation: what it keeps of the chat, and what it does with each reply of
//! the model. Sending requests and running tools is left to the caller, which feeds the
//! replies and tool results back in.
use vstd::prelude::*;
use vstd::string::*;
use crate::audit::{invocation_timestamp, is_uuid_v4_text, new_trace_id, rfc3339_millis_text, AuditCall, AUDIT_MILLIS_LIMIT};
use crate::catalog::ToolCatalog;
use crate::openai::text_or;
use crate::text::{clone_opt_string, is_json, join, json_quoted, json_string, opt_string_view, owned, parses_as_json, seq_join, texts};

verus! {

/// One message of the conversation.
pub enum ChatMessage {
    /// A message from the user.
    User { content: String },
    /// A message from the model, kept as the JSON text it came as.
    Assistant { raw: String },
    /// The result of one tool call.
    Tool { tool_call_id: String, content: String },
}

/// A message as character sequences.
pub enum MessageView {
    User(Seq<char>),
    Assistant(Seq<char>),
    Tool(Seq<char>, Seq<char>),
}

impl View for ChatMessage {
    type V = MessageView;

    open spec fn view(&self) -> MessageView {
        match self {
            ChatMessage::User { content } => MessageView::User(content@),
            ChatMessage::Assistant { raw } => MessageView::Assistant(raw@),
            ChatMessage::Tool { tool_call_id, content } => MessageView::Tool(
                tool_call_id@,
                content@,
            ),
        }
    }
}

/// A message as JSON text for the chat request; a model message is sent back as it came.
pub open spec fn message_json_text(m: MessageView) -> Seq<char> {
    match m {
        MessageView::User(c) => "{\"role\":\"user\",\"content\":"@ + json_quoted(c) + "}"@,
        MessageView::Assistant(raw) => raw,
        MessageView::Tool(id, c) => "{\"role\":\"tool\",\"tool_call_id\":"@ + json_quoted(id)
            + ",\"content\":"@ + json_quoted(c) + "}"@,
    }
}

/// The chat request as JSON text: the messages, the model, the tools.
pub open spec fn request_text(h: Seq<MessageView>, model: Seq<char>, tools: Seq<Seq<char>>) -> Seq<
    char,
> {
    "{\"messages\":["@ + seq_join(h.map_values(|m: MessageView| message_json_text(m)), ","@)
        + "],\"model\":"@ + json_quoted(model) + ",\"tools\":["@ + seq_join(tools, ","@) + "]}"@
}

/// A message as JSON text for the chat request.
pub fn message_json(m: &ChatMessage) -> (res: String)
    ensures
        res@ == message_json_text(m@),
{
    match m {
        ChatMessage::User { content } => {
            let mut r = owned("{\"role\":\"user\",\"content\":");
            r.append(json_string(content.as_str()).as_str());
            r.append("}");
            r
        },
        ChatMessage::Assistant { raw } => raw.clone(),
        ChatMessage::Tool { tool_call_id, content } => {
            let mut r = owned("{\"role\":\"tool\",\"tool_call_id\":");
            r.append(json_string(tool_call_id.as_str()).as_str());
            r.append(",\"content\":");
            r.append(json_string(content.as_str()).as_str());
            r.append("}");
            r
        },
    }
}

/// The messages as views.
pub open spec fn history(msgs: Seq<ChatMessage>) -> Seq<MessageView> {
    msgs.map_values(|m: ChatMessage| m@)
}

/// One entry of a reply's `tool_calls`, with the fields that hold strings.
pub struct ToolCallRequest {
    /// `id`, when it is a string.
    pub id: Option<String>,
    /// `function.name`, when it is a string.
    pub name: Option<String>,
    /// `function.arguments`, when it is a string.
    pub arguments: Option<String>,
}

/// A reply of the model (`choices[0].message`).
pub struct AssistantReply {
    /// The message as JSON text, kept in the conversation as it came.
    pub raw: String,
    /// `content`, when it is a string.
    pub content: Option<String>,
    /// `tool_calls`, when it is an array.
    pub tool_calls: Option<Vec<ToolCallRequest>>,
}

/// A tool call to run, with its defaults filled in.
pub struct ToolInvocation {
    /// The model's id for the call (empty when it gave none).
    pub tool_call_id: String,
    /// The id for the audit line: `None` when it is empty.
    pub audit_call_id: Option<String>,
    /// The tool's name (empty when the model gave none).
    pub function_name: String,
    /// The arguments as JSON text: what the model sent when it is JSON, else `{}`.
    pub arguments: String,
}

/// What to do after a reply.
pub enum TurnOutcome {
    /// The task is done; this is the answer.
    Finished(String),
    /// Run these tool calls, in order, and report each result back.
    CallTools(Vec<ToolInvocation>),
}

/// The arguments used for a call: the model's text when it is JSON, else `{}`.
pub open spec fn normalized_arguments(arguments: Option<String>) -> Seq<char> {
    let a = text_or(arguments, "{}"@);
    if parses_as_json(a) {
        a
    } else {
        "{}"@
    }
}

/// `inv` is the invocation for `call`.
pub open spec fn invocation_of(inv: ToolInvocation, call: ToolCallRequest) -> bool {
    let id = text_or(call.id, Seq::empty());
    &&& inv.tool_call_id@ == id
    &&& opt_string_view(inv.audit_call_id) == if id.len() == 0 {
        None::<Seq<char>>
    } else {
        Some(id)
    }
    &&& inv.function_name@ == text_or(call.name, Seq::empty())
    &&& inv.arguments@ == normalized_arguments(call.arguments)
}

/// Whether a reply asks for tool calls: it has a non-empty `tool_calls` array.
pub open spec fn asks_for_tools(reply: AssistantReply) -> bool {
    reply.tool_calls matches Some(calls) && calls@.len() > 0
}

/// The answer taken from a final reply: its `content`, or empty when that is not a string.
pub open spec fn answer_of(reply: AssistantReply) -> Seq<char> {
    text_or(reply.content, Seq::empty())
}

/// A reply that asks for no tool (no `tool_calls`, or an empty array) is answered by its
/// `content` whenever that is a string, whatever else the reply holds.
pub proof fn lemma_final_answer_is_content(reply: AssistantReply)
    ensures
        (reply.tool_calls is None || reply.tool_calls->0@.len() == 0) ==> !asks_for_tools(reply),
        reply.content matches Some(c) ==> answer_of(reply) == c@,
        reply.content is None ==> answer_of(reply).len() == 0,
{
}

/// The chat request ends with the tools offered: `"tools":[` followed by every tool
/// definition, in order, separated by commas, and `]}`; each definition occurs in it whole.
pub proof fn lemma_request_offers_every_tool(
    h: Seq<MessageView>,
    model: Seq<char>,
    tools: Seq<Seq<char>>,
)
    ensures
        (",\"tools\":["@ + seq_join(tools, ","@) + "]}"@).is_suffix_of(request_text(h, model, tools)),
        forall|i: int| 0 <= i < tools.len() ==> occurs_in(#[trigger] tools[i], request_text(h, model, tools)),
{
    let r = request_text(h, model, tools);
    let tail = ",\"tools\":["@ + seq_join(tools, ","@) + "]}"@;
    let head = "{\"messages\":["@ + seq_join(h.map_values(|m: MessageView| message_json_text(m)), ","@)
        + "],\"model\":"@ + json_quoted(model);
    assert(r =~= head + tail);
    assert(r.subrange(r.len() - tail.len(), r.len() as int) =~= tail);
    assert forall|i: int| 0 <= i < tools.len() implies occurs_in(#[trigger] tools[i], r) by {
        lemma_join_holds_each_part(tools, ","@, i);
        let j = choose|j: int| occurs_at(tools[i], seq_join(tools, ","@), j);
        let off: int = (head.len() + ",\"tools\":["@.len()) as int;
        assert(r =~= (head + ",\"tools\":["@) + seq_join(tools, ","@) + "]}"@);
        assert(r.subrange(off + j, off + j + tools[i].len()) =~= seq_join(tools, ","@).subrange(
            j,
            j + tools[i].len(),
        ));
        assert(occurs_at(tools[i], r, off + j));
    }
}

/// `needle` occurs in `hay` starting at `j`.
pub open spec fn occurs_at(needle: Seq<char>, hay: Seq<char>, j: int) -> bool {
    0 <= j && j + needle.len() <= hay.len() && hay.subrange(j, j + needle.len()) == needle
}

/// `needle` occurs somewhere in `hay`.
pub open spec fn occurs_in(needle: Seq<char>, hay: Seq<char>) -> bool {
    exists|j: int| occurs_at(needle, hay, j)
}

/// Each part of a joined text occurs in it whole.
pub proof fn lemma_join_holds_each_part(parts: Seq<Seq<char>>, sep: Seq<char>, i: int)
    requires
        0 <= i < parts.len(),
    ensures
        occurs_in(parts[i], seq_join(parts, sep)),
    decreases parts.len(),
{
    let joined = seq_join(parts, sep);
    if parts.len() == 1 {
        assert(joined.subrange(0, parts[i].len() as int) =~= parts[i]);
        assert(occurs_at(parts[i], joined, 0));
    } else {
        let front = seq_join(parts.drop_last(), sep);
        assert(joined == front + sep + parts.last());
        if i == parts.len() - 1 {
            let j: int = (front.len() + sep.len()) as int;
            assert(joined.subrange(j, j + parts[i].len()) =~= parts[i]);
            assert(occurs_at(parts[i], joined, j));
        } else {
            lemma_join_holds_each_part(parts.drop_last(), sep, i);
            assert(parts.drop_last()[i] == parts[i]);
            let j = choose|j: int| occurs_at(parts[i], front, j);
            assert(joined.subrange(j, j + parts[i].len()) =~= front.subrange(j, j + parts[i].len()));
            assert(occurs_at(parts[i], joined, j));
        }
    }
}

/// `out` is what a reply calls for.
pub open spec fn outcome_of(out: TurnOutcome, reply: AssistantReply) -> bool {
    match out {
        TurnOutcome::Finished(answer) => !asks_for_tools(reply) && answer@ == answer_of(reply),
        TurnOutcome::CallTools(invs) => {
            &&& asks_for_tools(reply)
            &&& invs@.len() == reply.tool_calls->0@.len()
            &&& forall|i: int|
                0 <= i < invs@.len() ==> invocation_of(
                    #[trigger] invs@[i],
                    reply.tool_calls->0@[i],
                )
        },
    }
}

/// The history after a tool result is reported.
pub open spec fn with_tool_result(h: Seq<MessageView>, tool_call_id: Seq<char>, result: Seq<char>) -> Seq<
    MessageView,
> {
    h.push(MessageView::Tool(tool_call_id, result))
}

/// The history after tool results are reported, one after another.
pub open spec fn with_tool_results(
    h: Seq<MessageView>,
    ids: Seq<Seq<char>>,
    results: Seq<Seq<char>>,
) -> Seq<MessageView>
    decreases ids.len(),
{
    if ids.len() == 0 || results.len() == 0 {
        h
    } else {
        with_tool_result(
            with_tool_results(h, ids.drop_last(), results.drop_last()),
            ids.last(),
            results.last(),
        )
    }
}

/// Tool messages answering the calls `ids` with `results`, in order.
pub open spec fn tool_messages(ids: Seq<Seq<char>>, results: Seq<Seq<char>>) -> Seq<MessageView> {
    Seq::new(ids.len(), |i: int| MessageView::Tool(ids[i], results[i]))
}

/// Reporting the results of a turn's calls one by one appends one tool message per call, in
/// the order of the calls, each carrying its call's id: nothing already in the history changes.
pub proof fn lemma_tool_results_append(
    h: Seq<MessageView>,
    ids: Seq<Seq<char>>,
    results: Seq<Seq<char>>,
)
    requires
        ids.len() == results.len(),
    ensures
        with_tool_results(h, ids, results) == h + tool_messages(ids, results),
    decreases ids.len(),
{
    if ids.len() == 0 {
        assert(h + tool_messages(ids, results) =~= h);
    } else {
        lemma_tool_results_append(h, ids.drop_last(), results.drop_last());
        assert(h + tool_messages(ids, results) =~= (h + tool_messages(
            ids.drop_last(),
            results.drop_last(),
        )).push(MessageView::Tool(ids.last(), results.last())));
    }
}

/// The invocation for one entry of `tool_calls`: missing id and name become empty, arguments
/// that are missing or not JSON become `{}`, and an empty id is left out of the audit line.
pub fn tool_invocation(call: &ToolCallRequest) -> (res: ToolInvocation)
    ensures
        invocation_of(res, *call),
{
    let id = match &call.id {
        Some(s) => s.clone(),
        None => String::new(),
    };
    let audit_call_id = if id.unicode_len() == 0 {
        None
    } else {
        Some(id.clone())
    };
    let function_name = match &call.name {
        Some(s) => s.clone(),
        None => String::new(),
    };
    let text = match &call.arguments {
        Some(s) => s.clone(),
        None => owned("{}"),
    };
    let arguments = if is_json(text.as_str()) {
        text
    } else {
        owned("{}")
    };
    ToolInvocation { tool_call_id: id, audit_call_id, function_name, arguments }
}

/// The chat agent: model, conversation, tools, and the ids that tie its audit lines together.
pub struct Agent<C, U, S, A> {
    client: C,
    model: String,
    messages: Vec<ChatMessage>,
    tools: Vec<String>,
    catalog: ToolCatalog<U, S, A>,
    session_id: String,
    trace_id: String,
}

impl<C, U, S, A> Agent<C, U, S, A> {
    /// The conversation so far.
    pub closed spec fn history_spec(self) -> Seq<MessageView> {
        history(self.messages@)
    }

    /// The model name.
    pub closed spec fn model_spec(self) -> Seq<char> {
        self.model@
    }

    /// The `tools[]` entries sent with each request.
    pub closed spec fn tools_spec(self) -> Seq<Seq<char>> {
        texts(self.tools@)
    }

    /// The session id.
    pub closed spec fn session_spec(self) -> Seq<char> {
        self.session_id@
    }

    /// The trace id of this run.
    pub closed spec fn trace_spec(self) -> Seq<char> {
        self.trace_id@
    }

    /// The tool catalog.
    pub closed spec fn catalog_spec(self) -> ToolCatalog<U, S, A> {
        self.catalog
    }

    /// The client.
    pub closed spec fn client_spec(self) -> C {
        self.client
    }

    /// Everything but the conversation is as in `other`.
    pub open spec fn same_setup(self, other: Self) -> bool {
        &&& self.model_spec() == other.model_spec()
        &&& self.tools_spec() == other.tools_spec()
        &&& self.session_spec() == other.session_spec()
        &&& self.trace_spec() == other.trace_spec()
        &&& self.catalog_spec() == other.catalog_spec()
        &&& self.client_spec() == other.client_spec()
    }

    /// One run of an agent is a sequence of its states, each made from the one before by a
    /// method that changes the agent (adding the user message, taking a reply in, recording a
    /// tool result): each of them keeps the setup. So the whole run keeps the first state's
    /// model, tools, catalog, session id and trace id, and every audit line of the run
    /// carries one session id and one trace id.
    pub proof fn lemma_run_keeps_ids(states: Seq<Self>)
        requires
            forall|i: int| 0 < i < states.len() ==> #[trigger] states[i].same_setup(states[i - 1]),
        ensures
            forall|i: int| 0 <= i < states.len() ==> #[trigger] states[i].same_setup(states[0]),
        decreases states.len(),
    {
        if states.len() > 1 {
            let before = states.drop_last();
            assert forall|i: int| 0 < i < before.len() implies #[trigger] before[i].same_setup(
                before[i - 1],
            ) by {
                assert(before[i] == states[i]);
                assert(states[i].same_setup(states[i - 1]));
            }
            Self::lemma_run_keeps_ids(before);
            let last = states.len() - 1;
            assert(states[last].same_setup(states[last - 1]));
            assert(before[last - 1].same_setup(before[0]));
            assert forall|i: int| 0 <= i < states.len() implies #[trigger] states[i].same_setup(
                states[0],
            ) by {
                if i < last {
                    assert(before[i].same_setup(before[0]));
                }
            }
        }
    }

    /// Every audit line of one run carries the run's first session id and trace id: `calls[k]`
    /// is the start of an audit line that `audit_call` made on state `made_at[k]` of the run.
    pub proof fn lemma_run_audit_ids(states: Seq<Self>, calls: Seq<AuditCall>, made_at: Seq<int>)
        requires
            forall|i: int| 0 < i < states.len() ==> #[trigger] states[i].same_setup(states[i - 1]),
            made_at.len() == calls.len(),
            forall|k: int|
                0 <= k < calls.len() ==> {
                    &&& 0 <= #[trigger] made_at[k] < states.len()
                    &&& calls[k].session_id@ == states[made_at[k]].session_spec()
                    &&& calls[k].trace_id@ == states[made_at[k]].trace_spec()
                },
        ensures
            forall|k: int|
                0 <= k < calls.len() ==> {
                    &&& (#[trigger] calls[k]).session_id@ == states[0].session_spec()
                    &&& calls[k].trace_id@ == states[0].trace_spec()
                },
    {
        Self::lemma_run_keeps_ids(states);
        assert forall|k: int| 0 <= k < calls.len() implies {
            &&& (#[trigger] calls[k]).session_id@ == states[0].session_spec()
            &&& calls[k].trace_id@ == states[0].trace_spec()
        } by {
            assert(0 <= made_at[k] < states.len());
            assert(states[made_at[k]].same_setup(states[0]));
        }
    }

    /// A new agent for one task, with a fresh random trace id.
    pub fn new(client: C, model: &str, catalog: ToolCatalog<U, S, A>, session_id: String) -> (res:
        Self)
        ensures
            res.client_spec() == client,
            res.model_spec() == model@,
            res.history_spec() == Seq::<MessageView>::empty(),
            res.tools_spec() == catalog.tool_definitions(),
            res.catalog_spec() == catalog,
            res.session_spec() == session_id@,
            is_uuid_v4_text(res.trace_spec()),
    {
        Self::with_session_and_trace(client, model, catalog, session_id, new_trace_id())
    }

    /// A new agent with the given session and trace ids.
    pub fn with_session_and_trace(
        client: C,
        model: &str,
        catalog: ToolCatalog<U, S, A>,
        session_id: String,
        trace_id: String,
    ) -> (res: Self)
        ensures
            res.client_spec() == client,
            res.model_spec() == model@,
            res.history_spec() == Seq::<MessageView>::empty(),
            res.tools_spec() == catalog.tool_definitions(),
            res.catalog_spec() == catalog,
            res.session_spec() == session_id@,
            res.trace_spec() == trace_id@,
    {
        let tools = catalog.openai_definitions();
        let messages: Vec<ChatMessage> = Vec::new();
        assert(history(messages@) =~= Seq::<MessageView>::empty());
        Agent { client, model: owned(model), messages, tools, catalog, session_id, trace_id }
    }

    /// The chat request for the conversation so far, as JSON text.
    pub fn request_body(&self) -> (res: String)
        ensures
            res@ == request_text(self.history_spec(), self.model_spec(), self.tools_spec()),
            (",\"tools\":["@ + seq_join(self.tools_spec(), ","@) + "]}"@).is_suffix_of(res@),
            forall|i: int|
                0 <= i < self.tools_spec().len() ==> occurs_in(#[trigger] self.tools_spec()[i], res@),
    {
        proof {
            lemma_request_offers_every_tool(self.history_spec(), self.model_spec(), self.tools_spec());
        }
        let mut parts: Vec<String> = Vec::new();
        let n = self.messages.len();
        let ghost h = history(self.messages@);
        let mut i: usize = 0;
        while i < n
            invariant
                n == self.messages@.len(),
                h == history(self.messages@),
                i <= n,
                texts(parts@) =~= h.take(i as int).map_values(|m: MessageView| message_json_text(m)),
            decreases n - i,
        {
            let t = message_json(&self.messages[i]);
            let ghost p0 = parts@;
            parts.push(t);
            assert(texts(parts@) =~= texts(p0).push(t@));
            assert(h.take(i + 1).map_values(|m: MessageView| message_json_text(m)) =~= h.take(
                i as int,
            ).map_values(|m: MessageView| message_json_text(m)).push(message_json_text(h[i as int])));
            i += 1;
        }
        assert(h.take(n as int) =~= h);
        let mut r = owned("{\"messages\":[");
        r.append(join(&parts, ",").as_str());
        r.append("],\"model\":");
        r.append(json_string(self.model.as_str()).as_str());
        r.append(",\"tools\":[");
        r.append(join(&self.tools, ",").as_str());
        r.append("]}");
        r
    }

    /// Id of this run; the same on every audit line of it.
    pub fn trace_id(&self) -> (res: &str)
        ensures
            res@ == self.trace_spec(),
    {
        self.trace_id.as_str()
    }

    /// Session id for the audit lines.
    pub fn session_id(&self) -> (res: &str)
        ensures
            res@ == self.session_spec(),
    {
        self.session_id.as_str()
    }

    /// The model name.
    pub fn model(&self) -> (res: &str)
        ensures
            res@ == self.model_spec(),
    {
        self.model.as_str()
    }

    /// The conversation so far.
    pub fn messages(&self) -> (res: &Vec<ChatMessage>)
        ensures
            history(res@) == self.history_spec(),
    {
        &self.messages
    }

    /// The `tools[]` entries sent with each request.
    pub fn tools(&self) -> (res: &Vec<String>)
        ensures
            texts(res@) == self.tools_spec(),
    {
        &self.tools
    }

    /// The client.
    pub fn client(&self) -> (res: &C)
        ensures
            *res == self.client_spec(),
    {
        &self.client
    }

    /// The tool catalog.
    pub fn catalog(&self) -> (res: &ToolCatalog<U, S, A>)
        ensures
            *res == self.catalog_spec(),
    {
        &self.catalog
    }

    /// The tool catalog, to change it (e.g. to shut its MCP servers down).
    pub fn catalog_mut(&mut self) -> (res: &mut ToolCatalog<U, S, A>)
        ensures
            *res == old(self).catalog_spec(),
            final(self).catalog_spec() == *final(res),
            final(self).history_spec() == old(self).history_spec(),
            final(self).model_spec() == old(self).model_spec(),
            final(self).tools_spec() == old(self).tools_spec(),
            final(self).session_spec() == old(self).session_spec(),
            final(self).trace_spec() == old(self).trace_spec(),
            final(self).client_spec() == old(self).client_spec(),
    {
        &mut self.catalog
    }

    /// Adds a user message to start the conversation.
    pub fn add_user_message(&mut self, content: &str)
        ensures
            final(self).history_spec() == old(self).history_spec().push(MessageView::User(content@)),
            final(self).same_setup(*old(self)),
    {
        let ghost before = self.messages@;
        self.messages.push(ChatMessage::User { content: owned(content) });
        assert(history(self.messages@) =~= history(before).push(MessageView::User(content@)));
    }

    /// Takes the model's reply into the conversation and says what to do next: finish with its
    /// content when it asks for no tool, else run its tool calls in order.
    pub fn accept_reply(&mut self, reply: AssistantReply) -> (res: TurnOutcome)
        ensures
            final(self).history_spec() == old(self).history_spec().push(
                MessageView::Assistant(reply.raw@),
            ),
            final(self).same_setup(*old(self)),
            outcome_of(res, reply),
            (reply.tool_calls is None || reply.tool_calls->0@.len() == 0) ==> (res matches TurnOutcome::Finished(
                answer,
            ) && match reply.content {
                Some(c) => answer@ == c@,
                None => answer@.len() == 0,
            }),
    {
        proof {
            lemma_final_answer_is_content(reply);
        }
        let ghost before = self.messages@;
        let ghost r = reply;
        let AssistantReply { raw, content, tool_calls } = reply;
        self.messages.push(ChatMessage::Assistant { raw });
        assert(history(self.messages@) =~= history(before).push(MessageView::Assistant(r.raw@)));
        match tool_calls {
            Some(calls) => {
                if calls.len() == 0 {
                    TurnOutcome::Finished(
                        match content {
                            Some(c) => c,
                            None => String::new(),
                        },
                    )
                } else {
                    let mut invs: Vec<ToolInvocation> = Vec::new();
                    let n = calls.len();
                    let mut i: usize = 0;
                    while i < n
                        invariant
                            n == calls@.len(),
                            i <= n,
                            invs@.len() == i,
                            forall|j: int|
                                0 <= j < i ==> invocation_of(#[trigger] invs@[j], calls@[j]),
                        decreases n - i,
                    {
                        invs.push(tool_invocation(&calls[i]));
                        i += 1;
                    }
                    TurnOutcome::CallTools(invs)
                }
            },
            None => TurnOutcome::Finished(
                match content {
                    Some(c) => c,
                    None => String::new(),
                },
            ),
        }
    }

    /// What the audit line of a tool call made by this agent starts from: this agent's session
    /// and trace ids, the call's audit id, name and arguments, and its start, one instant given
    /// as UTC epoch milliseconds and written both ways.
    pub fn audit_call(&self, invocation: &ToolInvocation, invoked_at_ms: i64) -> (res: AuditCall)
        requires
            -AUDIT_MILLIS_LIMIT <= invoked_at_ms <= AUDIT_MILLIS_LIMIT,
        ensures
            res.session_id@ == self.session_spec(),
            res.trace_id@ == self.trace_spec(),
            res.tool_call_id == invocation.audit_call_id,
            res.invoked_at_ms == invoked_at_ms,
            res.timestamp@ == rfc3339_millis_text(invoked_at_ms),
            res.same_instant(),
            res.tool@ == invocation.function_name@,
            res.arguments@ == invocation.arguments@,
    {
        AuditCall {
            session_id: self.session_id.clone(),
            trace_id: self.trace_id.clone(),
            tool_call_id: clone_opt_string(&invocation.audit_call_id),
            timestamp: invocation_timestamp(invoked_at_ms),
            invoked_at_ms,
            tool: invocation.function_name.clone(),
            arguments: invocation.arguments.clone(),
        }
    }

    /// Adds the result of one tool call to the conversation.
    pub fn record_tool_result(&mut self, invocation: &ToolInvocation, result: String)
        ensures
            final(self).history_spec() == with_tool_result(
                old(self).history_spec(),
                invocation.tool_call_id@,
                result@,
            ),
            final(self).same_setup(*old(self)),
    {
        let ghost before = self.messages@;
        let ghost r = result@;
        self.messages.push(
            ChatMessage::Tool { tool_call_id: invocation.tool_call_id.clone(), content: result },
        );
        assert(history(self.messages@) =~= history(before).push(
            MessageView::Tool(invocation.tool_call_id@, r),
        ));
    }
}

} // verus!
