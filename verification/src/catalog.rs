//! The tool catalog: which backend answers a tool name, how MCP tools are named and routed,
//! and how the catalog is assembled without two tools under one name.
use vstd::prelude::*;
use vstd::string::*;
use crate::audit::{AuditCall, ToolAuditRecord};
use crate::config::McpServerEntry;
use crate::local::LocalToolkit;
use crate::tools::{unknown_function_reply, unknown_function_text};
use crate::openai::{function_def_text, mcp_tool_to_openai_function, text_or, empty_object_schema};
use crate::text::json_quoted;
use crate::text::{clone_opt_string, clone_strings, concat2, contains_text, join, lemma_push_no_duplicates, opt_string_view, owned, push_char, seq_join, str_equal, texts};

verus! {

/// Whether a character is kept by label sanitising: an ASCII letter or digit.
pub open spec fn is_ascii_alphanumeric(c: char) -> bool {
    let v = c as u32;
    (48 <= v <= 57) || (65 <= v <= 90) || (97 <= v <= 122)
}

/// A label with every character that is not an ASCII letter or digit replaced by `_`.
pub open spec fn sanitized(label: Seq<char>) -> Seq<char> {
    label.map_values(|c: char| if is_ascii_alphanumeric(c) { c } else { '_' })
}

/// Sanitising keeps the label's length and each ASCII letter or digit in place, and puts `_`
/// for every other character; an exposed name is the sanitised label, `__`, and the tool's
/// own name.
pub proof fn lemma_sanitized_characters(label: Seq<char>, tool: Seq<char>)
    ensures
        sanitized(label).len() == label.len(),
        forall|i: int|
            0 <= i < label.len() && is_ascii_alphanumeric(label[i]) ==> #[trigger] sanitized(label)[i]
                == label[i],
        forall|i: int|
            0 <= i < label.len() && !is_ascii_alphanumeric(label[i]) ==> #[trigger] sanitized(label)[i]
                == '_',
        exposed_name(label, tool).subrange(0, label.len() as int) == sanitized(label),
        exposed_name(label, tool).subrange(label.len() as int, (label.len() + 2) as int) == "__"@,
        exposed_name(label, tool).subrange((label.len() + 2) as int, exposed_name(label, tool).len() as int)
            == tool,
{
    let e = exposed_name(label, tool);
    reveal_strlit("__");
    assert(e.subrange(0, label.len() as int) =~= sanitized(label));
    assert(e.subrange(label.len() as int, (label.len() + 2) as int) =~= "__"@);
    assert(e.subrange((label.len() + 2) as int, e.len() as int) =~= tool);
}

/// Name under which a server's tool is offered to the model: `<sanitized label>__<tool>`.
pub open spec fn exposed_name(label: Seq<char>, tool: Seq<char>) -> Seq<char> {
    sanitized(label) + "__"@ + tool
}

/// Replaces every character of `label` that is not an ASCII letter or digit by `_`.
pub fn sanitize_label(label: &str) -> (res: String)
    ensures
        res@ == sanitized(label@),
{
    let n = label.unicode_len();
    let mut res = String::new();
    let mut i: usize = 0;
    while i < n
        invariant
            n == label@.len(),
            i <= n,
            res@ =~= sanitized(label@.take(i as int)),
        decreases n - i,
    {
        let c = label.get_char(i);
        let v = c as u32;
        let keep = (48 <= v && v <= 57) || (65 <= v && v <= 90) || (97 <= v && v <= 122);
        if keep {
            push_char(&mut res, c);
        } else {
            push_char(&mut res, '_');
        }
        assert(label@.take(i + 1) =~= label@.take(i as int).push(c));
        i += 1;
    }
    assert(label@.take(n as int) =~= label@);
    res
}

/// Character views of route pairs.
pub open spec fn route_texts(routes: Seq<(String, String)>) -> Seq<(Seq<char>, Seq<char>)> {
    routes.map_values(|r: (String, String)| (r.0@, r.1@))
}

/// The target of `name` in a route list; a later entry for the same name wins.
pub open spec fn route_lookup(routes: Seq<(Seq<char>, Seq<char>)>, name: Seq<char>) -> Option<
    Seq<char>,
>
    decreases routes.len(),
{
    if routes.len() == 0 {
        None
    } else if routes.last().0 == name {
        Some(routes.last().1)
    } else {
        route_lookup(routes.drop_last(), name)
    }
}

/// The exposed names of route pairs.
pub open spec fn route_keys(routes: Seq<(Seq<char>, Seq<char>)>) -> Seq<Seq<char>> {
    routes.map_values(|r: (Seq<char>, Seq<char>)| r.0)
}

/// One connected MCP server: the routes from exposed names to the server's tool names (no
/// exposed name twice), and the running service that the calls go to.
pub struct McpBridge<S> {
    routes: Vec<(String, String)>,
    service: S,
}

impl<S> McpBridge<S> {
    #[verifier::type_invariant]
    closed spec fn keys_distinct(self) -> bool {
        route_keys(route_texts(self.routes@)).no_duplicates()
    }

    /// No exposed name has two routes (true of every bridge).
    pub open spec fn wf(self) -> bool {
        route_keys(self.routes()).no_duplicates()
    }

    /// The routes, exposed name first.
    pub closed spec fn routes(self) -> Seq<(Seq<char>, Seq<char>)> {
        route_texts(self.routes@)
    }

    /// The running service.
    pub closed spec fn service_spec(self) -> S {
        self.service
    }

    /// The server's tool name for an exposed name.
    pub open spec fn route_of(self, exposed: Seq<char>) -> Option<Seq<char>> {
        route_lookup(self.routes(), exposed)
    }

    /// Whether this server provides the exposed name.
    pub fn has_route(&self, exposed: &str) -> (res: bool)
        ensures
            res == self.route_of(exposed@) is Some,
    {
        self.remote_tool_name(exposed).is_some()
    }

    /// The server's tool name for an exposed name, if this server provides it.
    pub fn remote_tool_name(&self, exposed: &str) -> (res: Option<String>)
        ensures
            match res {
                Some(t) => self.route_of(exposed@) == Some(t@),
                None => self.route_of(exposed@) is None,
            },
    {
        let n = self.routes.len();
        let mut i = n;
        assert(self.routes().take(n as int) =~= self.routes());
        while i > 0
            invariant
                n == self.routes@.len(),
                i <= n,
                route_lookup(self.routes(), exposed@) == route_lookup(
                    self.routes().take(i as int),
                    exposed@,
                ),
            decreases i,
        {
            let ghost pre = self.routes().take(i as int);
            assert(pre.drop_last() =~= self.routes().take(i - 1));
            if str_equal(self.routes[i - 1].0.as_str(), exposed) {
                return Some(self.routes[i - 1].1.clone());
            }
            i -= 1;
        }
        None
    }

    /// The running service.
    pub fn service(&self) -> (res: &S)
        ensures
            *res == self.service_spec(),
    {
        &self.service
    }

    /// Gives up the bridge for its running service.
    pub fn into_service(self) -> (res: S)
        ensures
            res == self.service_spec(),
    {
        self.service
    }
}

/// Reply when a call names a route that the server does not have.
pub fn unknown_route_reply(exposed: &str) -> (res: String)
    ensures
        res@ == "Error: unknown MCP route "@ + exposed@,
{
    concat2("Error: unknown MCP route ", exposed)
}

/// Reply when the MCP call itself failed with the given error text.
pub fn mcp_error_reply(detail: &str) -> (res: String)
    ensures
        res@ == "MCP error: "@ + detail@,
{
    concat2("MCP error: ", detail)
}

/// One item of an MCP tool result's content.
pub enum ContentPart {
    /// A text item.
    Text(String),
    /// Any other item, as JSON text; `None` when it could not be written as JSON.
    Other(Option<String>),
}

/// What an MCP tool call returned.
pub struct CallToolOutcome {
    pub content: Vec<ContentPart>,
    /// Structured content as JSON text.
    pub structured_content: Option<String>,
    pub is_error: Option<bool>,
}

/// The texts kept from content items: text items, and other items that could be written as
/// JSON.
pub open spec fn content_texts(parts: Seq<ContentPart>) -> Seq<Seq<char>>
    decreases parts.len(),
{
    if parts.len() == 0 {
        Seq::empty()
    } else {
        let rest = content_texts(parts.drop_last());
        match parts.last() {
            ContentPart::Text(t) => rest.push(t@),
            ContentPart::Other(Some(j)) => rest.push(j@),
            ContentPart::Other(None) => rest,
        }
    }
}

/// The lines of a tool result: the kept content items, then the structured content.
pub open spec fn call_result_parts(r: CallToolOutcome) -> Seq<Seq<char>> {
    content_texts(r.content@) + match r.structured_content {
        Some(s) => seq![s@],
        None => Seq::empty(),
    }
}

/// The text handed to the model for an MCP tool result: the parts joined by newlines, with
/// `Error: ` in front when the server flagged an error.
pub open spec fn call_result_text(r: CallToolOutcome) -> Seq<char> {
    let body = seq_join(call_result_parts(r), "\n"@);
    if r.is_error == Some(true) {
        "Error: "@ + body
    } else {
        body
    }
}

/// The text handed to the model for an MCP tool result.
pub fn format_call_tool_result(r: &CallToolOutcome) -> (res: String)
    ensures
        res@ == call_result_text(*r),
{
    let mut parts: Vec<String> = Vec::new();
    let n = r.content.len();
    let mut i: usize = 0;
    while i < n
        invariant
            n == r.content@.len(),
            i <= n,
            texts(parts@) =~= content_texts(r.content@.take(i as int)),
        decreases n - i,
    {
        assert(r.content@.take(i + 1).drop_last() =~= r.content@.take(i as int));
        match &r.content[i] {
            ContentPart::Text(t) => parts.push(t.clone()),
            ContentPart::Other(Some(j)) => parts.push(j.clone()),
            ContentPart::Other(None) => {},
        }
        i += 1;
    }
    assert(r.content@.take(n as int) =~= r.content@);
    match &r.structured_content {
        Some(s) => parts.push(s.clone()),
        None => {},
    }
    assert(texts(parts@) =~= call_result_parts(*r));
    let body = join(&parts, "\n");
    if r.is_error == Some(true) {
        concat2("Error: ", body.as_str())
    } else {
        body
    }
}

/// The text a content item contributes, if any: a text item its text, another item its JSON
/// text when it has one.
pub open spec fn part_text(p: ContentPart) -> Option<Seq<char>> {
    match p {
        ContentPart::Text(t) => Some(t@),
        ContentPart::Other(Some(j)) => Some(j@),
        ContentPart::Other(None) => None,
    }
}

/// Every content item that has a text contributes it, in order, and nothing else is kept.
pub proof fn lemma_content_texts_keep_every_text(parts: Seq<ContentPart>)
    ensures
        content_texts(parts) == parts.filter_map(|p: ContentPart| part_text(p)),
    decreases parts.len(),
{
    if parts.len() > 0 {
        lemma_content_texts_keep_every_text(parts.drop_last());
        assert(parts.filter_map(|p: ContentPart| part_text(p)) == match part_text(parts.last()) {
            Some(x) => parts.drop_last().filter_map(|p: ContentPart| part_text(p)) + seq![x],
            None => parts.drop_last().filter_map(|p: ContentPart| part_text(p)),
        });
        match parts.last() {
            ContentPart::Text(t) => {
                assert(content_texts(parts.drop_last()).push(t@) =~= content_texts(
                    parts.drop_last(),
                ) + seq![t@]);
            },
            ContentPart::Other(Some(j)) => {
                assert(content_texts(parts.drop_last()).push(j@) =~= content_texts(
                    parts.drop_last(),
                ) + seq![j@]);
            },
            ContentPart::Other(None) => {},
        }
    }
}

/// Appending a text item appends its text to the result's parts; appending another item
/// appends its JSON text, or nothing when it has none.
pub proof fn lemma_content_texts_push(parts: Seq<ContentPart>, p: ContentPart)
    ensures
        p matches ContentPart::Text(t) ==> content_texts(parts.push(p)) == content_texts(parts).push(t@),
        p matches ContentPart::Other(Some(j)) ==> content_texts(parts.push(p)) == content_texts(parts).push(
            j@,
        ),
        p matches ContentPart::Other(None) ==> content_texts(parts.push(p)) == content_texts(parts),
        content_texts(parts.push(p)).len() == content_texts(parts).len() + (if part_text(p) is Some {
            1int
        } else {
            0int
        }),
{
    assert(parts.push(p).drop_last() =~= parts);
}

/// In-process tools: the built-in toolkit, or a tool set supplied by the embedding program.
pub enum NativeTools<U> {
    Local(LocalToolkit),
    Custom(U),
}

/// One place where tools run: in this process, or on one MCP server.
pub enum ToolBackend<U, S> {
    InProcess(NativeTools<U>),
    Mcp(McpBridge<S>),
}

impl<U, S> ToolBackend<U, S> {
    /// `in_process` or `mcp`.
    pub open spec fn kind_text(self) -> Seq<char> {
        match self {
            ToolBackend::InProcess(_) => "in_process"@,
            ToolBackend::Mcp(_) => "mcp"@,
        }
    }

    /// For an MCP backend, the server's tool name behind an exposed name.
    pub open spec fn resolved_spec(self, exposed: Seq<char>) -> Option<Seq<char>> {
        match self {
            ToolBackend::Mcp(b) => b.route_of(exposed),
            ToolBackend::InProcess(_) => None,
        }
    }

    /// Whether a call of `name` is tried on this backend: an in-process set is always asked
    /// (it may decline), an MCP server only for the names routed to it.
    pub open spec fn may_serve(self, name: Seq<char>) -> bool {
        match self {
            ToolBackend::InProcess(_) => true,
            ToolBackend::Mcp(b) => b.route_of(name) is Some,
        }
    }

    /// `in_process` or `mcp`.
    pub fn backend_kind(&self) -> (res: &'static str)
        ensures
            res@ == self.kind_text(),
    {
        match self {
            ToolBackend::InProcess(_) => "in_process",
            ToolBackend::Mcp(_) => "mcp",
        }
    }

    /// For an MCP backend, the server's tool name behind `exposed`.
    pub fn mcp_resolved_tool_name(&self, exposed: &str) -> (res: Option<String>)
        ensures
            opt_string_view(res) == self.resolved_spec(exposed@),
    {
        match self {
            ToolBackend::Mcp(b) => b.remote_tool_name(exposed),
            ToolBackend::InProcess(_) => None,
        }
    }
}

/// The backends in `bs` that run in this process, in order.
pub open spec fn in_process_backends<U, S>(bs: Seq<ToolBackend<U, S>>) -> Seq<ToolBackend<U, S>>
    decreases bs.len(),
{
    if bs.len() == 0 {
        Seq::empty()
    } else {
        let rest = in_process_backends(bs.drop_last());
        match bs.last() {
            ToolBackend::InProcess(_) => rest.push(bs.last()),
            ToolBackend::Mcp(_) => rest,
        }
    }
}

/// The MCP bridges in `bs`, in order.
pub open spec fn mcp_bridges<U, S>(bs: Seq<ToolBackend<U, S>>) -> Seq<McpBridge<S>>
    decreases bs.len(),
{
    if bs.len() == 0 {
        Seq::empty()
    } else {
        let rest = mcp_bridges(bs.drop_last());
        match bs.last() {
            ToolBackend::InProcess(_) => rest,
            ToolBackend::Mcp(b) => rest.push(b),
        }
    }
}

/// The bridge of an MCP backend.
pub open spec fn bridge_of<U, S>(b: ToolBackend<U, S>) -> Option<McpBridge<S>> {
    match b {
        ToolBackend::Mcp(br) => Some(br),
        ToolBackend::InProcess(_) => None,
    }
}

/// Splitting backends into those in process and the MCP bridges keeps every backend: the
/// in-process ones are exactly the backends that are not MCP, the bridges exactly those of
/// the MCP backends, each in order, and together they count all the backends.
pub proof fn lemma_split_keeps_every_backend<U, S>(bs: Seq<ToolBackend<U, S>>)
    ensures
        in_process_backends(bs) == bs.filter(|b: ToolBackend<U, S>| b is InProcess),
        mcp_bridges(bs) == bs.filter_map(|b: ToolBackend<U, S>| bridge_of(b)),
        in_process_backends(bs).len() + mcp_bridges(bs).len() == bs.len(),
    decreases bs.len(),
{
    if bs.len() > 0 {
        lemma_split_keeps_every_backend(bs.drop_last());
        assert(bs.filter_map(|b: ToolBackend<U, S>| bridge_of(b)) == match bridge_of(bs.last()) {
            Some(x) => bs.drop_last().filter_map(|b: ToolBackend<U, S>| bridge_of(b)) + seq![x],
            None => bs.drop_last().filter_map(|b: ToolBackend<U, S>| bridge_of(b)),
        });
        let keep = |b: ToolBackend<U, S>| b is InProcess;
        reveal(Seq::filter);
        assert(bs.filter(keep) == if keep(bs.last()) {
            bs.drop_last().filter(keep).push(bs.last())
        } else {
            bs.drop_last().filter(keep)
        });
        match bs.last() {
            ToolBackend::Mcp(br) => {
                assert(mcp_bridges(bs.drop_last()).push(br) =~= mcp_bridges(bs.drop_last())
                    + seq![br]);
            },
            ToolBackend::InProcess(_) => {},
        }
    }
}

/// Every exposed name that backend `b` routes is one of `names` (an in-process backend routes
/// nothing).
pub open spec fn backend_routes_named<U, S>(b: ToolBackend<U, S>, names: Seq<Seq<char>>) -> bool {
    match b {
        ToolBackend::Mcp(br) => forall|j: int|
            0 <= j < br.routes().len() ==> names.contains(#[trigger] br.routes()[j].0),
        ToolBackend::InProcess(_) => true,
    }
}

/// Every exposed name routed by any of `bs` is one of `names`.
pub open spec fn routes_named<U, S>(bs: Seq<ToolBackend<U, S>>, names: Seq<Seq<char>>) -> bool {
    forall|i: int| 0 <= i < bs.len() ==> backend_routes_named(#[trigger] bs[i], names)
}

/// The shape of a catalog: one definition per tool name, no name twice, and every MCP route
/// under one of the names.
pub open spec fn catalog_shape<U, S>(
    names: Seq<Seq<char>>,
    defs: Seq<Seq<char>>,
    bs: Seq<ToolBackend<U, S>>,
) -> bool {
    &&& names.no_duplicates()
    &&& names.len() == defs.len()
    &&& routes_named(bs, names)
}

/// Routes under some names stay under them when more names are added.
proof fn lemma_routes_named_grow<U, S>(
    bs: Seq<ToolBackend<U, S>>,
    names: Seq<Seq<char>>,
    more: Seq<Seq<char>>,
)
    requires
        routes_named(bs, names),
    ensures
        routes_named(bs, names + more),
{
    assert forall|i: int| 0 <= i < bs.len() implies backend_routes_named(
        #[trigger] bs[i],
        names + more,
    ) by {
        match bs[i] {
            ToolBackend::Mcp(br) => {
                assert forall|j: int| 0 <= j < br.routes().len() implies (names + more).contains(
                    #[trigger] br.routes()[j].0,
                ) by {
                    assert(backend_routes_named(bs[i], names));
                    let k = choose|k: int| 0 <= k < names.len() && names[k] == br.routes()[j].0;
                    assert((names + more)[k] == names[k]);
                }
            },
            ToolBackend::InProcess(_) => {},
        }
    }
}

/// The backends kept in process are all in process.
pub proof fn lemma_in_process_only<U, S>(bs: Seq<ToolBackend<U, S>>)
    ensures
        forall|i: int|
            0 <= i < in_process_backends(bs).len() ==> #[trigger] in_process_backends(bs)[i] is InProcess,
    decreases bs.len(),
{
    if bs.len() > 0 {
        lemma_in_process_only(bs.drop_last());
    }
}

/// In-process backends route nothing.
proof fn lemma_in_process_routes_named<U, S>(bs: Seq<ToolBackend<U, S>>, names: Seq<Seq<char>>)
    ensures
        routes_named(in_process_backends(bs), names),
    decreases bs.len(),
{
    if bs.len() > 0 {
        lemma_in_process_routes_named(bs.drop_last(), names);
    }
}

/// Where the dispatch of one tool call stands.
pub enum DispatchStep {
    /// Ask backend `i`.
    Try(usize),
    /// Backend `index` answered `out`.
    Answered { index: usize, out: String },
    /// No backend took the call.
    Unanswered,
}

/// The catalog of tools offered to the model and the backends that run them.
pub struct ToolCatalog<U, S, A> {
    names: Vec<String>,
    backends: Vec<ToolBackend<U, S>>,
    openai_tools: Vec<String>,
    audit: Option<A>,
}

impl<U, S, A> ToolCatalog<U, S, A> {
    #[verifier::type_invariant]
    closed spec fn shape_holds(self) -> bool {
        catalog_shape(texts(self.names@), texts(self.openai_tools@), self.backends@)
    }

    /// One definition per tool name, no name twice, every MCP route under one of the names
    /// (true of every catalog).
    pub open spec fn wf(self) -> bool {
        catalog_shape(self.tool_names(), self.tool_definitions(), self.backends_spec())
    }

    /// The names of the tools offered to the model, in the order of their definitions.
    pub closed spec fn tool_names(self) -> Seq<Seq<char>> {
        texts(self.names@)
    }

    /// The names of the tools offered to the model, in the order of their definitions; no
    /// name occurs twice.
    pub fn names(&self) -> (res: Vec<String>)
        ensures
            texts(res@) == self.tool_names(),
            self.wf(),
    {
        proof {
            use_type_invariant(self);
        }
        clone_strings(&self.names)
    }

    /// The backends, in the order in which they are asked.
    pub closed spec fn backends_spec(self) -> Seq<ToolBackend<U, S>> {
        self.backends@
    }

    /// The `tools[]` entries offered to the model, as JSON texts.
    pub closed spec fn tool_definitions(self) -> Seq<Seq<char>> {
        texts(self.openai_tools@)
    }

    /// The audit log, when there is one.
    pub closed spec fn audit_spec(self) -> Option<A> {
        self.audit
    }

    /// The `tools[]` entries offered to the model, as JSON texts.
    pub fn openai_definitions(&self) -> (res: Vec<String>)
        ensures
            texts(res@) == self.tool_definitions(),
    {
        clone_strings(&self.openai_tools)
    }

    /// The backends, in the order in which they are asked.
    pub fn backends(&self) -> (res: &Vec<ToolBackend<U, S>>)
        ensures
            res@ == self.backends_spec(),
    {
        &self.backends
    }

    /// The audit log, when there is one.
    pub fn audit(&self) -> (res: &Option<A>)
        ensures
            *res == self.audit_spec(),
    {
        &self.audit
    }

    /// `res` is the first backend at or after `from` on which a call of `name` is tried, or
    /// `None` when there is none.
    pub open spec fn is_next_candidate(self, from: int, name: Seq<char>, res: Option<usize>) -> bool {
        match res {
            Some(i) => {
                &&& from <= i < self.backends_spec().len()
                &&& self.backends_spec()[i as int].may_serve(name)
                &&& forall|j: int|
                    from <= j < i ==> !#[trigger] self.backends_spec()[j].may_serve(name)
            },
            None => forall|j: int|
                from <= j < self.backends_spec().len() ==> !#[trigger] self.backends_spec()[j].may_serve(
                    name,
                ),
        }
    }

    /// `step` is what follows once the backends before `from` have declined a call of `name`:
    /// try the next one that may serve it, or give up when none is left.
    pub open spec fn is_step_from(self, from: int, name: Seq<char>, step: DispatchStep) -> bool {
        match step {
            DispatchStep::Try(i) => self.is_next_candidate(from, name, Some(i)),
            DispatchStep::Unanswered => self.is_next_candidate(from, name, None),
            DispatchStep::Answered { .. } => false,
        }
    }

    /// The first step of a call of `name`.
    pub fn first_step(&self, name: &str) -> (res: DispatchStep)
        ensures
            self.is_step_from(0, name@, res),
    {
        match self.next_candidate(0, name) {
            Some(i) => DispatchStep::Try(i),
            None => DispatchStep::Unanswered,
        }
    }

    /// The step after backend `tried` replied to a call of `name`: its answer ends the call;
    /// when it declined, the next backend that may serve the name is tried.
    pub fn step_after(&self, name: &str, tried: usize, reply: Option<String>) -> (res: DispatchStep)
        requires
            tried < self.backends_spec().len(),
        ensures
            match reply {
                Some(out) => res == DispatchStep::Answered { index: tried, out },
                None => self.is_step_from(tried + 1, name@, res),
            },
    {
        let n = self.backends.len();
        assert(tried < n);
        match reply {
            Some(out) => DispatchStep::Answered { index: tried, out },
            None => match self.next_candidate(tried + 1, name) {
                Some(i) => DispatchStep::Try(i),
                None => DispatchStep::Unanswered,
            },
        }
    }

    /// The first backend at or after `from` on which a call of `name` is tried.
    pub fn next_candidate(&self, from: usize, name: &str) -> (res: Option<usize>)
        ensures
            self.is_next_candidate(from as int, name@, res),
    {
        let n = self.backends.len();
        let mut i = from;
        while i < n
            invariant
                n == self.backends@.len(),
                from <= i,
                forall|j: int| from <= j < i ==> !#[trigger] self.backends@[j].may_serve(name@),
            decreases n - i,
        {
            let serves = match &self.backends[i] {
                ToolBackend::InProcess(_) => true,
                ToolBackend::Mcp(b) => b.has_route(name),
            };
            if serves {
                return Some(i);
            }
            i += 1;
        }
        None
    }

    /// The audit line for a call that backend `index` answered with `out`.
    pub fn completed_record(&self, index: usize, call: AuditCall, duration_ns: u64, out: &str) -> (rec:
        ToolAuditRecord)
        requires
            index < self.backends_spec().len(),
        ensures
            rec.describes(call),
            rec.backend@ == self.backends_spec()[index as int].kind_text(),
            opt_string_view(rec.mcp_server_tool) == self.backends_spec()[index as int].resolved_spec(
                call.tool@,
            ),
            rec.duration_ns == duration_ns,
            rec.status@ == crate::audit::status_of(out@),
            rec.result_length == out.spec_bytes().len() as usize,
            rec.result_preview@ == crate::audit::preview_text(
                out@,
                crate::audit::PREVIEW_MAX_CHARS as nat,
            ),
    {
        let b = &self.backends[index];
        let mcp = b.mcp_resolved_tool_name(call.tool.as_str());
        ToolAuditRecord::completed(call, b.backend_kind(), mcp, duration_ns, out)
    }

    /// How a call ends, once its dispatch has stopped: with the answer of the backend that
    /// answered, timed over that backend (`backend_ns`), or with the unknown-function reply,
    /// timed over the whole scan (`scan_ns`); together with the call's audit line.
    pub fn conclude_call(
        &self,
        call: AuditCall,
        outcome: DispatchStep,
        backend_ns: u64,
        scan_ns: u64,
    ) -> (res: (String, ToolAuditRecord))
        requires
            !(outcome is Try),
            outcome matches DispatchStep::Answered { index, .. } ==> index < self.backends_spec().len(),
        ensures
            res.1.describes(call),
            call.same_instant() ==> res.1.same_instant(),
            res.1.backend@ == "in_process"@ || res.1.backend@ == "mcp"@,
            match outcome {
                DispatchStep::Answered { index, out } => {
                    &&& res.0 == out
                    &&& res.1.duration_ns == backend_ns
                    &&& res.1.backend@ == self.backends_spec()[index as int].kind_text()
                    &&& opt_string_view(res.1.mcp_server_tool) == self.backends_spec()[index as int].resolved_spec(
                        call.tool@,
                    )
                    &&& res.1.status@ == crate::audit::status_of(out@)
                    &&& res.1.result_length == vstd::utf8::encode_utf8(out@).len() as usize
                    &&& res.1.result_preview@ == crate::audit::preview_text(
                        out@,
                        crate::audit::PREVIEW_MAX_CHARS as nat,
                    )
                },
                _ => {
                    &&& res.0@ == unknown_function_text(call.tool@)
                    &&& res.1.duration_ns == scan_ns
                    &&& res.1.backend@ == "in_process"@
                    &&& res.1.mcp_server_tool is None
                    &&& res.1.status@ == "unknown_tool"@
                    &&& res.1.result_length == 0
                    &&& res.1.result_preview@ == Seq::<char>::empty()
                },
            },
    {
        match outcome {
            DispatchStep::Answered { index, out } => {
                let rec = self.completed_record(index, call, backend_ns, out.as_str());
                (out, rec)
            },
            _ => {
                let reply = unknown_function_reply(call.tool.as_str());
                (reply, ToolAuditRecord::unknown_tool(call, scan_ns))
            },
        }
    }

    /// Removes the MCP backends, keeping the in-process ones in order, and hands the MCP
    /// bridges back in order so that their services can be closed.
    pub fn take_mcp_bridges(&mut self) -> (res: Vec<McpBridge<S>>)
        ensures
            final(self).backends_spec() == in_process_backends(old(self).backends_spec()),
            res@ == mcp_bridges(old(self).backends_spec()),
            res@.len() + final(self).backends_spec().len() == old(self).backends_spec().len(),
            forall|i: int|
                0 <= i < final(self).backends_spec().len() ==> #[trigger] final(self).backends_spec()[i] is InProcess,
            final(self).tool_definitions() == old(self).tool_definitions(),
            final(self).tool_names() == old(self).tool_names(),
            final(self).audit_spec() == old(self).audit_spec(),
            final(self).wf(),
    {
        proof {
            use_type_invariant(&*self);
        }
        let mut rest: Vec<ToolBackend<U, S>> = Vec::new();
        std::mem::swap(&mut rest, &mut self.backends);
        let ghost all = rest@;
        let mut kept: Vec<ToolBackend<U, S>> = Vec::new();
        let mut bridges: Vec<McpBridge<S>> = Vec::new();
        let n = rest.len();
        let mut i: usize = 0;
        while i < n
            invariant
                n == all.len(),
                i <= n,
                rest@ == all.skip(i as int),
                kept@ == in_process_backends(all.take(i as int)),
                bridges@ == mcp_bridges(all.take(i as int)),
            decreases n - i,
        {
            assert(all.take(i + 1).drop_last() =~= all.take(i as int));
            assert(rest@[0] == all[i as int]);
            let b = rest.remove(0);
            assert(rest@ =~= all.skip(i + 1));
            match b {
                ToolBackend::InProcess(p) => kept.push(ToolBackend::InProcess(p)),
                ToolBackend::Mcp(bridge) => bridges.push(bridge),
            }
            i += 1;
        }
        assert(all.take(n as int) =~= all);
        proof {
            lemma_in_process_routes_named(all, texts(self.names@));
            lemma_split_keeps_every_backend(all);
            lemma_in_process_only(all);
        }
        self.backends = kept;
        bridges
    }
}

/// A tool definition supplied by an in-process tool set: its name, when it has one, and its
/// JSON text.
pub struct NativeDefinition {
    /// `function.name`, when it is a string.
    pub name: Option<String>,
    /// The whole `tools[]` entry as JSON text.
    pub definition: String,
}

/// What a server reports of one of its tools.
pub struct McpToolInfo {
    /// The server's name of the tool.
    pub name: String,
    pub description: Option<String>,
    /// The input schema as JSON text; `None` when it could not be written as JSON.
    pub input_schema: Option<String>,
}

/// Why a catalog could not be assembled.
pub enum ConnectError {
    /// An in-process definition has no `function.name`.
    MissingNativeName,
    /// Two in-process definitions share a name.
    DuplicateToolName { name: String },
    /// An MCP tool's exposed name is already taken.
    DuplicateMcpToolName { name: String },
}

impl ConnectError {
    /// The error's message.
    pub open spec fn message_text(self) -> Seq<char> {
        match self {
            ConnectError::MissingNativeName => "native tool missing function.name"@,
            ConnectError::DuplicateToolName { name } => "duplicate tool name: "@ + name@,
            ConnectError::DuplicateMcpToolName { name } => "duplicate tool name after MCP prefix: "@
                + name@,
        }
    }

    /// The error's message.
    pub fn message(&self) -> (res: String)
        ensures
            res@ == self.message_text(),
    {
        match self {
            ConnectError::MissingNativeName => owned("native tool missing function.name"),
            ConnectError::DuplicateToolName { name } => concat2(
                "duplicate tool name: ",
                name.as_str(),
            ),
            ConnectError::DuplicateMcpToolName { name } => concat2(
                "duplicate tool name after MCP prefix: ",
                name.as_str(),
            ),
        }
    }
}

/// Names of in-process definitions (a missing name counts as empty).
pub open spec fn native_name_texts(defs: Seq<NativeDefinition>) -> Seq<Seq<char>> {
    defs.map_values(|d: NativeDefinition| text_or(d.name, Seq::empty()))
}

/// Every definition has a name and no two share one.
pub open spec fn natives_admissible(defs: Seq<NativeDefinition>) -> bool {
    &&& forall|i: int| 0 <= i < defs.len() ==> (#[trigger] defs[i]).name is Some
    &&& native_name_texts(defs).no_duplicates()
}

/// `e` is the error for definition `k`, the first one that has no name or repeats one.
pub open spec fn native_problem_at(defs: Seq<NativeDefinition>, k: int, e: ConnectError) -> bool {
    &&& 0 <= k < defs.len()
    &&& natives_admissible(defs.take(k))
    &&& match defs[k].name {
        None => e is MissingNativeName,
        Some(n) => {
            &&& native_name_texts(defs.take(k)).contains(n@)
            &&& e matches ConnectError::DuplicateToolName { name }
            &&& name@ == n@
        },
    }
}

/// Exposed names of a server's tools.
pub open spec fn exposed_names_of(label: Seq<char>, tools: Seq<McpToolInfo>) -> Seq<Seq<char>> {
    tools.map_values(|t: McpToolInfo| exposed_name(label, t.name@))
}

/// `tools[]` entry of a server's tool.
pub open spec fn mcp_tool_def(label: Seq<char>, t: McpToolInfo) -> Seq<char> {
    function_def_text(
        exposed_name(label, t.name@),
        text_or(t.description, Seq::empty()),
        text_or(t.input_schema, empty_object_schema()),
    )
}

/// The `parameters` that a server's tool is offered with: its input schema when the server
/// gave one that could be written as JSON, else an empty object schema.
pub open spec fn offered_parameters(t: McpToolInfo) -> Seq<char> {
    match t.input_schema {
        Some(schema) => schema@,
        None => empty_object_schema(),
    }
}

/// A server's tool is offered under its exposed name, and with the server's input schema as
/// its `parameters`: the definition starts with the function's name and ends with
/// `"parameters":<schema>}}`.
pub proof fn lemma_mcp_def_carries_schema(label: Seq<char>, t: McpToolInfo)
    ensures
        ("{\"type\":\"function\",\"function\":{\"name\":"@ + json_quoted(exposed_name(label, t.name@))).is_prefix_of(
            mcp_tool_def(label, t),
        ),
        (",\"parameters\":"@ + offered_parameters(t) + "}}"@).is_suffix_of(mcp_tool_def(label, t)),
        mcp_tool_def(label, t) == "{\"type\":\"function\",\"function\":{\"name\":"@ + json_quoted(
            exposed_name(label, t.name@),
        ) + ",\"description\":"@ + json_quoted(
            match t.description {
                Some(d) => d@,
                None => Seq::empty(),
            },
        ) + ",\"parameters\":"@ + offered_parameters(t) + "}}"@,
{
    let d = mcp_tool_def(label, t);
    let head = "{\"type\":\"function\",\"function\":{\"name\":"@ + json_quoted(exposed_name(label, t.name@));
    let tail = ",\"parameters\":"@ + offered_parameters(t) + "}}"@;
    let mid = ",\"description\":"@ + json_quoted(text_or(t.description, Seq::empty()));
    assert(d =~= head + mid + tail);
    assert(d.subrange(0, head.len() as int) =~= head);
    assert(d.subrange(d.len() - tail.len(), d.len() as int) =~= tail);
}

/// Routes of a server's tools: exposed name to the server's name.
pub open spec fn mcp_routes_of(label: Seq<char>, tools: Seq<McpToolInfo>) -> Seq<
    (Seq<char>, Seq<char>),
> {
    tools.map_values(|t: McpToolInfo| (exposed_name(label, t.name@), t.name@))
}

/// `e` is the error for tool `k`, the first whose exposed name is already taken, by an
/// earlier tool of the catalog or of this server.
pub open spec fn mcp_problem_at(
    names: Seq<Seq<char>>,
    label: Seq<char>,
    tools: Seq<McpToolInfo>,
    k: int,
    e: ConnectError,
) -> bool {
    let ex = exposed_names_of(label, tools);
    &&& 0 <= k < tools.len()
    &&& (names + ex.take(k)).no_duplicates()
    &&& (names + ex.take(k)).contains(ex[k])
    &&& e matches ConnectError::DuplicateMcpToolName { name }
    &&& name@ == ex[k]
}

/// Every tool that a server listed is reachable under its exposed name and is routed to the
/// server's own name for it, provided no two exposed names coincide (which adding the server
/// checks).
pub proof fn lemma_routes_reach_every_tool(label: Seq<char>, tools: Seq<McpToolInfo>, k: int)
    requires
        exposed_names_of(label, tools).no_duplicates(),
        0 <= k < tools.len(),
    ensures
        route_lookup(mcp_routes_of(label, tools), exposed_name(label, tools[k].name@)) == Some(
            tools[k].name@,
        ),
    decreases tools.len(),
{
    let routes = mcp_routes_of(label, tools);
    let last = tools.len() - 1;
    assert(routes.drop_last() =~= mcp_routes_of(label, tools.drop_last()));
    if k < last {
        assert(exposed_names_of(label, tools)[k] != exposed_names_of(label, tools)[last]);
        assert(exposed_names_of(label, tools.drop_last()) =~= exposed_names_of(label, tools).drop_last());
        lemma_routes_reach_every_tool(label, tools.drop_last(), k);
    }
}

/// A name that is not the exposed name of any listed tool has no route.
pub proof fn lemma_routes_only_listed_tools(label: Seq<char>, tools: Seq<McpToolInfo>, name: Seq<char>)
    requires
        !exposed_names_of(label, tools).contains(name),
    ensures
        route_lookup(mcp_routes_of(label, tools), name) is None,
    decreases tools.len(),
{
    if tools.len() > 0 {
        let last = tools.len() - 1;
        assert(mcp_routes_of(label, tools).drop_last() =~= mcp_routes_of(label, tools.drop_last()));
        assert(exposed_names_of(label, tools)[last] != name);
        assert forall|x: Seq<char>| exposed_names_of(label, tools.drop_last()).contains(x) implies exposed_names_of(
            label,
            tools,
        ).contains(x) by {
            let j = choose|j: int|
                0 <= j < exposed_names_of(label, tools.drop_last()).len() && exposed_names_of(
                    label,
                    tools.drop_last(),
                )[j] == x;
            assert(exposed_names_of(label, tools)[j] == x);
        }
        lemma_routes_only_listed_tools(label, tools.drop_last(), name);
    }
}

/// Shutting the MCP servers down twice closes nothing the second time and keeps the same
/// in-process backends.
pub proof fn lemma_shutdown_twice<U, S>(bs: Seq<ToolBackend<U, S>>)
    ensures
        mcp_bridges(in_process_backends(bs)) == Seq::<McpBridge<S>>::empty(),
        in_process_backends(in_process_backends(bs)) == in_process_backends(bs),
    decreases bs.len(),
{
    if bs.len() > 0 {
        lemma_shutdown_twice(bs.drop_last());
        let rest = in_process_backends(bs.drop_last());
        match bs.last() {
            ToolBackend::InProcess(_) => {
                let r = rest.push(bs.last());
                assert(r.drop_last() =~= rest);
            },
            ToolBackend::Mcp(_) => {},
        }
    }
}

/// A catalog being assembled: the names taken so far, the definitions, the backends.
pub struct CatalogAssembly<U, S, A> {
    names: Vec<String>,
    defs: Vec<String>,
    backends: Vec<ToolBackend<U, S>>,
    audit: Option<A>,
}

impl<U, S, A> CatalogAssembly<U, S, A> {
    #[verifier::type_invariant]
    closed spec fn shape_holds(self) -> bool {
        catalog_shape(texts(self.names@), texts(self.defs@), self.backends@)
    }

    /// Tool names taken so far, in order.
    pub closed spec fn names_spec(self) -> Seq<Seq<char>> {
        texts(self.names@)
    }

    /// Definitions so far, as JSON texts.
    pub closed spec fn defs_spec(self) -> Seq<Seq<char>> {
        texts(self.defs@)
    }

    /// Backends so far.
    pub closed spec fn backends_spec(self) -> Seq<ToolBackend<U, S>> {
        self.backends@
    }

    /// The audit log that the catalog will have.
    pub closed spec fn audit_spec(self) -> Option<A> {
        self.audit
    }

    /// One definition per name taken, no name taken twice, every MCP route under a taken name
    /// (true of every assembly).
    pub open spec fn wf(self) -> bool {
        catalog_shape(self.names_spec(), self.defs_spec(), self.backends_spec())
    }

    /// Adds a connected server: its tools under `<sanitized label>__<tool name>`, routed to the
    /// server's names. Fails at the first exposed name that is already taken.
    #[verifier::loop_isolation(false)]
    pub fn add_mcp_server(self, label: &str, tools: Vec<McpToolInfo>, service: S) -> (res: Result<
        CatalogAssembly<U, S, A>,
        ConnectError,
    >)
        ensures
            self.wf(),
            match res {
                Ok(next) => {
                    &&& (self.names_spec() + exposed_names_of(label@, tools@)).no_duplicates()
                    &&& next.wf()
                    &&& next.names_spec() == self.names_spec() + exposed_names_of(label@, tools@)
                    &&& next.defs_spec() == self.defs_spec() + tools@.map_values(
                        |t: McpToolInfo| mcp_tool_def(label@, t),
                    )
                    &&& forall|k: int|
                        0 <= k < tools@.len() ==> (",\"parameters\":"@ + offered_parameters(
                            #[trigger] tools@[k],
                        ) + "}}"@).is_suffix_of(next.defs_spec()[self.defs_spec().len() + k])
                    &&& next.backends_spec().drop_last() == self.backends_spec()
                    &&& next.backends_spec().len() == self.backends_spec().len() + 1
                    &&& next.backends_spec().last() matches ToolBackend::Mcp(b)
                    &&& b.routes() == mcp_routes_of(label@, tools@)
                    &&& b.wf()
                    &&& b.service_spec() == service
                    &&& next.audit_spec() == self.audit_spec()
                },
                Err(e) => exists|k: int| mcp_problem_at(self.names_spec(), label@, tools@, k, e),
            },
    {
        proof {
            use_type_invariant(&self);
        }
        let prefix = sanitize_label(label);
        let ghost names0 = self.names_spec();
        let CatalogAssembly { mut names, mut defs, mut backends, audit } = self;
        let ghost defs0 = texts(defs@);
        let ghost ex = exposed_names_of(label@, tools@);
        let mut routes: Vec<(String, String)> = Vec::new();
        let n = tools.len();
        let mut i: usize = 0;
        while i < n
            invariant
                n == tools@.len(),
                i <= n,
                prefix@ == sanitized(label@),
                ex == exposed_names_of(label@, tools@),
                texts(names@) == names0 + ex.take(i as int),
                texts(names@).no_duplicates(),
                texts(defs@) == defs0 + tools@.take(i as int).map_values(
                    |t: McpToolInfo| mcp_tool_def(label@, t),
                ),
                route_texts(routes@) == mcp_routes_of(label@, tools@.take(i as int)),
            decreases n - i,
        {
            let inner = tools[i].name.clone();
            let mut exposed = prefix.clone();
            exposed.append("__");
            exposed.append(inner.as_str());
            assert(exposed@ == ex[i as int]);
            if contains_text(&names, exposed.as_str()) {
                let e = ConnectError::DuplicateMcpToolName { name: exposed };
                assert(mcp_problem_at(names0, label@, tools@, i as int, e));

                return Err(e);
            }
            proof {
                lemma_push_no_duplicates(texts(names@), exposed@);
            }
            let def = mcp_tool_to_openai_function(
                exposed.as_str(),
                clone_opt_string(&tools[i].description),
                clone_opt_string(&tools[i].input_schema),
            );
            assert(def@ == mcp_tool_def(label@, tools@[i as int]));
            let ghost names_before = names@;
            let ghost defs_before = defs@;
            let ghost routes_before = routes@;
            let exposed_copy = exposed.clone();
            names.push(exposed_copy);
            defs.push(def);
            routes.push((exposed, inner));
            assert(texts(names@) =~= texts(names_before).push(ex[i as int]));
            assert(texts(defs@) =~= texts(defs_before).push(mcp_tool_def(label@, tools@[i as int])));
            assert(route_texts(routes@) =~= route_texts(routes_before).push(
                (ex[i as int], tools@[i as int].name@),
            ));
            assert(ex.take(i + 1) =~= ex.take(i as int).push(ex[i as int]));
            assert(texts(names@) =~= names0 + ex.take(i + 1));
            assert(tools@.take(i + 1).map_values(|t: McpToolInfo| mcp_tool_def(label@, t))
                =~= tools@.take(i as int).map_values(|t: McpToolInfo| mcp_tool_def(label@, t)).push(
                mcp_tool_def(label@, tools@[i as int]),
            ));
            assert(texts(defs@) =~= defs0 + tools@.take(i + 1).map_values(
                |t: McpToolInfo| mcp_tool_def(label@, t),
            ));
            assert(mcp_routes_of(label@, tools@.take(i + 1)) =~= mcp_routes_of(
                label@,
                tools@.take(i as int),
            ).push((ex[i as int], tools@[i as int].name@)));
            assert(route_texts(routes@) =~= mcp_routes_of(label@, tools@.take(i + 1)));
            i += 1;
        }
        assert(ex.take(n as int) =~= ex);
        assert(tools@.take(n as int) =~= tools@);
        assert(route_keys(route_texts(routes@)) =~= ex);
        assert(ex.no_duplicates()) by {
            let all = names0 + ex;
            assert forall|a: int, b: int| 0 <= a < ex.len() && 0 <= b < ex.len() && a != b implies ex[a]
                != ex[b] by {
                assert(all[names0.len() + a] == ex[a]);
                assert(all[names0.len() + b] == ex[b]);
            }
        }
        assert forall|k: int| 0 <= k < tools@.len() implies (",\"parameters\":"@ + offered_parameters(
            #[trigger] tools@[k],
        ) + "}}"@).is_suffix_of(texts(defs@)[defs0.len() + k]) by {
            assert(texts(defs@)[defs0.len() + k] == mcp_tool_def(label@, tools@[k]));
            lemma_mcp_def_carries_schema(label@, tools@[k]);
        }
        let ghost bs0 = backends@;
        let ghost new_routes = route_texts(routes@);
        proof {
            lemma_routes_named_grow(bs0, names0, ex);
        }
        let bridge = McpBridge { routes, service };
        backends.push(ToolBackend::Mcp(bridge));
        proof {
            let all = names0 + ex;
            assert forall|i: int| 0 <= i < backends@.len() implies backend_routes_named(
                #[trigger] backends@[i],
                all,
            ) by {
                if i < bs0.len() {
                    assert(backends@[i] == bs0[i]);
                } else {
                    assert forall|j: int| 0 <= j < new_routes.len() implies all.contains(
                        #[trigger] new_routes[j].0,
                    ) by {
                        assert(route_keys(new_routes)[j] == ex[j]);
                        assert(all[names0.len() + j] == ex[j]);
                    }
                }
            }
        }
        Ok(CatalogAssembly { names, defs, backends, audit })
    }

    /// The finished catalog, which keeps the names taken: no two of its tools share a name.
    pub fn finish(self) -> (res: ToolCatalog<U, S, A>)
        ensures
            self.wf(),
            res.wf(),
            res.tool_names() == self.names_spec(),
            res.backends_spec() == self.backends_spec(),
            res.tool_definitions() == self.defs_spec(),
            res.audit_spec() == self.audit_spec(),
    {
        proof {
            use_type_invariant(&self);
        }
        ToolCatalog {
            names: self.names,
            backends: self.backends,
            openai_tools: self.defs,
            audit: self.audit,
        }
    }
}

/// The in-process backends made from tool sets, in order.
pub open spec fn in_process_of<U, S>(natives: Seq<NativeTools<U>>) -> Seq<ToolBackend<U, S>> {
    natives.map_values(|n: NativeTools<U>| ToolBackend::InProcess(n))
}

/// Gathers what a catalog is made of before it connects to its MCP servers.
pub struct ToolCatalogBuilder<U, A> {
    natives: Vec<NativeTools<U>>,
    mcp_servers: Vec<McpServerEntry>,
    audit: Option<A>,
}

impl<U, A> ToolCatalogBuilder<U, A> {
    /// The in-process tool sets, in order.
    pub closed spec fn natives_spec(self) -> Seq<NativeTools<U>> {
        self.natives@
    }

    /// The MCP servers, in order.
    pub closed spec fn servers_spec(self) -> Seq<McpServerEntry> {
        self.mcp_servers@
    }

    /// The audit log.
    pub closed spec fn audit_spec(self) -> Option<A> {
        self.audit
    }

    /// The in-process tool sets, in order (to read their definitions before connecting).
    pub fn natives(&self) -> (res: &Vec<NativeTools<U>>)
        ensures
            res@ == self.natives_spec(),
    {
        &self.natives
    }

    /// The built-in tools only, no MCP server, no audit log.
    pub fn with_default_natives() -> (res: Self)
        ensures
            res.natives_spec() == seq![NativeTools::<U>::Local(LocalToolkit)],
            res.servers_spec() == Seq::<McpServerEntry>::empty(),
            res.audit_spec() is None,
    {
        let mut natives = Vec::new();
        natives.push(NativeTools::Local(LocalToolkit));
        ToolCatalogBuilder { natives, mcp_servers: Vec::new(), audit: None }
    }

    /// No tools at all.
    pub fn empty() -> (res: Self)
        ensures
            res.natives_spec() == Seq::<NativeTools<U>>::empty(),
            res.servers_spec() == Seq::<McpServerEntry>::empty(),
            res.audit_spec() is None,
    {
        ToolCatalogBuilder { natives: Vec::new(), mcp_servers: Vec::new(), audit: None }
    }

    /// Sets the audit log.
    pub fn audit_log(self, log: Option<A>) -> (res: Self)
        ensures
            res.natives_spec() == self.natives_spec(),
            res.servers_spec() == self.servers_spec(),
            res.audit_spec() == log,
    {
        ToolCatalogBuilder { natives: self.natives, mcp_servers: self.mcp_servers, audit: log }
    }

    /// Adds an in-process tool set after those already there.
    pub fn register_native(self, t: U) -> (res: Self)
        ensures
            res.natives_spec() == self.natives_spec().push(NativeTools::Custom(t)),
            res.servers_spec() == self.servers_spec(),
            res.audit_spec() == self.audit_spec(),
    {
        let mut natives = self.natives;
        natives.push(NativeTools::Custom(t));
        ToolCatalogBuilder { natives, mcp_servers: self.mcp_servers, audit: self.audit }
    }

    /// Sets the MCP servers.
    pub fn mcp_servers(self, servers: Vec<McpServerEntry>) -> (res: Self)
        ensures
            res.natives_spec() == self.natives_spec(),
            res.servers_spec() == servers@,
            res.audit_spec() == self.audit_spec(),
    {
        ToolCatalogBuilder { natives: self.natives, mcp_servers: servers, audit: self.audit }
    }

    /// Registers the in-process definitions, in order, and hands back the assembly and the
    /// servers still to connect. Fails at the first definition without a name or with a name
    /// already taken.
    pub fn start_connect<S>(self, native_defs: Vec<NativeDefinition>) -> (res: Result<
        (CatalogAssembly<U, S, A>, Vec<McpServerEntry>),
        ConnectError,
    >)
        ensures
            match res {
                Ok((assembly, servers)) => {
                    &&& natives_admissible(native_defs@)
                    &&& assembly.wf()
                    &&& assembly.names_spec() == native_name_texts(native_defs@)
                    &&& assembly.defs_spec() == native_defs@.map_values(
                        |d: NativeDefinition| d.definition@,
                    )
                    &&& assembly.backends_spec() == in_process_of::<U, S>(self.natives_spec())
                    &&& assembly.audit_spec() == self.audit_spec()
                    &&& servers@ == self.servers_spec()
                },
                Err(e) => exists|k: int| native_problem_at(native_defs@, k, e),
            },
    {
        let mut names: Vec<String> = Vec::new();
        let mut defs: Vec<String> = Vec::new();
        let n = native_defs.len();
        let mut i: usize = 0;
        while i < n
            invariant
                n == native_defs@.len(),
                i <= n,
                natives_admissible(native_defs@.take(i as int)),
                texts(names@) == native_name_texts(native_defs@.take(i as int)),
                texts(defs@) == native_defs@.take(i as int).map_values(
                    |d: NativeDefinition| d.definition@,
                ),
            decreases n - i,
        {
            assert(native_defs@.take(i + 1) =~= native_defs@.take(i as int).push(
                native_defs@[i as int],
            ));
            match &native_defs[i].name {
                None => {
                    assert(native_problem_at(
                        native_defs@,
                        i as int,
                        ConnectError::MissingNativeName,
                    ));
                    return Err(ConnectError::MissingNativeName);
                },
                Some(name) => {
                    if contains_text(&names, name.as_str()) {
                        let e = ConnectError::DuplicateToolName { name: name.clone() };
                        assert(native_problem_at(native_defs@, i as int, e));
                        return Err(e);
                    }
                    proof {
                        lemma_push_no_duplicates(texts(names@), name@);
                    }
                    let ghost names_before = names@;
                    let ghost defs_before = defs@;
                    names.push(name.clone());
                    defs.push(native_defs[i].definition.clone());
                    assert(texts(names@) =~= texts(names_before).push(name@));
                    assert(texts(defs@) =~= texts(defs_before).push(
                        native_defs@[i as int].definition@,
                    ));
                    assert(native_name_texts(native_defs@.take(i + 1)) =~= native_name_texts(
                        native_defs@.take(i as int),
                    ).push(name@));
                    assert(native_defs@.take(i + 1).map_values(|d: NativeDefinition| d.definition@)
                        =~= native_defs@.take(i as int).map_values(
                        |d: NativeDefinition| d.definition@,
                    ).push(native_defs@[i as int].definition@));
                },
            }
            i += 1;
        }
        assert(native_defs@.take(n as int) =~= native_defs@);
        let ToolCatalogBuilder { mut natives, mcp_servers, audit } = self;
        let ghost all = natives@;
        let mut backends: Vec<ToolBackend<U, S>> = Vec::new();
        let m = natives.len();
        let mut j: usize = 0;
        while j < m
            invariant
                m == all.len(),
                j <= m,
                natives@ == all.skip(j as int),
                backends@ == in_process_of::<U, S>(all.take(j as int)),
            decreases m - j,
        {
            assert(natives@[0] == all[j as int]);
            let t = natives.remove(0);
            assert(natives@ =~= all.skip(j + 1));
            backends.push(ToolBackend::InProcess(t));
            assert(all.take(j + 1) =~= all.take(j as int).push(all[j as int]));
            assert(backends@ =~= in_process_of::<U, S>(all.take(j + 1)));
            j += 1;
        }
        assert(all.take(m as int) =~= all);
        assert(routes_named(backends@, texts(names@)));
        Ok((CatalogAssembly { names, defs, backends, audit }, mcp_servers))
    }
}

} // verus!
