//! Exec-permission filtering for MCP proxy sessions.
//!
//! When a server declares specific exec permissions, the proxy intercepts
//! `tools/call` requests and blocks any tool name not in the allowed set.

use vstd::prelude::*;

use crate::json::{
    entry_lookup, json_as_str, json_get, json_get_opt, json_index, json_str_opt, json_number, json_text, nested_str, nested_str_of,
    parse_json, spec_json_number, spec_json_text, spec_parse_json, Json, JsonValue,
};
use crate::text::{spec_trim, str_eq, trim};

verus! {

/// Result of filtering a single JSON-RPC line from the client.
#[derive(Debug)]
pub enum FilterResult {
    /// Forward the line unchanged to the server.
    Forward(String),
    /// Deny the request and return an error response to the client.
    Deny(String),
    /// Not a tool call — pass through unchanged.
    PassThrough(String),
}

/// The model of a `FilterResult`: the variant and the text it carries.
pub enum FilterOutcome {
    Forward(Seq<char>),
    Deny(Seq<char>),
    PassThrough(Seq<char>),
}

impl FilterResult {
    pub open spec fn model(&self) -> FilterOutcome {
        match self {
            FilterResult::Forward(s) => FilterOutcome::Forward(s@),
            FilterResult::Deny(s) => FilterOutcome::Deny(s@),
            FilterResult::PassThrough(s) => FilterOutcome::PassThrough(s@),
        }
    }
}

/// What the filter decides for a parsed client message, before any text is
/// written.
#[derive(Debug)]
pub enum FilterDecision {
    /// Send the message on to the server.
    Forward,
    /// Refuse the tool call: answer the request `id` with an error naming `tool`.
    Deny { id: JsonValue, tool: String },
    /// Not a JSON-RPC request that the filter reads: send it on unchanged.
    PassThrough,
}

/// The model of a `FilterDecision`.
pub enum Verdict {
    Forward,
    Deny { id: Json, tool: Seq<char> },
    PassThrough,
}

impl FilterDecision {
    pub open spec fn model(&self) -> Verdict {
        match self {
            FilterDecision::Forward => Verdict::Forward,
            FilterDecision::Deny { id, tool } => Verdict::Deny { id: id.model(), tool: tool@ },
            FilterDecision::PassThrough => Verdict::PassThrough,
        }
    }
}

/// The tool that a `tools/call` request names: `params.name` when it is a
/// string, else the empty name.
pub open spec fn requested_tool(v: Json) -> Seq<char> {
    match nested_str(v, "params"@, "name"@) {
        Some(name) => name,
        None => Seq::empty(),
    }
}

/// What the filter decides for a message `parsed` (`None`: not JSON) under
/// the allowed tool names `allowed` (`None`: every tool is allowed).
pub open spec fn spec_decide(allowed: Option<Set<Seq<char>>>, parsed: Option<Json>) -> Verdict {
    match allowed {
        None => Verdict::PassThrough,
        Some(names) => match parsed {
            None => Verdict::PassThrough,
            Some(v) => match json_get(v, "method"@) {
                None => Verdict::PassThrough,
                Some(m) => match json_as_str(m) {
                    None => Verdict::PassThrough,
                    Some(method) => if method != "tools/call"@ {
                        Verdict::Forward
                    } else if names.contains(requested_tool(v)) {
                        Verdict::Forward
                    } else {
                        Verdict::Deny { id: json_index(v, "id"@), tool: requested_tool(v) }
                    },
                },
            },
        },
    }
}

/// The message of the error that denies `tool`.
pub open spec fn denial_message(tool: Seq<char>) -> Seq<char> {
    "Tool '"@ + tool + "' is not allowed by exec permissions"@
}

/// The JSON-RPC error response that denies `tool` to the request `id`.
pub open spec fn denial_json(id: Json, tool: Seq<char>) -> Json {
    Json::Object(
        seq![
            ("jsonrpc"@, Json::Str("2.0"@)),
            ("id"@, id),
            (
                "error"@,
                Json::Object(
                    seq![
                        ("code"@, Json::Number(spec_json_number(-32600i64))),
                        ("message"@, Json::Str(denial_message(tool))),
                    ],
                ),
            ),
        ],
    )
}

/// What `filter_message` answers for the client line `line`.
pub open spec fn spec_filter_message(allowed: Option<Set<Seq<char>>>, line: Seq<char>) -> FilterOutcome {
    match spec_decide(allowed, spec_parse_json(spec_trim(line))) {
        Verdict::Forward => FilterOutcome::Forward(line),
        Verdict::PassThrough => FilterOutcome::PassThrough(line),
        Verdict::Deny { id, tool } => FilterOutcome::Deny(spec_json_text(denial_json(id, tool))),
    }
}

/// Filters MCP `tools/call` requests based on declared exec permissions.
pub struct ProxyFilter {
    allowed: Option<Vec<String>>,
}

/// Whether no name occurs twice in `names`.
pub open spec fn distinct_names(names: Seq<String>) -> bool {
    forall|i: int, j: int| 0 <= i < j < names.len() ==> (#[trigger] names[i])@ != (#[trigger] names[j])@
}

/// The set of the texts of `names`.
pub open spec fn name_set(names: Seq<String>) -> Set<Seq<char>> {
    Set::new(|t: Seq<char>| exists|i: int| 0 <= i < names.len() && (#[trigger] names[i])@ == t)
}

/// Whether a permission list lifts every restriction: it is empty or holds `*`.
pub open spec fn unrestricted(perms: Seq<String>) -> bool {
    perms.len() == 0 || exists|i: int| 0 <= i < perms.len() && (#[trigger] perms[i])@ == "*"@
}

impl View for ProxyFilter {
    /// The allowed tool names, or `None` when every tool is allowed.
    type V = Option<Set<Seq<char>>>;

    closed spec fn view(&self) -> Option<Set<Seq<char>>> {
        match self.allowed {
            None => None,
            Some(names) => Some(name_set(names@)),
        }
    }
}

/// Whether `names` holds an entry whose text is `name`.
fn contains_name(names: &Vec<String>, name: &str) -> (r: bool)
    ensures
        r == name_set(names@).contains(name@),
{
    let mut i: usize = 0;
    while i < names.len()
        invariant
            i <= names@.len(),
            forall|j: int| 0 <= j < i ==> (#[trigger] names@[j])@ != name@,
        decreases names@.len() - i,
    {
        if str_eq(names[i].as_str(), name) {
            assert(name_set(names@).contains(name@) == (exists|j: int|
                0 <= j < names@.len() && (#[trigger] names@[j])@ == name@));
            return true;
        }
        i = i + 1;
    }
    false
}

impl ProxyFilter {
    #[verifier::type_invariant]
    closed spec fn wf(&self) -> bool {
        match self.allowed {
            None => true,
            Some(names) => distinct_names(names@),
        }
    }

    /// Creates a new filter from declared exec permissions.
    ///
    /// An empty list or a list containing `"*"` allows all tool calls.
    pub fn new(exec_permissions: &[String]) -> (r: Self)
        ensures
            unrestricted(exec_permissions@) ==> r@ is None,
            !unrestricted(exec_permissions@) ==> r@ == Some(name_set(exec_permissions@)),
    {
        let n = exec_permissions.len();
        let mut i: usize = 0;
        while i < n
            invariant
                i <= n,
                n == exec_permissions@.len(),
                forall|j: int| 0 <= j < i ==> (#[trigger] exec_permissions@[j])@ != "*"@,
            decreases n - i,
        {
            if str_eq(exec_permissions[i].as_str(), "*") {
                return ProxyFilter { allowed: None };
            }
            i = i + 1;
        }
        if n == 0 {
            return ProxyFilter { allowed: None };
        }
        let mut names: Vec<String> = Vec::new();
        let mut k: usize = 0;
        while k < n
            invariant
                k <= n,
                n == exec_permissions@.len(),
                distinct_names(names@),
                name_set(names@) == name_set(exec_permissions@.subrange(0, k as int)),
            decreases n - k,
        {
            let p = &exec_permissions[k];
            let ghost before = names@;
            let ghost prefix = exec_permissions@.subrange(0, k + 1);
            if !contains_name(&names, p.as_str()) {
                names.push(p.clone());
                assert forall|t: Seq<char>| name_set(names@).contains(t) == name_set(prefix).contains(t) by {
                    if name_set(names@).contains(t) {
                        let j = choose|j: int| 0 <= j < names@.len() && (#[trigger] names@[j])@ == t;
                        if j < before.len() {
                            assert(name_set(before).contains(t));
                            let q = choose|q: int| 0 <= q < k && (#[trigger] exec_permissions@.subrange(0, k as int)[q])@ == t;
                            assert(prefix[q] == exec_permissions@.subrange(0, k as int)[q]);
                        } else {
                            assert(prefix[k as int] == exec_permissions@[k as int]);
                        }
                    }
                    if name_set(prefix).contains(t) {
                        let q = choose|q: int| 0 <= q < k + 1 && (#[trigger] prefix[q])@ == t;
                        if q < k {
                            assert(exec_permissions@.subrange(0, k as int)[q] == prefix[q]);
                            assert(name_set(exec_permissions@.subrange(0, k as int)).contains(t));
                            let j = choose|j: int| 0 <= j < before.len() && (#[trigger] before[j])@ == t;
                            assert(names@[j] == before[j]);
                        } else {
                            assert(names@[before.len() as int] == *p);
                        }
                    }
                }
                assert(name_set(names@) =~= name_set(prefix));
            } else {
                assert forall|t: Seq<char>| name_set(names@).contains(t) == name_set(prefix).contains(t) by {
                    if name_set(names@).contains(t) {
                        let q = choose|q: int| 0 <= q < k && (#[trigger] exec_permissions@.subrange(0, k as int)[q])@ == t;
                        assert(prefix[q] == exec_permissions@.subrange(0, k as int)[q]);
                    }
                    if name_set(prefix).contains(t) {
                        let q = choose|q: int| 0 <= q < k + 1 && (#[trigger] prefix[q])@ == t;
                        if q < k {
                            assert(exec_permissions@.subrange(0, k as int)[q] == prefix[q]);
                            assert(name_set(exec_permissions@.subrange(0, k as int)).contains(t));
                        } else {
                            assert(prefix[q] == exec_permissions@[k as int]);
                        }
                    }
                }
                assert(name_set(names@) =~= name_set(prefix));
            }
            k = k + 1;
        }
        assert(exec_permissions@.subrange(0, n as int) =~= exec_permissions@);
        ProxyFilter { allowed: Some(names) }
    }

    /// Returns `true` if the filter allows all tool calls (no restrictions).
    pub fn allows_all(&self) -> (r: bool)
        ensures
            r == (self@ is None),
    {
        self.allowed.is_none()
    }

    /// Decides on a client message that has been parsed (`None`: the line was
    /// not JSON). The message is consumed: a denial keeps its request id.
    pub fn decide(&self, parsed: Option<JsonValue>) -> (r: FilterDecision)
        ensures
            r.model() == spec_decide(self@, match parsed {
                Some(v) => Some(v.model()),
                None => None,
            }),
    {
        let allowed = match &self.allowed {
            Some(names) => names,
            None => return FilterDecision::PassThrough,
        };
        let value = match parsed {
            Some(v) => v,
            None => return FilterDecision::PassThrough,
        };
        let method = match value.get("method") {
            Some(m) => match m.as_str() {
                Some(s) => s,
                None => return FilterDecision::PassThrough,
            },
            None => return FilterDecision::PassThrough,
        };
        if !str_eq(method.as_str(), "tools/call") {
            return FilterDecision::Forward;
        }
        let tool: String = match nested_str_of(&value, "params", "name") {
            Some(name) => name.clone(),
            None => String::new(),
        };
        if contains_name(allowed, tool.as_str()) {
            FilterDecision::Forward
        } else {
            let id = value.into_member("id");
            FilterDecision::Deny { id, tool }
        }
    }

    /// Inspects a line from the client and decides whether to forward or deny.
    pub fn filter_message(&self, line: &str) -> (r: FilterResult)
        ensures
            r.model() == spec_filter_message(self@, line@),
    {
        if self.allowed.is_none() {
            return FilterResult::PassThrough(line.to_owned());
        }
        let parsed = parse_json(trim(line));
        match self.decide(parsed) {
            FilterDecision::Forward => FilterResult::Forward(line.to_owned()),
            FilterDecision::PassThrough => FilterResult::PassThrough(line.to_owned()),
            FilterDecision::Deny { id, tool } => FilterResult::Deny(
                build_denial_response(id, tool.as_str()),
            ),
        }
    }

    /// Handles one line from the client in a proxy session: the message to
    /// send on to the server, or the error to answer the client with. The
    /// name of each denied tool, where the request gives one, is recorded in
    /// `denied_tools` for the audit trail.
    pub fn route_client_line(&self, line: &str, denied_tools: &mut Vec<String>) -> (r: ProxyAction)
        ensures
            match spec_filter_message(self@, line@) {
                FilterOutcome::Forward(m) => r == ProxyAction::ToServer(r->ToServer_0)
                    && (r->ToServer_0)@ == m && final(denied_tools)@ == old(denied_tools)@,
                FilterOutcome::PassThrough(m) => r == ProxyAction::ToServer(r->ToServer_0)
                    && (r->ToServer_0)@ == m && final(denied_tools)@ == old(denied_tools)@,
                FilterOutcome::Deny(e) => r == ProxyAction::ToClient(r->ToClient_0)
                    && (r->ToClient_0)@ == e
                    && match audited_tool(line@) {
                        Some(name) => final(denied_tools)@.len() == old(denied_tools)@.len() + 1
                            && final(denied_tools)@.drop_last() == old(denied_tools)@
                            && final(denied_tools)@.last()@ == name,
                        None => final(denied_tools)@ == old(denied_tools)@,
                    },
            },
    {
        match self.filter_message(line) {
            FilterResult::Forward(msg) => ProxyAction::ToServer(msg),
            FilterResult::PassThrough(msg) => ProxyAction::ToServer(msg),
            FilterResult::Deny(err) => {
                if let Some(v) = parse_json(trim(line)) {
                    if let Some(name) = nested_str_of(&v, "params", "name") {
                        denied_tools.push(name.clone());
                    }
                }
                ProxyAction::ToClient(err)
            },
        }
    }
}

/// The tool name recorded for the audit trail when the line `line` is
/// denied: `params.name` of the parsed line, where it is a string.
pub open spec fn audited_tool(line: Seq<char>) -> Option<Seq<char>> {
    match spec_parse_json(spec_trim(line)) {
        Some(v) => nested_str(v, "params"@, "name"@),
        None => None,
    }
}

/// Whether the filter denies the client line `line`.
pub open spec fn is_denied(allowed: Option<Set<Seq<char>>>, line: Seq<char>) -> bool {
    spec_filter_message(allowed, line) is Deny
}

/// The lines a session sends to the server for the client lines `lines`, in order.
pub open spec fn spec_to_server(allowed: Option<Set<Seq<char>>>, lines: Seq<Seq<char>>) -> Seq<
    Seq<char>,
> {
    lines.filter_map(
        |l: Seq<char>|
            match spec_filter_message(allowed, l) {
                FilterOutcome::Forward(m) => Some(m),
                FilterOutcome::PassThrough(m) => Some(m),
                FilterOutcome::Deny(_) => None,
            },
    )
}

/// The error responses a session writes back to the client for the client
/// lines `lines`, in order.
pub open spec fn spec_to_client(allowed: Option<Set<Seq<char>>>, lines: Seq<Seq<char>>) -> Seq<
    Seq<char>,
> {
    lines.filter_map(
        |l: Seq<char>|
            match spec_filter_message(allowed, l) {
                FilterOutcome::Deny(e) => Some(e),
                _ => None,
            },
    )
}

/// The tool names a session records for the audit trail for the client
/// lines `lines`, in order: one for each denied line that names its tool.
pub open spec fn spec_denied_tools(allowed: Option<Set<Seq<char>>>, lines: Seq<Seq<char>>) -> Seq<
    Seq<char>,
> {
    lines.filter_map(
        |l: Seq<char>|
            if is_denied(allowed, l) {
                audited_tool(l)
            } else {
                None
            },
    )
}

/// The state of a proxy session: the filter in force, the client lines
/// handled so far, and the tools denied so far.
pub struct ProxySession<'a> {
    filter: &'a ProxyFilter,
    log: SessionLog,
}

/// The part of a session that grows with each client line.
struct SessionLog {
    denied_tools: Vec<String>,
    lines: Ghost<Seq<Seq<char>>>,
}

/// The texts of a list of strings.
pub open spec fn texts(v: Seq<String>) -> Seq<Seq<char>> {
    v.map_values(|s: String| s@)
}

impl<'a> ProxySession<'a> {
    #[verifier::type_invariant]
    closed spec fn wf(&self) -> bool {
        texts(self.log.denied_tools@) == spec_denied_tools(self.filter@, self.log.lines@)
    }

    /// The allowed tool names of the session's filter.
    pub closed spec fn allowed(&self) -> Option<Set<Seq<char>>> {
        self.filter@
    }

    /// The client lines handled so far, in order.
    pub closed spec fn history(&self) -> Seq<Seq<char>> {
        self.log.lines@
    }

    /// Starts a session under `filter`, with no line handled yet.
    pub fn new(filter: &'a ProxyFilter) -> (r: Self)
        ensures
            r.allowed() == filter@,
            r.history() == Seq::<Seq<char>>::empty(),
    {
        let log = SessionLog { denied_tools: Vec::new(), lines: Ghost(Seq::empty()) };
        assert(texts(log.denied_tools@) =~= Seq::<Seq<char>>::empty());
        assert(spec_denied_tools(filter@, log.lines@) =~= Seq::<Seq<char>>::empty());
        ProxySession { filter, log }
    }

    /// Handles the next client line: the message for the server or the
    /// answer for the client. Across a session the server gets exactly
    /// `spec_to_server` of the lines, the client `spec_to_client`, one line
    /// more for each call.
    pub fn on_client_line(&mut self, line: &str) -> (r: ProxyAction)
        ensures
            final(self).allowed() == old(self).allowed(),
            final(self).history() == old(self).history().push(line@),
            match r {
                ProxyAction::ToServer(m) => spec_to_server(
                    final(self).allowed(),
                    final(self).history(),
                ) == spec_to_server(old(self).allowed(), old(self).history()).push(m@)
                    && spec_to_client(final(self).allowed(), final(self).history())
                    == spec_to_client(old(self).allowed(), old(self).history()),
                ProxyAction::ToClient(e) => spec_to_client(
                    final(self).allowed(),
                    final(self).history(),
                ) == spec_to_client(old(self).allowed(), old(self).history()).push(e@)
                    && spec_to_server(final(self).allowed(), final(self).history())
                    == spec_to_server(old(self).allowed(), old(self).history()),
            },
    {
        proof {
            use_type_invariant(&*self);
        }
        let ghost allowed = self.filter@;
        let mut log = SessionLog { denied_tools: Vec::new(), lines: Ghost(Seq::empty()) };
        assert(texts(log.denied_tools@) =~= Seq::<Seq<char>>::empty());
        assert(spec_denied_tools(allowed, log.lines@) =~= Seq::<Seq<char>>::empty());
        std::mem::swap(&mut log, &mut self.log);
        assert(texts(log.denied_tools@) == spec_denied_tools(allowed, log.lines@));
        let ghost before = log.lines@;
        let ghost old_denied = log.denied_tools@;
        let action = self.filter.route_client_line(line, &mut log.denied_tools);
        let ghost after = before.push(line@);
        assert(after.drop_last() =~= before);
        proof {
            assert(after.last() == line@);
            if is_denied(allowed, line@) {
                match audited_tool(line@) {
                    Some(name) => {
                        assert(log.denied_tools@ =~= old_denied.push(log.denied_tools@.last()));
                        assert(texts(log.denied_tools@) =~= texts(old_denied).push(name));
                    },
                    None => {
                        assert(texts(log.denied_tools@) == texts(old_denied));
                    },
                }
            } else {
                assert(texts(log.denied_tools@) == texts(old_denied));
            }
            assert(texts(log.denied_tools@) == spec_denied_tools(allowed, after));
        }
        log.lines = Ghost(after);
        self.log = log;
        action
    }

    /// Ends the session, giving the tools denied in it, in order.
    pub fn into_denied_tools(self) -> (r: Vec<String>)
        ensures
            texts(r@) == spec_denied_tools(self.allowed(), self.history()),
    {
        proof {
            use_type_invariant(&self);
        }
        let ProxySession { filter: _, log } = self;
        log.denied_tools
    }
}

/// The server receives exactly the client lines that the filter does not
/// deny, unchanged and in order; no denied line ever reaches it.
pub proof fn lemma_server_gets_undenied_lines(allowed: Option<Set<Seq<char>>>, lines: Seq<Seq<char>>)
    ensures
        spec_to_server(allowed, lines) == lines.filter(|l: Seq<char>| !is_denied(allowed, l)),
    decreases lines.len(),
{
    reveal_with_fuel(Seq::filter, 1);
    if lines.len() > 0 {
        lemma_server_gets_undenied_lines(allowed, lines.drop_last());
        lemma_filter_keeps_or_denies(allowed, lines.last());
    }
}

/// What the proxy does with one client line.
#[derive(Debug)]
pub enum ProxyAction {
    /// Write this line to the server.
    ToServer(String),
    /// Write this line back to the client.
    ToClient(String),
}

/// The error response that denies `tool_name` to the request `id`, as a value.
pub fn denial_value(id: JsonValue, tool_name: &str) -> (r: JsonValue)
    ensures
        r.model() == denial_json(id.model(), tool_name@),
{
    let mut message = String::from_str("Tool '");
    message.append(tool_name);
    message.append("' is not allowed by exec permissions");
    let mut error: Vec<(String, JsonValue)> = Vec::new();
    error.push((String::from_str("code"), JsonValue::Number(json_number(-32600))));
    error.push((String::from_str("message"), JsonValue::Str(message)));
    assert(message@ == denial_message(tool_name@));
    assert(error@[0].1.model() == Json::Number(spec_json_number(-32600i64)));
    assert(error@[1].1.model() == Json::Str(denial_message(tool_name@)));
    let ghost error_model = JsonValue::Object(error).model();
    assert(error_model->Object_0 =~= seq![
        ("code"@, Json::Number(spec_json_number(-32600i64))),
        ("message"@, Json::Str(denial_message(tool_name@))),
    ]);
    let mut response: Vec<(String, JsonValue)> = Vec::new();
    response.push((String::from_str("jsonrpc"), JsonValue::Str(String::from_str("2.0"))));
    response.push((String::from_str("id"), id));
    response.push((String::from_str("error"), JsonValue::Object(error)));
    assert(response@[0].1.model() == Json::Str("2.0"@));
    assert(response@[1].1.model() == id.model());
    assert(response@[2].1.model() == error_model);
    let r = JsonValue::Object(response);
    assert(r.model()->Object_0 =~= denial_json(id.model(), tool_name@)->Object_0);
    r
}

/// Builds a JSON-RPC error response for a denied tool call.
pub fn build_denial_response(id: JsonValue, tool_name: &str) -> (r: String)
    ensures
        r@ == spec_json_text(denial_json(id.model(), tool_name@)),
{
    let v = denial_value(id, tool_name);
    json_text(&v)
}

/// With no restriction in force, every client line passes through unchanged.
pub proof fn lemma_unrestricted_passes_everything(line: Seq<char>)
    ensures
        spec_filter_message(None, line) == FilterOutcome::PassThrough(line),
{
}

/// Every line the filter lets through is sent on exactly as the client wrote
/// it; the only other answer is the denial of the tool that the line calls.
pub proof fn lemma_filter_keeps_or_denies(allowed: Option<Set<Seq<char>>>, line: Seq<char>)
    ensures
        match spec_filter_message(allowed, line) {
            FilterOutcome::Forward(m) => m == line,
            FilterOutcome::PassThrough(m) => m == line,
            FilterOutcome::Deny(e) => allowed is Some && (spec_parse_json(spec_trim(line)) matches Some(v)
                && e == spec_json_text(denial_json(json_index(v, "id"@), requested_tool(v)))
                && !allowed->0.contains(requested_tool(v))),
        },
{
}

/// Under a restriction, a `tools/call` request is forwarded exactly when the
/// tool it names is allowed, and is otherwise answered with the error
/// response that carries the request's id and names the tool.
pub proof fn lemma_tool_call_gate(names: Set<Seq<char>>, line: Seq<char>, v: Json)
    requires
        spec_parse_json(spec_trim(line)) == Some(v),
        json_get(v, "method"@) == Some(Json::Str("tools/call"@)),
    ensures
        names.contains(requested_tool(v)) ==> spec_filter_message(Some(names), line)
            == FilterOutcome::Forward(line),
        !names.contains(requested_tool(v)) ==> spec_filter_message(Some(names), line)
            == FilterOutcome::Deny(spec_json_text(denial_json(json_index(v, "id"@), requested_tool(v)))),
{
}

/// Requests other than `tools/call` are never denied: a message with any
/// other method is forwarded unchanged.
pub proof fn lemma_other_methods_forwarded(names: Set<Seq<char>>, line: Seq<char>, v: Json, method: Seq<char>)
    requires
        spec_parse_json(spec_trim(line)) == Some(v),
        json_get(v, "method"@) == Some(Json::Str(method)),
        method != "tools/call"@,
    ensures
        spec_filter_message(Some(names), line) == FilterOutcome::Forward(line),
{
}

/// Granting more tools never denies more: a line that a set of allowed
/// names lets through is let through by every larger set, and by no
/// restriction at all.
pub proof fn lemma_more_permissions_deny_less(small: Set<Seq<char>>, large: Set<Seq<char>>, line: Seq<char>)
    requires
        small.subset_of(large),
    ensures
        !(spec_filter_message(Some(small), line) is Deny) ==> !(spec_filter_message(Some(large), line) is Deny),
        !(spec_filter_message(None, line) is Deny),
{
}

/// Only a request whose `method` is the string `tools/call` can be denied,
/// and only when the tool it names is outside the allowed set.
pub proof fn lemma_only_tool_calls_denied(allowed: Option<Set<Seq<char>>>, parsed: Option<Json>)
    ensures
        spec_decide(allowed, parsed) is Deny ==> {
            &&& parsed is Some
            &&& json_get(parsed->0, "method"@) == Some(Json::Str("tools/call"@))
            &&& allowed is Some
            &&& !allowed->0.contains(requested_tool(parsed->0))
        },
{
}

/// A message with no `method` member (a reply, or a line the filter does
/// not read) is never denied: it passes through unchanged.
pub proof fn lemma_no_method_passes_through(names: Set<Seq<char>>, line: Seq<char>, v: Json)
    requires
        spec_parse_json(spec_trim(line)) == Some(v),
        json_get(v, "method"@) is None,
    ensures
        spec_filter_message(Some(names), line) == FilterOutcome::PassThrough(line),
{
}

/// A line that the filter denies is a `tools/call` request for a tool
/// outside the allowed set; every other line reaches the server.
pub proof fn lemma_denied_lines_are_refused_tool_calls(allowed: Option<Set<Seq<char>>>, line: Seq<char>)
    ensures
        is_denied(allowed, line) ==> (spec_parse_json(spec_trim(line)) matches Some(v) && json_get(
            v,
            "method"@,
        ) == Some(Json::Str("tools/call"@)) && allowed is Some && !allowed->0.contains(
            requested_tool(v),
        )),
{
    lemma_only_tool_calls_denied(allowed, spec_parse_json(spec_trim(line)));
}

/// The denial response is a JSON-RPC 2.0 error response to the request's
/// `id`, with error code -32600 and a message that names the tool.
pub proof fn lemma_denial_contents(id: Json, tool: Seq<char>)
    ensures
        json_get(denial_json(id, tool), "jsonrpc"@) == Some(Json::Str("2.0"@)),
        json_get(denial_json(id, tool), "id"@) == Some(id),
        json_get(json_index(denial_json(id, tool), "error"@), "code"@) == Some(
            Json::Number(spec_json_number(-32600i64)),
        ),
        nested_str(denial_json(id, tool), "error"@, "message"@) == Some(
            "Tool '"@ + tool + "' is not allowed by exec permissions"@,
        ),
{
    reveal_strlit("jsonrpc");
    reveal_strlit("id");
    reveal_strlit("error");
    reveal_strlit("code");
    reveal_strlit("message");
    assert("jsonrpc"@.len() == 7 && "id"@.len() == 2 && "error"@.len() == 5);
    assert("code"@.len() == 4 && "message"@.len() == 7);
    let d = denial_json(id, tool)->Object_0;
    assert(d[0].0 != "id"@ && d[0].0 != "error"@);
    assert(d[1].0 != "error"@);
    assert(d.drop_first()[0] == d[1]);
    assert(d.drop_first().drop_first()[0] == d[2]);
    assert(entry_lookup(d.drop_first(), "id"@) == Some(id));
    assert(entry_lookup(d.drop_first().drop_first(), "error"@) == Some(d[2].1));
    assert(entry_lookup(d.drop_first(), "error"@) == Some(d[2].1));
    let e = d[2].1->Object_0;
    assert(e[0].0 != "message"@);
    assert(e.drop_first()[0] == e[1]);
    assert(entry_lookup(e.drop_first(), "message"@) == Some(e[1].1));
    assert(entry_lookup(e, "message"@) == Some(e[1].1));
    assert(json_get(denial_json(id, tool), "error"@) == Some(d[2].1));
}

/// The tool a request names is its `params.name` when that is a string,
/// and the empty name otherwise.
pub proof fn lemma_requested_tool_is_params_name(v: Json)
    ensures
        json_str_opt(json_get_opt(json_get(v, "params"@), "name"@)) matches Some(t) ==> requested_tool(v) == t,
        json_str_opt(json_get_opt(json_get(v, "params"@), "name"@)) is None ==> requested_tool(v)
            == Seq::<char>::empty(),
{
}

/// The allowed set of a restricted filter holds exactly the declared
/// permission names, each of them.
pub proof fn lemma_permission_set_members(perms: Seq<String>, t: Seq<char>)
    ensures
        name_set(perms).contains(t) <==> exists|i: int| 0 <= i < perms.len() && perms[i]@ == t,
        forall|i: int| 0 <= i < perms.len() ==> name_set(perms).contains(#[trigger] perms[i]@),
{
    assert forall|i: int| 0 <= i < perms.len() implies name_set(perms).contains(#[trigger] perms[i]@) by {
        assert(perms[i]@ == perms[i]@);
    }
}

/// An empty permission list, or one that holds `*`, lifts every
/// restriction; any other list restricts the tools to its names.
pub proof fn lemma_wildcard_or_empty_unrestricts(perms: Seq<String>)
    ensures
        perms.len() == 0 ==> unrestricted(perms),
        (exists|i: int| 0 <= i < perms.len() && perms[i]@ == "*"@) ==> unrestricted(perms),
        perms.len() > 0 && (forall|i: int| 0 <= i < perms.len() ==> perms[i]@ != "*"@)
            ==> !unrestricted(perms),
{
}

} // verus!
