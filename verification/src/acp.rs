//! Protocol negotiation and the stream rules of an ACP connection.
//!
//! One `initialize` goes out that both protocol versions can answer; the
//! version in the response picks the stack. Afterwards the connection filters
//! the agent's echo of user prompts except while a resumed session replays
//! its transcript, and maps the agent's turn results into the words the UI
//! uses.
use vstd::prelude::*;
use crate::json::{Json, entries_lookup, str_member, str_member_of};
use crate::numfmt::{decimal, format_decimal};
use crate::text::{concat_str, str_eq, chars_of, starts_with, has_prefix};
use crate::staging::{BlockView, SessionListItem, StagedBlock, block_views};
use agent_client_protocol::v2::schema as v2;

verus! {

/// Which protocol the peer chose.
#[derive(Clone, Copy, Debug, PartialEq, Eq, Structural)]
pub enum Protocol {
    V1,
    V2,
}

impl Protocol {
    pub open spec fn tag_view(self) -> Seq<char> {
        match self {
            Protocol::V1 => "acp"@,
            Protocol::V2 => "acp2"@,
        }
    }

    pub open spec fn info_key_view(self) -> Seq<char> {
        match self {
            Protocol::V1 => "agentInfo"@,
            Protocol::V2 => "info"@,
        }
    }

    /// The harness-badge tag for the negotiated stack.
    pub fn tag(self) -> (r: &'static str)
        ensures
            r@ == self.tag_view(),
    {
        match self {
            Protocol::V1 => "acp",
            Protocol::V2 => "acp2",
        }
    }

    /// The key the agent's identity travels under in that version's response.
    pub fn info_key(self) -> (r: &'static str)
        ensures
            r@ == self.info_key_view(),
    {
        match self {
            Protocol::V1 => "agentInfo",
            Protocol::V2 => "info",
        }
    }
}

/// An error the connection reports, JSON-RPC style.
pub struct ProtocolError {
    pub code: i32,
    pub message: String,
}

/// The JSON-RPC code for invalid parameters.
pub const INVALID_PARAMS: i32 = -32602;

/// What the peer said it speaks, plus the raw `initialize` result.
pub struct Negotiated {
    pub protocol: Protocol,
    pub init: Json,
}

/// The agent's display name in an `initialize` result: `name` under the
/// version's identity key, else `acp`.
pub open spec fn agent_name_of(init: Json, protocol: Protocol) -> Seq<char> {
    match init.member(protocol.info_key_view()) {
        Some(info) => match info.member("name"@) {
            Some(n) => match n.str_view() {
                Some(s) => s,
                None => "acp"@,
            },
            None => "acp"@,
        },
        None => "acp"@,
    }
}

impl Negotiated {
    /// The agent's display name, from whichever shape carried it.
    pub fn agent_name(&self) -> (r: String)
        ensures
            r@ == agent_name_of(self.init, self.protocol),
    {
        let name = match self.init.get(self.protocol.info_key()) {
            Some(info) => match info.get("name") {
                Some(n) => n.as_str(),
                None => None,
            },
            None => None,
        };
        match name {
            Some(s) => s.to_owned(),
            None => "acp".to_owned(),
        }
    }

    /// A stable label for the negotiated connection: name plus badge tag.
    pub fn describe(&self) -> (r: String)
        ensures
            r@ == agent_name_of(self.init, self.protocol) + " "@ + self.protocol.tag_view(),
    {
        let name = self.agent_name();
        let spaced = concat_str(name.as_str(), " ");
        concat_str(spaced.as_str(), self.protocol.tag())
    }
}

/// The `protocolVersion` an `initialize` result carries, as an unsigned
/// integer.
pub open spec fn protocol_version(init: Json) -> Option<u64> {
    match init.member("protocolVersion"@) {
        Some(v) => v.u64_view(),
        None => None,
    }
}

/// The outcome of reading the version an `initialize` result names.
pub open spec fn classified(init: Json) -> Result<Protocol, (i32, Seq<char>)> {
    match protocol_version(init) {
        Some(v) => if v == 1 {
            Ok(Protocol::V1)
        } else if v == 2 {
            Ok(Protocol::V2)
        } else {
            Err(
                (
                    INVALID_PARAMS,
                    "agent negotiated protocolVersion "@ + decimal(v as nat)
                        + "; crow-term speaks 1 and 2"@,
                ),
            )
        },
        None => Err((INVALID_PARAMS, "agent answered initialize without a protocolVersion"@)),
    }
}

/// The stack an `initialize` result selects: version 1 or 2; any other
/// version, or none, is refused.
pub fn classify(init: Json) -> (r: Result<Negotiated, ProtocolError>)
    ensures
        match r {
            Ok(n) => n.init == init && classified(init) == Ok::<Protocol, (i32, Seq<char>)>(n.protocol),
            Err(e) => classified(init) == Err::<Protocol, (i32, Seq<char>)>((e.code, e.message@)),
        },
{
    let version = match init.get("protocolVersion") {
        Some(v) => v.as_u64(),
        None => None,
    };
    match version {
        Some(v) => if v == 1 {
            Ok(Negotiated { protocol: Protocol::V1, init })
        } else if v == 2 {
            Ok(Negotiated { protocol: Protocol::V2, init })
        } else {
            let digits = format_decimal(v);
            let head = concat_str("agent negotiated protocolVersion ", digits.as_str());
            let message = concat_str(head.as_str(), "; crow-term speaks 1 and 2");
            Err(ProtocolError { code: INVALID_PARAMS, message })
        },
        None => Err(
            ProtocolError {
                code: INVALID_PARAMS,
                message: "agent answered initialize without a protocolVersion".to_owned(),
            },
        ),
    }
}

/// Whether an update is the agent handing back a user prompt.
pub open spec fn user_echo(update: Json) -> bool {
    match update.member("sessionUpdate"@) {
        Some(kind) => kind.str_view() == Some("user_message"@) || kind.str_view() == Some(
            "user_message_chunk"@,
        ),
        None => false,
    }
}

/// Is this update the agent handing back a user prompt?
pub fn is_user_echo(update: &Json) -> (r: bool)
    ensures
        r == user_echo(*update),
{
    match update.get("sessionUpdate") {
        Some(kind) => match kind.as_str() {
            Some(s) => str_eq(s, "user_message") || str_eq(s, "user_message_chunk"),
            None => false,
        },
        None => false,
    }
}

/// Whether an update reaches the transcript while `window` holds the
/// sessions with a replay in flight.
pub open spec fn forwards_in(window: Set<Seq<char>>, update: Json, session: Seq<char>) -> bool {
    !user_echo(update) || window.contains(session)
}

/// The sessions with a `session/resume` replay in flight.
///
/// The UI echoes a prompt into the transcript the moment it sends one, so
/// the agent's own echo of it is dropped — except while a resumed session
/// replays its old transcript, where the agent's copy is the only one. The
/// window between sending `session/resume` and its response tells the two
/// apart.
pub struct ReplayWindow {
    sessions: Vec<String>,
}

impl View for ReplayWindow {
    type V = Set<Seq<char>>;

    closed spec fn view(&self) -> Set<Seq<char>> {
        Set::new(|s: Seq<char>| exists|i: int| 0 <= i < self.sessions@.len() && #[trigger] self.sessions@[i]@ == s)
    }
}

impl ReplayWindow {
    /// No replay in flight.
    pub fn new() -> (w: ReplayWindow)
        ensures
            w@ == Set::<Seq<char>>::empty(),
    {
        let w = ReplayWindow { sessions: Vec::new() };
        assert(w@ =~= Set::<Seq<char>>::empty());
        w
    }

    fn holds(&self, session: &str) -> (r: bool)
        ensures
            r == self@.contains(session@),
    {
        let mut i: usize = 0;
        while i < self.sessions.len()
            invariant
                i <= self.sessions.len(),
                forall|j: int| 0 <= j < i ==> #[trigger] self.sessions@[j]@ != session@,
            decreases self.sessions.len() - i,
        {
            if str_eq(self.sessions[i].as_str(), session) {
                assert(self@.contains(session@)) by {
                    assert(self.sessions@[i as int]@ == session@);
                }
                return true;
            }
            i = i + 1;
        }
        false
    }

    /// A `session/resume` for `session` went out: its replay begins.
    pub fn begin(&mut self, session: &str)
        ensures
            final(self)@ == old(self)@.insert(session@),
    {
        if !self.holds(session) {
            let ghost before = self.sessions@;
            self.sessions.push(session.to_owned());
            assert forall|s: Seq<char>| #[trigger] final_view_holds(self.sessions@, s) == old(self)@.insert(session@).contains(s) by {
                if s == session@ {
                    assert(self.sessions@[before.len() as int]@ == s);
                } else {
                    if final_view_holds(self.sessions@, s) {
                        let i = choose|i: int| 0 <= i < self.sessions@.len() && #[trigger] self.sessions@[i]@ == s;
                        assert(before[i]@ == s);
                    }
                    if old(self)@.contains(s) {
                        let i = choose|i: int| 0 <= i < before.len() && #[trigger] before[i]@ == s;
                        assert(self.sessions@[i]@ == s);
                    }
                }
            }
            assert(self@ =~= old(self)@.insert(session@)) by {
                assert forall|s: Seq<char>| self@.contains(s) == old(self)@.insert(session@).contains(s) by {
                    assert(final_view_holds(self.sessions@, s) == self@.contains(s));
                }
            }
        } else {
            assert(old(self)@.insert(session@) =~= old(self)@);
        }
    }

    /// The resume response arrived: the replay for `session` is over.
    pub fn end(&mut self, session: &str)
        ensures
            final(self)@ == old(self)@.remove(session@),
    {
        let mut kept: Vec<String> = Vec::new();
        let mut i: usize = 0;
        while i < self.sessions.len()
            invariant
                i <= self.sessions.len(),
                forall|s: Seq<char>| #[trigger] final_view_holds(kept@, s) <==> (s != session@ && final_view_holds(self.sessions@.take(i as int), s)),
            decreases self.sessions.len() - i,
        {
            let ghost before = kept@;
            let ghost prefix = self.sessions@.take(i as int);
            assert(self.sessions@.take(i + 1) =~= prefix.push(self.sessions@[i as int]));
            if !str_eq(self.sessions[i].as_str(), session) {
                kept.push(self.sessions[i].clone());
                assert forall|s: Seq<char>| #[trigger] final_view_holds(kept@, s) <==> (s != session@ && final_view_holds(self.sessions@.take(i + 1), s)) by {
                    lemma_holds_push(before, kept@[before.len() as int], s);
                    lemma_holds_push(prefix, self.sessions@[i as int], s);
                }
            } else {
                assert forall|s: Seq<char>| #[trigger] final_view_holds(kept@, s) <==> (s != session@ && final_view_holds(self.sessions@.take(i + 1), s)) by {
                    lemma_holds_push(prefix, self.sessions@[i as int], s);
                }
            }
            i = i + 1;
        }
        assert(self.sessions@.take(self.sessions.len() as int) =~= self.sessions@);
        let ghost old_view = self@;
        assert forall|s: Seq<char>| final_view_holds(self.sessions@, s) == old_view.contains(s) by {}
        self.sessions = kept;
        assert(self@ =~= old_view.remove(session@)) by {
            assert forall|s: Seq<char>| self@.contains(s) == old_view.remove(session@).contains(s) by {
                assert(final_view_holds(kept@, s) == self@.contains(s));
            }
        }
    }

    /// Should this update reach the transcript?
    pub fn forwards(&self, update: &Json, session: &str) -> (r: bool)
        ensures
            r == forwards_in(self@, *update, session@),
    {
        !is_user_echo(update) || self.holds(session)
    }
}

/// Whether some string in `v` has the characters `s`.
pub open spec fn final_view_holds(v: Seq<String>, s: Seq<char>) -> bool {
    exists|i: int| 0 <= i < v.len() && #[trigger] v[i]@ == s
}

proof fn lemma_holds_push(v: Seq<String>, x: String, s: Seq<char>)
    ensures
        final_view_holds(v.push(x), s) <==> (final_view_holds(v, s) || x@ == s),
{
    if final_view_holds(v.push(x), s) {
        let i = choose|i: int| 0 <= i < v.push(x).len() && #[trigger] v.push(x)[i]@ == s;
        if i < v.len() {
            assert(v[i]@ == s);
        }
    }
    if final_view_holds(v, s) {
        let i = choose|i: int| 0 <= i < v.len() && #[trigger] v[i]@ == s;
        assert(v.push(x)[i]@ == s);
    }
    if x@ == s {
        assert(v.push(x)[v.len() as int]@ == s);
    }
}

/// After a replay begins, every update of that session reaches the
/// transcript, the agent's echo of a user prompt included.
pub proof fn law_replay_forwards_everything(window: Set<Seq<char>>, session: Seq<char>, update: Json)
    ensures
        forwards_in(window.insert(session), update, session),
{
}

/// After a replay ends, the session's echoes of user prompts are dropped and
/// everything else still reaches the transcript.
pub proof fn law_replay_end_drops_echoes(window: Set<Seq<char>>, session: Seq<char>, update: Json)
    ensures
        forwards_in(window.remove(session), update, session) == !user_echo(update),
{
}

/// A replay that begins and ends leaves the window as it was, so the
/// session's echoes are dropped again while everything else still passes.
pub proof fn law_replay_begin_then_end_restores(window: Set<Seq<char>>, session: Seq<char>, update: Json)
    requires
        !window.contains(session),
    ensures
        window.insert(session).remove(session) == window,
        forwards_in(window.insert(session).remove(session), update, session) == !user_echo(update),
{
    assert(window.insert(session).remove(session) =~= window);
}

/// Beginning or ending one session's replay changes nothing for another
/// session.
pub proof fn law_replay_is_per_session(
    window: Set<Seq<char>>,
    session: Seq<char>,
    other: Seq<char>,
    update: Json,
)
    requires
        session != other,
    ensures
        forwards_in(window.insert(session), update, other) == forwards_in(window, update, other),
        forwards_in(window.remove(session), update, other) == forwards_in(window, update, other),
{
}

/// A JSON-RPC request id.
pub enum RpcId {
    Null,
    Number(i64),
    Str(String),
}

/// The id the negotiation probe is sent under.
pub open spec fn is_probe_id(id: RpcId) -> bool {
    id matches RpcId::Number(n) && n == 0
}

/// A message off the wire, as far as the probe reads it.
pub enum WireReply {
    /// A successful response.
    Result { id: RpcId, result: Json },
    /// A failed response.
    Error { id: RpcId, code: i32, message: String },
    /// A request, a notification, or anything else.
    Other,
}

/// The probe's answer in a message: its result, or the error the agent
/// answered with; nothing when the message answers something else.
pub fn answer_of(message: WireReply) -> (r: Option<Result<Json, ProtocolError>>)
    ensures
        match message {
            WireReply::Result { id, result } => if is_probe_id(id) {
                r == Some(Ok::<Json, ProtocolError>(result))
            } else {
                r is None
            },
            WireReply::Error { id, code, message } => if is_probe_id(id) {
                r matches Some(Err(e)) && e.code == code && e.message@ == "initialize: "@ + message@
            } else {
                r is None
            },
            WireReply::Other => r is None,
        },
{
    match message {
        WireReply::Result { id, result } => match id {
            RpcId::Number(n) => if n == 0 {
                Some(Ok(result))
            } else {
                None
            },
            _ => None,
        },
        WireReply::Error { id, code, message } => match id {
            RpcId::Number(n) => if n == 0 {
                let text = concat_str("initialize: ", message.as_str());
                Some(Err(ProtocolError { code, message: text }))
            } else {
                None
            },
            _ => None,
        },
        WireReply::Other => None,
    }
}

/// Index of the first entry that carries an answer.
pub open spec fn first_answer<A, S>(entries: Seq<(Option<A>, S)>) -> Option<int>
    decreases entries.len(),
{
    if entries.len() == 0 {
        None
    } else if entries[0].0 is Some {
        Some(0)
    } else {
        match first_answer(entries.drop_first()) {
            Some(k) => Some(k + 1),
            None => None,
        }
    }
}

proof fn lemma_first_answer<A, S>(entries: Seq<(Option<A>, S)>, k: int)
    requires
        0 <= k <= entries.len(),
        forall|j: int| 0 <= j < k ==> (#[trigger] entries[j]).0 is None,
    ensures
        k < entries.len() && entries[k].0 is Some ==> first_answer(entries) == Some(k),
        k == entries.len() ==> first_answer(entries) is None,
    decreases k,
{
    if k > 0 {
        assert forall|j: int| 0 <= j < k - 1 implies (#[trigger] entries.drop_first()[j]).0 is None by {
            assert(entries.drop_first()[j] == entries[j + 1]);
        }
        if k < entries.len() {
            assert(entries.drop_first()[k - 1] == entries[k]);
        }
        lemma_first_answer(entries.drop_first(), k - 1);
        assert(entries[0].0 is None);
    }
}

/// `v` in reverse order.
pub(crate) fn reversed<T>(v: Vec<T>) -> (r: Vec<T>)
    ensures
        r@ == v@.reverse(),
{
    let mut v = v;
    let ghost orig = v@;
    let mut r: Vec<T> = Vec::new();
    while v.len() > 0
        invariant
            orig == v@ + r@.reverse(),
        decreases v.len(),
    {
        let ghost before = v@;
        let x = v.pop().unwrap();
        assert(before == v@.push(x));
        assert(r@.push(x).reverse() =~= seq![x] + r@.reverse());
        assert(v@ + (seq![x] + r@.reverse()) =~= v@.push(x) + r@.reverse());
        r.push(x);
    }
    assert(orig =~= r@.reverse());
    assert(r@ =~= r@.reverse().reverse());
    r
}

/// Split a batch at the probe's answer: the first entry carrying one is
/// taken, every other entry stays, in order, to be replayed to the adopted
/// stack.
pub fn scan_batch<S>(entries: Vec<(Option<Result<Json, ProtocolError>>, S)>) -> (r: (
    Option<Result<Json, ProtocolError>>,
    Vec<S>,
))
    ensures
        match first_answer(entries@) {
            Some(k) => r.0 == entries@[k].0 && r.1@ == entries@.remove(k).map_values(
                |e: (Option<Result<Json, ProtocolError>>, S)| e.1,
            ),
            None => r.0 is None && r.1@ == entries@.map_values(
                |e: (Option<Result<Json, ProtocolError>>, S)| e.1,
            ),
        },
{
    let ghost all = entries@;
    let mut stack = reversed(entries);
    let mut rest: Vec<S> = Vec::new();
    let mut found: Option<Result<Json, ProtocolError>> = None;
    let ghost mut at: int = -1;
    let ghost mut i: int = 0;
    while stack.len() > 0
        invariant
            0 <= i <= all.len(),
            stack@ == all.skip(i).reverse(),
            found is None ==> (forall|j: int| 0 <= j < i ==> (#[trigger] all[j]).0 is None) && rest@
                == all.take(i).map_values(|e: (Option<Result<Json, ProtocolError>>, S)| e.1),
            found is Some ==> 0 <= at < i && first_answer(all) == Some(at) && found == all[at].0
                && rest@ == all.take(i).remove(at).map_values(
                |e: (Option<Result<Json, ProtocolError>>, S)| e.1,
            ),
        decreases stack.len(),
    {
        let ghost before = stack@;
        let (answer, item) = stack.pop().unwrap();
        proof {
            assert(all.skip(i).reverse().last() == all[i]);
            assert(stack@ =~= all.skip(i + 1).reverse());
        }
        let ghost prev_rest = rest@;
        assert(all.take(i + 1) =~= all.take(i).push(all[i]));
        if found.is_none() && answer.is_some() {
            proof {
                lemma_first_answer(all, i);
                at = i;
                assert(all.take(i + 1).remove(i) =~= all.take(i));
            }
            found = answer;
        } else {
            rest.push(item);
            proof {
                if found is Some {
                    assert(all.take(i + 1).remove(at) =~= all.take(i).remove(at).push(all[i]));
                } else {
                }
            }
        }
        proof {
            i = i + 1;
        }
    }
    proof {
        assert(all.skip(i).len() == 0);
        assert(all.take(i) =~= all);
        if found is None {
            lemma_first_answer(all, i);
        }
    }
    (found, rest)
}

/// A turn's stop reason as the agent reported it.
pub enum StopReason {
    EndTurn,
    MaxTokens,
    MaxTurnRequests,
    Refusal,
    Cancelled,
    /// A reason outside the fixed set, in the agent's own word.
    Other(String),
    /// A reason this client has no word for.
    Unrecognized,
}

/// Stop reasons in the words the UI already knows; the agent's own word for
/// any other reason, so it neither passes for success nor reads as unknown.
pub open spec fn stop_word(reason: StopReason) -> Seq<char> {
    match reason {
        StopReason::EndTurn => "completed"@,
        StopReason::MaxTokens => "max-tokens"@,
        StopReason::MaxTurnRequests => "max-turn-requests"@,
        StopReason::Refusal => "blocked"@,
        StopReason::Cancelled => "interrupted"@,
        StopReason::Other(word) => word@,
        StopReason::Unrecognized => "unknown"@,
    }
}

/// The UI's word for a stop reason.
pub fn stop_kind(reason: &StopReason) -> (r: String)
    ensures
        r@ == stop_word(*reason),
{
    match reason {
        StopReason::EndTurn => "completed".to_owned(),
        StopReason::MaxTokens => "max-tokens".to_owned(),
        StopReason::MaxTurnRequests => "max-turn-requests".to_owned(),
        StopReason::Refusal => "blocked".to_owned(),
        StopReason::Cancelled => "interrupted".to_owned(),
        StopReason::Other(word) => word.clone(),
        StopReason::Unrecognized => "unknown".to_owned(),
    }
}

/// Token usage of a completed turn, as the agent reports it.
pub struct Usage {
    pub input_tokens: u64,
    pub output_tokens: u64,
    pub thought_tokens: Option<u64>,
    pub cached_read_tokens: Option<u64>,
    pub cached_write_tokens: Option<u64>,
}

/// Token usage as the UI shows it.
pub struct TurnUsage {
    pub input: u64,
    pub output: u64,
    pub cached: u64,
    pub reasoning: u64,
}

/// An optional count, absent meaning zero.
pub open spec fn count_of(n: Option<u64>) -> nat {
    match n {
        Some(v) => v as nat,
        None => 0,
    }
}

/// The UI's usage line: cache reads and writes together.
pub fn turn_usage(usage: &Usage) -> (r: TurnUsage)
    requires
        count_of(usage.cached_read_tokens) + count_of(usage.cached_write_tokens) <= u64::MAX,
    ensures
        r.input == usage.input_tokens,
        r.output == usage.output_tokens,
        r.cached == count_of(usage.cached_read_tokens) + count_of(usage.cached_write_tokens),
        r.reasoning == count_of(usage.thought_tokens),
{
    let read = match usage.cached_read_tokens {
        Some(v) => v,
        None => 0,
    };
    let write = match usage.cached_write_tokens {
        Some(v) => v,
        None => 0,
    };
    let reasoning = match usage.thought_tokens {
        Some(v) => v,
        None => 0,
    };
    TurnUsage {
        input: usage.input_tokens,
        output: usage.output_tokens,
        cached: read + write,
        reasoning,
    }
}

/// A config value in the tagged shape the protocol requires: an object that
/// already says its `type` stays as it is, a flag becomes `boolean`, and any
/// other scalar becomes an `id`.
pub fn tagged_config_value(value: Json) -> (r: Json)
    ensures
        (value is Object && value.member("type"@) is Some) ==> r == value,
        !(value is Object && value.member("type"@) is Some) ==> (r.entries() matches Some(m) && m.len()
            == 2 && m[0].0@ == "type"@ && m[1].0@ == "value"@ && m[1].1 == value && m[0].1.str_view()
            == Some(if value is Bool { "boolean"@ } else { "id"@ })),
{
    let tagged = value.get("type").is_some();
    if tagged {
        return value;
    }
    let kind = match value {
        Json::Bool(_) => "boolean".to_owned(),
        _ => "id".to_owned(),
    };
    Json::Object(vec![("type".to_owned(), Json::Str(kind)), ("value".to_owned(), value)])
}

/// A session row as the UI lists it: id, title, last update.
pub open spec fn item_view(item: SessionListItem) -> (Seq<char>, Option<Seq<char>>, Option<Seq<char>>) {
    (
        item.id@,
        match item.title {
            Some(t) => Some(t@),
            None => None,
        },
        match item.updated_at {
            Some(t) => Some(t@),
            None => None,
        },
    )
}

/// The row a `session/list` entry makes, when it names its session.
pub open spec fn row_of(row: Json) -> Option<(Seq<char>, Option<Seq<char>>, Option<Seq<char>>)> {
    match str_member(row, "sessionId"@) {
        Some(id) => Some((id, str_member(row, "title"@), str_member(row, "updatedAt"@))),
        None => None,
    }
}

/// The rows of a `session/list` answer whose id starts with `prefix`, in
/// order.
pub open spec fn listed_rows(rows: Seq<Json>, prefix: Option<Seq<char>>) -> Seq<
    (Seq<char>, Option<Seq<char>>, Option<Seq<char>>),
>
    decreases rows.len(),
{
    if rows.len() == 0 {
        Seq::empty()
    } else {
        let rest = listed_rows(rows.drop_last(), prefix);
        match row_of(rows.last()) {
            Some(item) => if prefix is None || has_prefix(item.0, prefix->0) {
                rest.push(item)
            } else {
                rest
            },
            None => rest,
        }
    }
}

/// The entries of the `sessions` array of a `session/list` answer.
pub open spec fn session_entries(response: Json) -> Seq<Json> {
    match response.member("sessions"@) {
        Some(v) => match v.items() {
            Some(rows) => rows,
            None => Seq::empty(),
        },
        None => Seq::empty(),
    }
}

/// At most this many rows are listed (at least one).
pub open spec fn row_cap(limit: usize) -> int {
    if limit == 0 {
        1
    } else {
        limit as int
    }
}

fn optional_string(s: Option<&str>) -> (r: Option<String>)
    ensures
        match r {
            Some(t) => s matches Some(u) && t@ == u@,
            None => s is None,
        },
{
    match s {
        Some(u) => Some(u.to_owned()),
        None => None,
    }
}

/// `session/list`, filtered the way the UI asked: rows that name their
/// session, whose id starts with `prefix`, at most `limit` of them (and at
/// least room for one).
pub fn session_rows(response: &Json, prefix: Option<&str>, limit: usize) -> (r: Vec<SessionListItem>)
    ensures
        r@.map_values(|i: SessionListItem| item_view(i)) == listed_rows(
            session_entries(*response),
            match prefix {
                Some(p) => Some(p@),
                None => None,
            },
        ).take(
            if listed_rows(
                session_entries(*response),
                match prefix {
                    Some(p) => Some(p@),
                    None => None,
                },
            ).len() < row_cap(limit) {
                listed_rows(
                    session_entries(*response),
                    match prefix {
                        Some(p) => Some(p@),
                        None => None,
                    },
                ).len() as int
            } else {
                row_cap(limit)
            },
        ),
{
    let ghost pv: Option<Seq<char>> = match prefix {
        Some(p) => Some(p@),
        None => None,
    };
    let ghost all = listed_rows(session_entries(*response), pv);
    let cap: usize = if limit == 0 {
        1
    } else {
        limit
    };
    let mut out: Vec<SessionListItem> = Vec::new();
    let rows = match response.get("sessions") {
        Some(v) => match v.as_array() {
            Some(rows) => rows,
            None => {
                return out;
            },
        },
        None => {
            return out;
        },
    };
    let pchars: Option<Vec<char>> = match prefix {
        Some(p) => Some(chars_of(p)),
        None => None,
    };
    let mut i: usize = 0;
    while i < rows.len() && out.len() < cap
        invariant
            i <= rows.len(),
            rows@ == session_entries(*response),
            all == listed_rows(rows@, pv),
            cap == row_cap(limit),
            out.len() <= cap,
            match pchars {
                Some(c) => pv == Some(c@),
                None => pv is None,
            },
            out@.map_values(|it: SessionListItem| item_view(it)) == listed_rows(rows@.take(i as int), pv),
        decreases rows.len() - i,
    {
        let row = &rows[i];
        let ghost before = out@.map_values(|it: SessionListItem| item_view(it));
        assert(rows@.take(i + 1).drop_last() =~= rows@.take(i as int));
        assert(rows@.take(i + 1).last() == *row);
        if let Some(id) = str_member_of(row, "sessionId") {
            let keep = match &pchars {
                Some(c) => starts_with(&chars_of(id), c),
                None => true,
            };
            if keep {
                let item = SessionListItem {
                    id: id.to_owned(),
                    title: optional_string(str_member_of(row, "title")),
                    updated_at: optional_string(str_member_of(row, "updatedAt")),
                };
                out.push(item);
                assert(out@.map_values(|it: SessionListItem| item_view(it)) =~= before.push(
                    item_view(item),
                ));
            }
        }
        i = i + 1;
    }
    proof {
        lemma_listed_prefix(rows@, pv, i as int);
        if i == rows.len() {
            assert(rows@.take(i as int) =~= rows@);
        }
    }
    out
}

proof fn lemma_listed_prefix(rows: Seq<Json>, prefix: Option<Seq<char>>, i: int)
    requires
        0 <= i <= rows.len(),
    ensures
        listed_rows(rows.take(i), prefix).len() <= listed_rows(rows, prefix).len(),
        listed_rows(rows.take(i), prefix) == listed_rows(rows, prefix).take(
            listed_rows(rows.take(i), prefix).len() as int,
        ),
    decreases rows.len() - i,
{
    if i < rows.len() {
        lemma_listed_prefix(rows, prefix, i + 1);
        assert(rows.take(i + 1).drop_last() =~= rows.take(i));
        let a = listed_rows(rows.take(i), prefix);
        let b = listed_rows(rows.take(i + 1), prefix);
        let all = listed_rows(rows, prefix);
        assert(a =~= b.take(a.len() as int));
        assert(a =~= all.take(a.len() as int));
    } else {
        assert(rows.take(i) =~= rows);
        assert(listed_rows(rows, prefix).take(listed_rows(rows, prefix).len() as int) =~= listed_rows(
            rows,
            prefix,
        ));
    }
}

/// Add `entries` to `target` where its key is not `protocolVersion` and is
/// not taken yet (`entry(key).or_insert(value)` for each, in order).
pub open spec fn merged(target: Seq<(String, Json)>, entries: Seq<(String, Json)>) -> Seq<(String, Json)>
    decreases entries.len(),
{
    if entries.len() == 0 {
        target
    } else {
        let acc = merged(target, entries.drop_last());
        let (k, v) = entries.last();
        if k@ != "protocolVersion"@ && entries_lookup(acc, k@) is None {
            acc.push((k, v))
        } else {
            acc
        }
    }
}

/// The union `initialize` params: the version-2 request verbatim, plus the
/// version-1 request's identity and capabilities under the keys only
/// version 1 reads. `protocolVersion` stays the version-2 one, so a peer
/// that speaks 2 answers 2 and a peer that speaks only 1 answers 1.
pub fn union_initialize_params(v2: Json, v1: Json) -> (r: Json)
    ensures
        r.entries() == Some(
            merged(
                match v2 {
                    Json::Object(m) => m@,
                    _ => Seq::empty(),
                },
                match v1 {
                    Json::Object(m) => m@,
                    _ => Seq::empty(),
                },
            ),
        ),
{
    let mut params: Vec<(String, Json)> = match v2 {
        Json::Object(m) => m,
        _ => Vec::new(),
    };
    let extra: Vec<(String, Json)> = match v1 {
        Json::Object(m) => m,
        _ => Vec::new(),
    };
    let ghost target = params@;
    let ghost all = extra@;
    let mut stack = reversed(extra);
    let ghost mut i: int = 0;
    while stack.len() > 0
        invariant
            0 <= i <= all.len(),
            stack@ == all.skip(i).reverse(),
            params@ == merged(target, all.take(i)),
        decreases stack.len(),
    {
        let (key, value) = stack.pop().unwrap();
        proof {
            assert(all.skip(i).reverse().last() == all[i]);
            assert(stack@ =~= all.skip(i + 1).reverse());
            assert(all.take(i + 1).drop_last() =~= all.take(i));
            assert(all.take(i + 1).last() == all[i]);
        }
        if !str_eq(key.as_str(), "protocolVersion") && !has_key(&params, key.as_str()) {
            params.push((key, value));
        }
        proof {
            i = i + 1;
        }
    }
    proof {
        assert(all.take(i) =~= all);
    }
    Json::Object(params)
}

fn has_key(entries: &Vec<(String, Json)>, key: &str) -> (r: bool)
    ensures
        r == (entries_lookup(entries@, key@) is Some),
{
    let mut i: usize = 0;
    assert(entries@.skip(0) =~= entries@);
    while i < entries.len()
        invariant
            i <= entries.len(),
            entries_lookup(entries@, key@) == entries_lookup(entries@.skip(i as int), key@),
        decreases entries.len() - i,
    {
        proof {
            crate::json::lemma_lookup_step(entries@, i as int, key@);
        }
        if str_eq(entries[i].0.as_str(), key) {
            return true;
        }
        i = i + 1;
    }
    assert(entries@.skip(i as int) =~= Seq::<(String, Json)>::empty());
    false
}

/// Looking `key` up after appending one entry: an earlier entry that
/// carries the key still wins, else the new entry answers if it carries it.
pub proof fn lemma_lookup_push(entries: Seq<(String, Json)>, entry: (String, Json), key: Seq<char>)
    ensures
        entries_lookup(entries.push(entry), key) == (if entries_lookup(entries, key) is Some {
            entries_lookup(entries, key)
        } else if entry.0@ == key {
            Some(entry.1)
        } else {
            None
        }),
    decreases entries.len(),
{
    if entries.len() > 0 {
        assert(entries.push(entry).drop_first() =~= entries.drop_first().push(entry));
        assert(entries.push(entry)[0] == entries[0]);
        lemma_lookup_push(entries.drop_first(), entry, key);
    } else {
        assert(entries.push(entry).drop_first() =~= Seq::<(String, Json)>::empty());
        assert(entries.push(entry)[0] == entry);
        assert(entries_lookup(Seq::<(String, Json)>::empty(), key) is None);
    }
}

/// Merging keeps the target's entries in front, unchanged.
pub proof fn lemma_merged_keeps_target(target: Seq<(String, Json)>, entries: Seq<(String, Json)>)
    ensures
        merged(target, entries).len() >= target.len(),
        merged(target, entries).take(target.len() as int) == target,
    decreases entries.len(),
{
    if entries.len() > 0 {
        lemma_merged_keeps_target(target, entries.drop_last());
        let acc = merged(target, entries.drop_last());
        assert(acc.push(entries.last()).take(target.len() as int) =~= acc.take(target.len() as int));
    }
}

/// Merging never changes what the target says under `protocolVersion`:
/// the version the union asks for is the version-2 one.
pub proof fn law_union_keeps_protocol_version(target: Seq<(String, Json)>, entries: Seq<(String, Json)>)
    ensures
        entries_lookup(merged(target, entries), "protocolVersion"@) == entries_lookup(
            target,
            "protocolVersion"@,
        ),
    decreases entries.len(),
{
    if entries.len() > 0 {
        law_union_keeps_protocol_version(target, entries.drop_last());
        let acc = merged(target, entries.drop_last());
        lemma_lookup_push(acc, entries.last(), "protocolVersion"@);
    }
}

/// The entries of the version-2 `initialize` params for a client called
/// `name` at `version`: `protocolVersion` 2, `info` with `name` and
/// `version`, and `capabilities` claiming `auth` alone (an empty object), in
/// that order.
pub open spec fn v2_initialize_entries(m: Seq<(String, Json)>, name: Seq<char>, version: Seq<char>) -> bool {
    &&& m.len() == 3
    &&& m[0].0@ == "protocolVersion"@
    &&& m[0].1 matches Json::Number(n) && n.text@ == "2"@ && n.as_u64 == Some(2u64)
    &&& m[1].0@ == "info"@
    &&& m[1].1 matches Json::Object(info) && info@.len() == 2 && info@[0].0@ == "name"@
        && info@[0].1.str_view() == Some(name) && info@[1].0@ == "version"@
        && info@[1].1.str_view() == Some(version)
    &&& m[2].0@ == "capabilities"@
    &&& m[2].1 matches Json::Object(caps) && caps@.len() == 1 && caps@[0].0@ == "auth"@
        && (caps@[0].1 matches Json::Object(auth) && auth@.len() == 0)
}

/// `serde_json::to_value` of the version-2 `InitializeRequest` built with
/// protocol version 2, `Implementation::new(name, version)` and
/// `ClientCapabilities::new().auth(ClientAuthCapabilities::new())`, as the
/// library's `Json`. The claim: the request serialises (its fields are
/// integers, strings and structs, no map with other keys), and the document
/// holds exactly the members `v2_initialize_entries` lists, every field left
/// unset being skipped.
#[verifier::external_body]
fn v2_initialize_request(name: &str, version: &str) -> (r: Json)
    ensures
        r is Object,
        v2_initialize_entries(r.entries().unwrap(), name@, version@),
{
    let request = v2::InitializeRequest::new(
        agent_client_protocol::schema::ProtocolVersion::V2,
        v2::Implementation::new(name, version),
    ).capabilities(v2::ClientCapabilities::new().auth(v2::ClientAuthCapabilities::new()));
    crate::json::json_from_value(&serde_json::to_value(request).unwrap())
}

/// The params of the one `initialize` that goes out: the version-2 request
/// of a client called `name` at `version`, with the version-1 request `v1`
/// merged in under the keys only version 1 reads. `protocolVersion` is 2:
/// asking for 2 makes a peer that speaks 2 answer 2, and a peer that speaks
/// only 1 answers 1.
pub fn initialize_params(name: &str, version: &str, v1: Json) -> (r: Json)
    ensures
        r matches Json::Object(m) && v2_initialize_entries(m@.take(3), name@, version@) && m@ == merged(
            m@.take(3),
            match v1 {
                Json::Object(e) => e@,
                _ => Seq::empty(),
            },
        ),
        r.member("protocolVersion"@) matches Some(Json::Number(n)) && n.text@ == "2"@ && n.as_u64
            == Some(2u64),
{
    let v2 = v2_initialize_request(name, version);
    let ghost target = v2.entries().unwrap();
    let ghost extra = match v1.entries() {
        Some(e) => e,
        None => Seq::empty(),
    };
    let r = union_initialize_params(v2, v1);
    proof {
        lemma_merged_keeps_target(target, extra);
        law_union_keeps_protocol_version(target, extra);
        assert(target.len() == 3);
    }
    r
}

/// How one staged block travels in a prompt, by its position among the
/// staged blocks.
#[derive(Clone, Copy, Debug, PartialEq, Eq, Structural)]
pub enum PromptPart {
    /// A text block.
    Text(usize),
    /// An image sent inline (the agent takes prompt images).
    Image(usize),
    /// An image sent as a link to its file.
    Link(usize),
}

/// The parts of a prompt made of blocks `b`: empty text is left out, images
/// go inline when the agent takes prompt images and as file links otherwise.
pub open spec fn prompt_parts_of(b: Seq<BlockView>, inline_images: bool) -> Seq<PromptPart>
    decreases b.len(),
{
    if b.len() == 0 {
        Seq::empty()
    } else {
        let rest = prompt_parts_of(b.drop_last(), inline_images);
        let i = (b.len() - 1) as usize;
        match b.last() {
            BlockView::Text(t) => if t.len() == 0 { rest } else { rest.push(PromptPart::Text(i)) },
            BlockView::Image(_) => rest.push(if inline_images { PromptPart::Image(i) } else { PromptPart::Link(i) }),
        }
    }
}

/// How the staged blocks travel in a prompt.
pub fn prompt_parts(blocks: &Vec<StagedBlock>, inline_images: bool) -> (r: Vec<PromptPart>)
    ensures
        r@ == prompt_parts_of(block_views(blocks@), inline_images),
{
    let ghost bv = block_views(blocks@);
    let mut out: Vec<PromptPart> = Vec::new();
    let mut i: usize = 0;
    while i < blocks.len()
        invariant
            i <= blocks.len(),
            bv == block_views(blocks@),
            out@ == prompt_parts_of(bv.take(i as int), inline_images),
        decreases blocks.len() - i,
    {
        assert(bv.take(i + 1).drop_last() =~= bv.take(i as int));
        assert(bv.take(i + 1).last() == blocks@[i as int]@);
        match &blocks[i] {
            StagedBlock::Text(t) => {
                if crate::text::char_len(t.as_str()) > 0 {
                    out.push(PromptPart::Text(i));
                }
            },
            StagedBlock::Image(_) => {
                out.push(if inline_images { PromptPart::Image(i) } else { PromptPart::Link(i) });
            },
        }
        i = i + 1;
    }
    assert(bv.take(blocks.len() as int) =~= bv);
    out
}

} // verus!
