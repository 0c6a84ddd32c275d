//! Remote control in the manner of JSON-RPC 2.0. The caller parses a line and
//! writes the reply; what a request does and what it is answered is decided here.

use crate::config::DynamicConfig;
use crate::mode::SchedulingMode;
use crate::text::{blank, characters, is_blank, joined, same_text};
use vstd::prelude::*;
use vstd::string::StringExecFns;

verus! {

/// The line is no request.
pub const PARSE_ERROR: i32 = -32700;

/// The request is of another version.
pub const INVALID_REQUEST: i32 = -32600;

/// There is no such method.
pub const METHOD_NOT_FOUND: i32 = -32601;

/// A parameter is missing or of the wrong kind.
pub const INVALID_PARAMS: i32 = -32602;

/// The request could not be served.
pub const INTERNAL_ERROR: i32 = -32603;

/// The parameters that methods read, each where the request has it in the right
/// kind.
pub struct Params {
    pub mode: Option<String>,
    pub enabled: Option<bool>,
    pub delta_ms: Option<u64>,
    pub count: Option<u64>,
}

/// A request. One without an id is a notification and gets no reply.
pub struct Request {
    pub jsonrpc: String,
    pub method: String,
    pub params: Params,
    pub has_id: bool,
}

/// What is wrong with a request.
pub struct ErrorObject {
    pub code: i32,
    pub message: String,
    pub data: Option<String>,
}

impl ErrorObject {
    /// An error without further data.
    pub fn new(code: i32, message: String) -> (e: Self)
        ensures
            e.code == code,
            e.message@ == message@,
            e.data is None,
    {
        ErrorObject { code, message, data: None }
    }

    /// Whether the error is the given one, without further data.
    pub open spec fn says(&self, code: i32, message: Seq<char>) -> bool {
        self.code == code && self.message@ == message && self.data is None
    }
}

/// The answer to a request that was served.
pub enum Reply {
    /// The mode's name.
    Mode(String),
    Enabled(bool),
    DeltaMs(u32),
    Status {
        mode: String,
        quality_enabled: bool,
        exploration_enabled: bool,
        rtt_delta_ms: u32,
        critical_hints_total: u64,
        critical_hint_remaining: u32,
    },
    /// The latest figures of all links.
    Stats,
    /// Packets that are still to be treated as critical.
    Remaining(u32),
}

/// A reply that is to be sent.
pub struct Response {
    /// Whether the reply carries the request's id; it carries none where the line
    /// was no request.
    pub with_id: bool,
    pub outcome: Result<Reply, ErrorObject>,
}

/// A mode that can be asked for.
#[derive(Clone, Copy, Debug, PartialEq, Eq, Structural)]
pub enum RequestedMode {
    Scheduling(SchedulingMode),
    /// By predicted arrival.
    Edpf,
}

impl RequestedMode {
    /// The mode's name.
    pub open spec fn name(self) -> Seq<char> {
        match self {
            RequestedMode::Scheduling(mode) => mode.name(),
            RequestedMode::Edpf => "edpf"@,
        }
    }

    /// The mode's name.
    pub fn to_text(self) -> (s: String)
        ensures
            s@ == self.name(),
    {
        match self {
            RequestedMode::Scheduling(mode) => mode.to_text(),
            RequestedMode::Edpf => "edpf".to_owned(),
        }
    }
}

/// The mode of a name.
pub fn parse_mode(s: &str) -> (r: Result<RequestedMode, ErrorObject>)
    ensures
        match r {
            Ok(mode) => mode.name() == s@,
            Err(e) => {
                &&& forall|mode: RequestedMode| #[trigger] mode.name() != s@
                &&& e.says(
                    INVALID_PARAMS,
                    "unknown mode '"@ + s@ + "': use classic, enhanced, rtt-threshold, or edpf"@,
                )
            },
        },
{
    match SchedulingMode::from_text(s) {
        Ok(mode) => Ok(RequestedMode::Scheduling(mode)),
        Err(_) => {
            if same_text(s, "edpf") {
                Ok(RequestedMode::Edpf)
            } else {
                let mut message: String = joined("unknown mode '", s);
                message.append("': use classic, enhanced, rtt-threshold, or edpf");
                proof {
                    assert forall|mode: RequestedMode| #[trigger] mode.name() != s@ by {
                        match mode {
                            RequestedMode::Scheduling(m) => {
                                assert(m.name() != s@);
                            },
                            RequestedMode::Edpf => {},
                        }
                    }
                }
                Err(ErrorObject::new(INVALID_PARAMS, message))
            }
        },
    }
}

/// The name of the mode in force.
pub open spec fn mode_in_force(config: DynamicConfig) -> Seq<char> {
    if config.edpf {
        "edpf"@
    } else {
        config.current.mode.name()
    }
}

/// The settings after a mode was asked for.
pub open spec fn with_mode(config: DynamicConfig, mode: RequestedMode) -> DynamicConfig {
    match mode {
        RequestedMode::Scheduling(m) => DynamicConfig {
            current: crate::config::ConfigSnapshot { mode: m, ..config.current },
            edpf: false,
            ..config
        },
        RequestedMode::Edpf => DynamicConfig { edpf: true, ..config },
    }
}

/// The settings after a hint about `count` critical packets.
pub open spec fn with_hint(config: DynamicConfig, count: u32) -> DynamicConfig {
    DynamicConfig {
        critical_hint_remaining: if config.critical_hint_remaining + count <= u32::MAX {
            (config.critical_hint_remaining + count) as u32
        } else {
            u32::MAX
        },
        critical_hints_total: if config.critical_hints_total < u64::MAX {
            (config.critical_hints_total + 1) as u64
        } else {
            u64::MAX
        },
        ..config
    }
}

/// Whether a parameter is a number that fits its type.
pub open spec fn fits(value: Option<u64>) -> bool {
    value is Some && value->0 <= u32::MAX
}

/// Whether serving a method takes the settings from `before` to `after`, with the
/// given outcome.
pub open spec fn serves(
    before: DynamicConfig,
    after: DynamicConfig,
    has_stats: bool,
    method: Seq<char>,
    params: Params,
    outcome: Result<Reply, ErrorObject>,
) -> bool {
    if method == "set_mode"@ {
        match outcome {
            Ok(reply) => params.mode is Some && exists|mode: RequestedMode| #[trigger]
                mode.name() == params.mode->0@ && after == with_mode(before, mode)
                    && reply is Mode && reply->Mode_0@ == mode.name(),
            Err(e) => {
                &&& after == before
                &&& match params.mode {
                    None => e.says(INVALID_PARAMS, "expected params.mode: string"@),
                    Some(name) => {
                        &&& forall|mode: RequestedMode| #[trigger] mode.name() != name@
                        &&& e.says(
                            INVALID_PARAMS,
                            "unknown mode '"@ + name@
                                + "': use classic, enhanced, rtt-threshold, or edpf"@,
                        )
                    },
                }
            },
        }
    } else if method == "set_quality"@ {
        match outcome {
            Ok(reply) => {
                &&& params.enabled is Some
                &&& reply == Reply::Enabled(params.enabled->0)
                &&& after == (DynamicConfig {
                    current: crate::config::ConfigSnapshot {
                        quality_enabled: params.enabled->0,
                        ..before.current
                    },
                    ..before
                })
            },
            Err(e) => {
                &&& params.enabled is None
                &&& after == before
                &&& e.says(INVALID_PARAMS, "expected params.enabled: bool"@)
            },
        }
    } else if method == "set_exploration"@ {
        match outcome {
            Ok(reply) => {
                &&& params.enabled is Some
                &&& reply == Reply::Enabled(params.enabled->0)
                &&& after == (DynamicConfig {
                    current: crate::config::ConfigSnapshot {
                        exploration_enabled: params.enabled->0,
                        ..before.current
                    },
                    ..before
                })
            },
            Err(e) => {
                &&& params.enabled is None
                &&& after == before
                &&& e.says(INVALID_PARAMS, "expected params.enabled: bool"@)
            },
        }
    } else if method == "set_rtt_delta"@ {
        match outcome {
            Ok(reply) => {
                &&& fits(params.delta_ms)
                &&& reply == Reply::DeltaMs(params.delta_ms->0 as u32)
                &&& after == (DynamicConfig {
                    current: crate::config::ConfigSnapshot {
                        rtt_delta_ms: params.delta_ms->0 as u32,
                        ..before.current
                    },
                    ..before
                })
            },
            Err(e) => {
                &&& !fits(params.delta_ms)
                &&& after == before
                &&& e.says(INVALID_PARAMS, "expected params.delta_ms: u32"@)
            },
        }
    } else if method == "get_status"@ {
        &&& after == before
        &&& outcome matches Ok(Reply::Status {
            mode,
            quality_enabled,
            exploration_enabled,
            rtt_delta_ms,
            critical_hints_total,
            critical_hint_remaining,
        })
        &&& mode@ == mode_in_force(before)
        &&& quality_enabled == before.current.quality_enabled
        &&& exploration_enabled == before.current.exploration_enabled
        &&& rtt_delta_ms == before.current.rtt_delta_ms
        &&& critical_hints_total == before.critical_hints_total
        &&& critical_hint_remaining == before.critical_hint_remaining
    } else if method == "get_stats"@ {
        &&& after == before
        &&& match outcome {
            Ok(reply) => has_stats && reply is Stats,
            Err(e) => !has_stats && e.says(INTERNAL_ERROR, "stats provider not registered"@),
        }
    } else if method == "mark_critical"@ {
        match outcome {
            Ok(reply) => {
                &&& fits(params.count)
                &&& after == with_hint(before, params.count->0 as u32)
                &&& reply == Reply::Remaining(after.critical_hint_remaining)
            },
            Err(e) => {
                &&& !fits(params.count)
                &&& after == before
                &&& e.says(INVALID_PARAMS, "expected params.count: u32"@)
            },
        }
    } else {
        &&& after == before
        &&& outcome matches Err(e)
        &&& e.says(
            METHOD_NOT_FOUND,
            if method == "subscribe"@ || method == "unsubscribe"@ {
                method + " is reserved for a future streaming protocol, not yet implemented"@
            } else {
                "unknown method: "@ + method
            },
        )
    }
}

fn wrong_params(message: &str) -> (e: ErrorObject)
    ensures
        e.says(INVALID_PARAMS, message@),
{
    ErrorObject::new(INVALID_PARAMS, message.to_owned())
}

/// Serves a method: changes the settings as it asks, and answers.
pub fn handle_method(
    config: &mut DynamicConfig,
    has_stats: bool,
    method: &str,
    params: &Params,
) -> (outcome: Result<Reply, ErrorObject>)
    ensures
        serves(*old(config), *final(config), has_stats, method@, *params, outcome),
{
    if same_text(method, "set_mode") {
        match &params.mode {
            None => Err(wrong_params("expected params.mode: string")),
            Some(name) => match parse_mode(name.as_str()) {
                Ok(mode) => {
                    match mode {
                        RequestedMode::Scheduling(m) => config.set_mode(m),
                        RequestedMode::Edpf => config.set_edpf(),
                    }
                    assert(mode.name() == params.mode->0@);
                    Ok(Reply::Mode(mode.to_text()))
                },
                Err(e) => Err(e),
            },
        }
    } else if same_text(method, "set_quality") {
        match params.enabled {
            None => Err(wrong_params("expected params.enabled: bool")),
            Some(enabled) => {
                config.set_quality_enabled(enabled);
                Ok(Reply::Enabled(enabled))
            },
        }
    } else if same_text(method, "set_exploration") {
        match params.enabled {
            None => Err(wrong_params("expected params.enabled: bool")),
            Some(enabled) => {
                config.set_exploration_enabled(enabled);
                Ok(Reply::Enabled(enabled))
            },
        }
    } else if same_text(method, "set_rtt_delta") {
        match params.delta_ms {
            Some(n) => if n <= u32::MAX as u64 {
                config.set_rtt_delta_ms(n as u32);
                Ok(Reply::DeltaMs(n as u32))
            } else {
                Err(wrong_params("expected params.delta_ms: u32"))
            },
            None => Err(wrong_params("expected params.delta_ms: u32")),
        }
    } else if same_text(method, "get_status") {
        let snap = config.snapshot();
        let mode: String = if config.edpf {
            "edpf".to_owned()
        } else {
            snap.mode.to_text()
        };
        Ok(
            Reply::Status {
                mode,
                quality_enabled: snap.quality_enabled,
                exploration_enabled: snap.exploration_enabled,
                rtt_delta_ms: snap.rtt_delta_ms,
                critical_hints_total: config.critical_hints_total(),
                critical_hint_remaining: config.critical_hint_remaining(),
            },
        )
    } else if same_text(method, "get_stats") {
        if has_stats {
            Ok(Reply::Stats)
        } else {
            Err(ErrorObject::new(INTERNAL_ERROR, "stats provider not registered".to_owned()))
        }
    } else if same_text(method, "mark_critical") {
        match params.count {
            Some(n) => if n <= u32::MAX as u64 {
                config.add_critical_hint(n as u32);
                Ok(Reply::Remaining(config.critical_hint_remaining()))
            } else {
                Err(wrong_params("expected params.count: u32"))
            },
            None => Err(wrong_params("expected params.count: u32")),
        }
    } else if same_text(method, "subscribe") || same_text(method, "unsubscribe") {
        Err(
            ErrorObject::new(
                METHOD_NOT_FOUND,
                joined(
                    method,
                    " is reserved for a future streaming protocol, not yet implemented",
                ),
            ),
        )
    } else {
        Err(ErrorObject::new(METHOD_NOT_FOUND, joined("unknown method: ", method)))
    }
}

/// Whether a line holds more than white space.
pub open spec fn says_something(line: Seq<char>) -> bool {
    exists|i: int| 0 <= i < line.len() && !blank(#[trigger] line[i])
}

/// Whether a line can be owed a reply: a blank one never is.
pub fn wants_reply(line: &str) -> (r: bool)
    ensures
        r == says_something(line@),
{
    let chars: Vec<char> = characters(line);
    let mut i: usize = 0;
    while i < chars.len()
        invariant
            i <= chars@.len(),
            chars@ == line@,
            forall|j: int| 0 <= j < i ==> blank(#[trigger] line@[j]),
        decreases chars@.len() - i,
    {
        if !is_blank(chars[i]) {
            assert(!blank(line@[i as int]));
            return true;
        }
        i += 1;
    }
    false
}

/// Whether `response` is the reply to what a line was parsed to, and `after` the
/// settings that it leaves.
pub open spec fn answers(
    before: DynamicConfig,
    after: DynamicConfig,
    has_stats: bool,
    parsed: Result<Request, String>,
    response: Option<Response>,
) -> bool {
    match parsed {
        Err(reason) => {
            &&& after == before
            &&& response is Some
            &&& !response->0.with_id
            &&& response->0.outcome matches Err(e)
            &&& e.code == PARSE_ERROR
            &&& e.message@ == "parse error"@
            &&& e.data is Some
            &&& e.data->0@ == reason@
        },
        Ok(req) => if req.jsonrpc@ == "2.0"@ {
            &&& exists|outcome: Result<Reply, ErrorObject>| #[trigger]
                serves(
                    before,
                    after,
                    has_stats,
                    req.method@,
                    req.params,
                    outcome,
                ) && (response is Some ==> response->0.outcome == outcome)
            &&& response is Some <==> req.has_id
            &&& response is Some ==> response->0.with_id
        } else {
            &&& after == before
            &&& response is Some <==> req.has_id
            &&& response is Some ==> {
                &&& response->0.with_id
                &&& response->0.outcome matches Err(e)
                &&& e.says(INVALID_REQUEST, "jsonrpc version must be \"2.0\""@)
            }
        },
    }
}

/// Takes in what a line was parsed to: a request, or what was wrong with it. The
/// reply that is owed, if any: a line that is no request is always answered, a
/// notification never.
pub fn dispatch(
    config: &mut DynamicConfig,
    has_stats: bool,
    parsed: Result<Request, String>,
) -> (response: Option<Response>)
    ensures
        answers(*old(config), *final(config), has_stats, parsed, response),
{
    let req = match parsed {
        Ok(req) => req,
        Err(reason) => {
            return Some(
                Response {
                    with_id: false,
                    outcome: Err(
                        ErrorObject {
                            code: PARSE_ERROR,
                            message: "parse error".to_owned(),
                            data: Some(reason),
                        },
                    ),
                },
            );
        },
    };
    if !same_text(req.jsonrpc.as_str(), "2.0") {
        if !req.has_id {
            return None;
        }
        return Some(
            Response {
                with_id: true,
                outcome: Err(
                    ErrorObject::new(
                        INVALID_REQUEST,
                        "jsonrpc version must be \"2.0\"".to_owned(),
                    ),
                ),
            },
        );
    }
    let outcome = handle_method(config, has_stats, req.method.as_str(), &req.params);
    if req.has_id {
        Some(Response { with_id: true, outcome })
    } else {
        None
    }
}

/// Takes in a line with what it was parsed to. A blank line is ignored; any other is
/// answered as `dispatch` does.
pub fn dispatch_line(
    config: &mut DynamicConfig,
    has_stats: bool,
    line: &str,
    parsed: Result<Request, String>,
) -> (response: Option<Response>)
    ensures
        says_something(line@) ==> answers(
            *old(config),
            *final(config),
            has_stats,
            parsed,
            response,
        ),
        !says_something(line@) ==> response is None && *final(config) == *old(config),
{
    if !wants_reply(line) {
        return None;
    }
    dispatch(config, has_stats, parsed)
}

/// A request that is refused changes nothing.
pub proof fn refused_request_changes_nothing(
    before: DynamicConfig,
    after: DynamicConfig,
    has_stats: bool,
    method: Seq<char>,
    params: Params,
    e: ErrorObject,
)
    requires
        serves(before, after, has_stats, method, params, Err(e)),
    ensures
        after == before,
{
}

/// No two modes that can be asked for share a name.
pub proof fn requested_modes_are_told_apart(a: RequestedMode, b: RequestedMode)
    requires
        a.name() == b.name(),
    ensures
        a == b,
{
    reveal_strlit("classic");
    reveal_strlit("enhanced");
    reveal_strlit("rtt-threshold");
    reveal_strlit("edpf");
    assert("classic"@.len() == 7 && "enhanced"@.len() == 8 && "rtt-threshold"@.len() == 13
        && "edpf"@.len() == 4);
}

proof fn method_names_differ()
    ensures
        "set_mode"@.len() == 8,
        "set_quality"@.len() == 11 && "set_quality"@[0] == 's',
        "set_exploration"@.len() == 15,
        "set_rtt_delta"@.len() == 13 && "set_rtt_delta"@[0] == 's',
        "get_status"@.len() == 10,
        "get_stats"@.len() == 9,
        "mark_critical"@.len() == 13 && "mark_critical"@[0] == 'm',
{
    reveal_strlit("set_mode");
    reveal_strlit("set_quality");
    reveal_strlit("set_exploration");
    reveal_strlit("set_rtt_delta");
    reveal_strlit("get_status");
    reveal_strlit("get_stats");
    reveal_strlit("mark_critical");
}

/// Which requests are served: a change of mode where the name is that of a mode, a switch
/// where it is given, a number where it is given and fits in 32 bits, the status always,
/// and the figures where there are any. Requests of other names never are.
pub proof fn requests_are_served_where_they_fit(
    before: DynamicConfig,
    after: DynamicConfig,
    has_stats: bool,
    method: Seq<char>,
    params: Params,
    outcome: Result<Reply, ErrorObject>,
)
    requires
        serves(before, after, has_stats, method, params, outcome),
    ensures
        method == "set_mode"@ && params.mode is Some ==> (outcome is Ok <==> params.mode->0@
            == "classic"@ || params.mode->0@ == "enhanced"@ || params.mode->0@ == "rtt-threshold"@
            || params.mode->0@ == "edpf"@),
        method == "set_mode"@ && params.mode is None ==> outcome is Err,
        method == "set_quality"@ || method == "set_exploration"@ ==> (outcome is Ok
            <==> params.enabled is Some),
        method == "set_rtt_delta"@ ==> (outcome is Ok <==> (params.delta_ms matches Some(n) && n
            < 0x1_0000_0000)),
        method == "mark_critical"@ ==> (outcome is Ok <==> (params.count matches Some(n) && n
            < 0x1_0000_0000)),
        method == "get_status"@ ==> outcome is Ok,
        method == "get_stats"@ ==> (outcome is Ok <==> has_stats),
        method != "set_mode"@ && method != "set_quality"@ && method != "set_exploration"@ && method
            != "set_rtt_delta"@ && method != "get_status"@ && method != "get_stats"@ && method
            != "mark_critical"@ ==> outcome is Err && outcome->Err_0.code == -32601,
        outcome is Err && (method == "set_mode"@ || method == "set_quality"@ || method
            == "set_exploration"@ || method == "set_rtt_delta"@ || method == "mark_critical"@)
            ==> outcome->Err_0.code == -32602,
{
    method_names_differ();
    assert(RequestedMode::Edpf.name() == "edpf"@);
    assert(RequestedMode::Scheduling(SchedulingMode::Classic).name() == "classic"@);
    assert(RequestedMode::Scheduling(SchedulingMode::Enhanced).name() == "enhanced"@);
    assert(RequestedMode::Scheduling(SchedulingMode::RttThreshold).name() == "rtt-threshold"@);
}

/// The status shows what was set: after a change that was served, it gives the value that
/// the request gave, and for every other setting what it would have given before.
pub proof fn status_shows_what_was_set(
    before: DynamicConfig,
    mid: DynamicConfig,
    after: DynamicConfig,
    has_stats: bool,
    method: Seq<char>,
    params: Params,
    reply: Reply,
    asked: Params,
    status: Result<Reply, ErrorObject>,
)
    requires
        serves(before, mid, has_stats, method, params, Ok(reply)),
        serves(mid, after, has_stats, "get_status"@, asked, status),
    ensures
        after == mid,
        status matches Ok(Reply::Status {
            mode,
            quality_enabled,
            exploration_enabled,
            rtt_delta_ms,
            critical_hints_total,
            critical_hint_remaining,
        }) && {
            &&& method == "set_mode"@ ==> mode@ == params.mode->0@
            &&& method != "set_mode"@ ==> mode@ == mode_in_force(before)
            &&& method == "set_quality"@ ==> quality_enabled == params.enabled->0
            &&& method != "set_quality"@ ==> quality_enabled == before.current.quality_enabled
            &&& method == "set_exploration"@ ==> exploration_enabled == params.enabled->0
            &&& method != "set_exploration"@ ==> exploration_enabled
                == before.current.exploration_enabled
            &&& method == "set_rtt_delta"@ ==> rtt_delta_ms == params.delta_ms->0
            &&& method != "set_rtt_delta"@ ==> rtt_delta_ms == before.current.rtt_delta_ms
            &&& method == "mark_critical"@ && before.critical_hint_remaining + params.count->0
                <= u32::MAX ==> critical_hint_remaining == before.critical_hint_remaining
                + params.count->0
            &&& method == "mark_critical"@ && before.critical_hints_total < u64::MAX
                ==> critical_hints_total == before.critical_hints_total + 1
            &&& method != "mark_critical"@ ==> critical_hint_remaining
                == before.critical_hint_remaining && critical_hints_total
                == before.critical_hints_total
        },
        mid.current.stall_deselect == before.current.stall_deselect,
        mid.current.stall_min_in_flight == before.current.stall_min_in_flight,
        mid.current.stall_ack_stale_ms == before.current.stall_ack_stale_ms,
        method != "set_mode"@ ==> mid.edpf == before.edpf && mid.current.mode
            == before.current.mode,
{
    method_names_differ();
}

/// A request is answered exactly where it has an id, with that id; a notification changes
/// the settings just as the same request with an id would. A line that is no request is
/// answered without an id, and neither that nor a request of another version changes
/// anything.
pub proof fn notifications_take_effect_in_silence(
    before: DynamicConfig,
    after: DynamicConfig,
    silent: DynamicConfig,
    has_stats: bool,
    request: Request,
    notification: Request,
    reason: String,
    first: Option<Response>,
    second: Option<Response>,
    unparsed: Option<Response>,
)
    requires
        answers(before, after, has_stats, Ok(request), first),
        answers(before, silent, has_stats, Ok(notification), second),
        answers(before, before, has_stats, Err(reason), unparsed),
        request.has_id,
        notification == (Request { has_id: false, ..request }),
    ensures
        first is Some && first->0.with_id,
        second is None,
        after == silent,
        request.jsonrpc@ != "2.0"@ ==> after == before && first->0.outcome is Err
            && first->0.outcome->Err_0.code == -32600,
        unparsed is Some && !unparsed->0.with_id && unparsed->0.outcome is Err
            && unparsed->0.outcome->Err_0.code == -32700,
{
    method_names_differ();
    if request.jsonrpc@ == "2.0"@ {
        let one = choose|outcome: Result<Reply, ErrorObject>| #[trigger]
            serves(
                before,
                after,
                has_stats,
                request.method@,
                request.params,
                outcome,
            ) && (first is Some ==> first->0.outcome == outcome);
        let two = choose|outcome: Result<Reply, ErrorObject>| #[trigger]
            serves(
                before,
                silent,
                has_stats,
                notification.method@,
                notification.params,
                outcome,
            ) && (second is Some ==> second->0.outcome == outcome);
        assert(serves(before, after, has_stats, request.method@, request.params, one));
        assert(serves(before, silent, has_stats, request.method@, request.params, two));
        if request.method@ == "set_mode"@ && one is Ok {
            let a = choose|mode: RequestedMode| #[trigger]
                mode.name() == request.params.mode->0@ && after == with_mode(before, mode);
            assert(two is Ok);
            let b = choose|mode: RequestedMode| #[trigger]
                mode.name() == request.params.mode->0@ && silent == with_mode(before, mode);
            requested_modes_are_told_apart(a, b);
        }
    }
}

/// A line that is no request changes nothing, and is told why.
pub proof fn unparsed_line_changes_nothing(
    before: DynamicConfig,
    after: DynamicConfig,
    has_stats: bool,
    reason: String,
    response: Option<Response>,
)
    requires
        answers(before, after, has_stats, Err(reason), response),
    ensures
        after == before,
        response is Some,
        response->0.outcome is Err,
        response->0.outcome->Err_0.code == -32700,
        response->0.outcome->Err_0.data is Some,
        response->0.outcome->Err_0.data->0@ == reason@,
{
}

} // verus!
