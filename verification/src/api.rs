//! Resolution of a reply of the remote API: every reply is a result of the
//! type that the caller asked for, a fault that the API reported, or a
//! document that is neither.

use crate::json::{field, lemma_object_view, without, JsonValue, JsonView, Member};
use crate::objects::invariant_deserialize::{rejection, DecodeError};
use vstd::prelude::*;
use vstd::string::StringExecFns;

verus! {

/// A failure that the remote API reported: its code, its message, and
/// whatever else the API sent along, which is handed on as it came.
#[derive(Debug, PartialEq, Eq)]
pub struct Fault {
    pub code: i64,
    pub message: String,
    pub extra: Vec<Member>,
}

/// The mathematical value of a [`Fault`].
pub struct FaultView {
    pub code: int,
    pub message: Seq<char>,
    pub extra: Seq<(Seq<char>, JsonView)>,
}

/// The views of the members of an object, in order.
pub open spec fn members_view(members: Seq<Member>) -> Seq<(Seq<char>, JsonView)> {
    Seq::new(members.len(), |i: int| members[i]@)
}

impl View for Fault {
    type V = FaultView;

    open spec fn view(&self) -> FaultView {
        FaultView {
            code: self.code as int,
            message: self.message@,
            extra: members_view(self.extra@),
        }
    }
}

/// How a call of the remote API failed.
#[derive(Debug, PartialEq, Eq)]
pub enum CallError {
    /// The reply is no object, or an object with neither a payload nor a
    /// fault.
    MalformedEnvelope,
    /// The part of the reply that had to be decoded is not of the type named
    /// `target`.
    PayloadDecodeError { target: String, cause: DecodeError },
    /// The API reported a failure.
    DomainError(Fault),
}

/// What a reply carries.
pub enum Envelope {
    /// The value under `payload`.
    Payload(JsonView),
    /// The value under `fault`, in a reply without a `payload`.
    Fault(JsonView),
    /// Neither.
    Malformed,
}

/// What the reply `raw` carries: its payload where it is an object with a
/// `payload`, else its fault where it is an object with a `fault`.
pub open spec fn envelope_of(raw: JsonView) -> Envelope {
    match raw {
        JsonView::Object(members) => match field(members, "payload"@) {
            Some(payload) => Envelope::Payload(payload),
            None => match field(members, "fault"@) {
                Some(fault) => Envelope::Fault(fault),
                None => Envelope::Malformed,
            },
        },
        _ => Envelope::Malformed,
    }
}

/// The integer that a number holds, where it is an integer that an `i64`
/// can hold.
pub open spec fn plain_integer(doc: JsonView) -> Option<int> {
    match doc {
        JsonView::Unsigned(n) => if n <= i64::MAX {
            Some(n as int)
        } else {
            None
        },
        JsonView::Signed(n) => Some(n as int),
        _ => None,
    }
}

/// The fault that `doc` describes: `doc` is an object whose `code` is an
/// integer and whose `message` is a string; its other members are the extra
/// of the fault.
pub open spec fn fault_of(doc: JsonView) -> Option<FaultView> {
    match doc {
        JsonView::Object(members) => match (field(members, "code"@), field(members, "message"@)) {
            (Some(code), Some(JsonView::Str(message))) => match plain_integer(code) {
                Some(c) => Some(
                    FaultView { code: c, message, extra: without(members, "code"@, "message"@) },
                ),
                None => None,
            },
            _ => None,
        },
        _ => None,
    }
}

/// What decoding `doc` into a [`Fault`] owes.
pub open spec fn fault_decoded(doc: JsonView, r: Result<Fault, DecodeError>) -> bool {
    match r {
        Ok(fault) => fault_of(doc) == Some(fault@),
        Err(e) => fault_of(doc) is None && e@ == rejection(doc, "Fault"@),
    }
}

impl Fault {
    /// The members of `members` other than `code` and `message`, copied.
    fn extra_of(members: &Vec<Member>) -> (extra: Vec<Member>)
        ensures
            members_view(extra@) == without(members_view(members@), "code"@, "message"@),
    {
        let code_key = String::from_str("code");
        let message_key = String::from_str("message");
        let ghost all = members_view(members@);
        let mut extra: Vec<Member> = Vec::new();
        let mut i: usize = 0;
        proof {
            assert(all.take(0) =~= Seq::empty());
            assert(members_view(extra@) =~= Seq::empty());
        }
        while i < members.len()
            invariant
                i <= members.len(),
                all == members_view(members@),
                code_key@ == "code"@,
                message_key@ == "message"@,
                members_view(extra@) == without(all.take(i as int), "code"@, "message"@),
            decreases members.len() - i,
        {
            let ghost before = members_view(extra@);
            proof {
                assert(all.take(i + 1).drop_last() =~= all.take(i as int));
                assert(all.take(i + 1).last() == members[i as int]@);
            }
            if !(members[i].key == code_key) && !(members[i].key == message_key) {
                let value = members[i].value.duplicate();
                extra.push(Member { key: members[i].key.clone(), value });
                proof {
                    assert(members_view(extra@) =~= before.push(members[i as int]@));
                }
            }
            i = i + 1;
        }
        proof {
            assert(all.take(members.len() as int) =~= all);
        }
        extra
    }

    /// Decodes the fault that `doc` describes.
    pub fn decode(doc: &JsonValue) -> (r: Result<Fault, DecodeError>)
        ensures
            fault_decoded(doc@, r),
    {
        let code = match doc.get("code") {
            Some(JsonValue::Unsigned(n)) => if *n <= i64::MAX as u64 {
                Some(*n as i64)
            } else {
                None
            },
            Some(JsonValue::Signed(n)) => Some(*n),
            _ => None,
        };
        let message = match doc.get("message") {
            Some(JsonValue::Str(text)) => Some(text.clone()),
            _ => None,
        };
        match (doc, code, message) {
            (JsonValue::Object(members), Some(code), Some(message)) => {
                proof {
                    lemma_object_view(*members);
                    assert(doc@->Object_0 =~= members_view(members@));
                }
                let extra = Fault::extra_of(members);
                Ok(Fault { code, message, extra })
            },
            _ => Err(DecodeError { value: doc.duplicate(), target: String::from_str("Fault") }),
        }
    }
}

/// What a call owes once its payload has been decoded: the decoded value,
/// or the failure to decode it with the name of the type that was asked for.
pub open spec fn concluded<T>(
    decoded: Result<T, DecodeError>,
    target: Seq<char>,
    r: Result<T, CallError>,
) -> bool {
    match decoded {
        Ok(v) => r == Ok::<T, CallError>(v),
        Err(e) => r matches Err(CallError::PayloadDecodeError { target: t, cause }) && t@ == target
            && cause == e,
    }
}

/// What a call owes for the reply `raw`, where `decode` decodes a payload
/// into the type named `target`:
/// - a reply with a `payload` gives what `decode` makes of that payload;
/// - a reply with a `fault` and no `payload` gives that fault, or, where
///   the fault does not decode, the failure to decode it;
/// - every other reply is malformed.
pub open spec fn resolved<T, F: FnOnce(&JsonValue) -> Result<T, DecodeError>>(
    raw: JsonView,
    target: Seq<char>,
    decode: F,
    r: Result<T, CallError>,
) -> bool {
    match envelope_of(raw) {
        Envelope::Payload(payload) => exists|doc: JsonValue, decoded: Result<T, DecodeError>|
            doc@ == payload && #[trigger] call_ensures(decode, (&doc,), decoded) && concluded(
                decoded,
                target,
                r,
            ),
        Envelope::Fault(fault) => match fault_of(fault) {
            Some(described) => r matches Err(CallError::DomainError(f)) && f@ == described,
            None => r matches Err(CallError::PayloadDecodeError { target: t, cause }) && t@
                == "Fault"@ && cause@ == rejection(fault, "Fault"@),
        },
        Envelope::Malformed => r matches Err(CallError::MalformedEnvelope),
    }
}

/// A reply with a payload resolves to what its payload decodes to: where
/// `decode` makes `Ok(value)` of every document that is the payload, the
/// call gives `Ok(value)`.
pub proof fn lemma_payload_resolves<T, F: FnOnce(&JsonValue) -> Result<T, DecodeError>>(
    raw: JsonView,
    target: Seq<char>,
    decode: F,
    r: Result<T, CallError>,
    value: T,
)
    requires
        resolved(raw, target, decode, r),
        raw.get("payload"@) is Some,
        forall|doc: JsonValue, decoded: Result<T, DecodeError>|
            doc@ == raw.get("payload"@)->0 && #[trigger] call_ensures(decode, (&doc,), decoded)
                ==> decoded == Ok::<T, DecodeError>(value),
    ensures
        r == Ok::<T, CallError>(value),
{
}

/// A reply with a payload that does not decode fails with the name of the
/// type that was asked for: where `decode` rejects every document that is
/// the payload, the call gives a `PayloadDecodeError` that names `target`
/// and holds what `decode` gave.
pub proof fn lemma_undecoded_payload_names_target<T, F: FnOnce(&JsonValue) -> Result<T, DecodeError>>(
    raw: JsonView,
    target: Seq<char>,
    decode: F,
    r: Result<T, CallError>,
)
    requires
        resolved(raw, target, decode, r),
        raw.get("payload"@) is Some,
        forall|doc: JsonValue, decoded: Result<T, DecodeError>|
            doc@ == raw.get("payload"@)->0 && #[trigger] call_ensures(decode, (&doc,), decoded)
                ==> decoded is Err,
    ensures
        r matches Err(CallError::PayloadDecodeError { target: t, cause }) && t@ == target,
{
}

/// A reply that is no object, or an object with neither a `payload` nor a
/// `fault`, is malformed, whatever type was asked for.
pub proof fn lemma_neither_branch_is_malformed<T, F: FnOnce(&JsonValue) -> Result<T, DecodeError>>(
    raw: JsonView,
    target: Seq<char>,
    decode: F,
    r: Result<T, CallError>,
)
    requires
        resolved(raw, target, decode, r),
        raw.get("payload"@) is None,
        raw.get("fault"@) is None,
    ensures
        r matches Err(CallError::MalformedEnvelope),
{
}

/// A reply with a fault and no payload gives that fault, whatever type was
/// asked for and however it would have been decoded.
pub proof fn lemma_fault_resolves<T, F: FnOnce(&JsonValue) -> Result<T, DecodeError>>(
    raw: JsonView,
    target: Seq<char>,
    decode: F,
    r: Result<T, CallError>,
)
    requires
        resolved(raw, target, decode, r),
        raw.get("payload"@) is None,
        raw.get("fault"@) matches Some(fault) && fault_of(fault) is Some,
    ensures
        r matches Err(CallError::DomainError(f)) && Some(f@) == fault_of(raw.get("fault"@)->0),
{
}

/// Turns the result of decoding a payload into the result of the call.
pub fn conclude<T>(decoded: Result<T, DecodeError>, target: &str) -> (r: Result<T, CallError>)
    ensures
        concluded(decoded, target@, r),
{
    match decoded {
        Ok(v) => Ok(v),
        Err(cause) => Err(CallError::PayloadDecodeError { target: target.to_owned(), cause }),
    }
}

/// Resolves the reply `raw` of a call whose result is of the type named
/// `target`, which `decode` decodes from a payload.
pub fn resolve<T, F: FnOnce(&JsonValue) -> Result<T, DecodeError>>(
    raw: &JsonValue,
    target: &str,
    decode: F,
) -> (r: Result<T, CallError>)
    requires
        forall|doc: &JsonValue| raw@.get("payload"@) == Some(doc@) ==> call_requires(decode, (doc,)),
    ensures
        resolved(raw@, target@, decode, r),
{
    match raw.get("payload") {
        Some(payload) => {
            let decoded = decode(payload);
            conclude(decoded, target)
        },
        None => match raw.get("fault") {
            Some(fault) => match Fault::decode(fault) {
                Ok(described) => Err(CallError::DomainError(described)),
                Err(cause) => Err(
                    CallError::PayloadDecodeError { target: String::from_str("Fault"), cause },
                ),
            },
            None => Err(CallError::MalformedEnvelope),
        },
    }
}

/// Where replies are traced, and whether every reply that resolved is
/// traced or only those whose payload did not decode.
#[derive(Debug, PartialEq, Eq)]
pub struct TraceConfig {
    pub trace_dir: String,
    pub trace_all_successes: bool,
}

/// The mathematical value of a [`TraceConfig`].
pub struct TraceConfigView {
    pub trace_dir: Seq<char>,
    pub trace_all_successes: bool,
}

impl View for TraceConfig {
    type V = TraceConfigView;

    open spec fn view(&self) -> TraceConfigView {
        TraceConfigView {
            trace_dir: self.trace_dir@,
            trace_all_successes: self.trace_all_successes,
        }
    }
}

/// A file to write: its path and what it is to hold.
#[derive(Debug, PartialEq, Eq)]
pub struct TraceFile {
    pub path: String,
    pub contents: String,
}

/// The mathematical value of a [`TraceFile`].
pub struct TraceFileView {
    pub path: Seq<char>,
    pub contents: Seq<char>,
}

impl View for TraceFile {
    type V = TraceFileView;

    open spec fn view(&self) -> TraceFileView {
        TraceFileView { path: self.path@, contents: self.contents@ }
    }
}

/// The trace of one reply: the directory to create, the file that holds the
/// reply, and the file that holds the message that came with it, if any.
#[derive(Debug, PartialEq, Eq)]
pub struct TracePlan {
    pub dir: String,
    pub response: TraceFile,
    pub message: Option<TraceFile>,
}

/// The mathematical value of a [`TracePlan`].
pub struct TracePlanView {
    pub dir: Seq<char>,
    pub response: TraceFileView,
    pub message: Option<TraceFileView>,
}

impl View for TracePlan {
    type V = TracePlanView;

    open spec fn view(&self) -> TracePlanView {
        TracePlanView {
            dir: self.dir@,
            response: self.response@,
            message: match self.message {
                Some(file) => Some(file@),
                None => None,
            },
        }
    }
}

/// The directory that traces go to where none is named: `.cache/rvk` under
/// the home directory, or under the current directory where no home is
/// known.
pub open spec fn default_trace_dir(home: Option<Seq<char>>) -> Seq<char> {
    match home {
        Some(dir) => dir + "/.cache/rvk"@,
        None => "."@ + "/.cache/rvk"@,
    }
}

/// The configuration that the three settings ask for: the named directory
/// or else the default one, and every resolved reply traced exactly where
/// the third setting is `1`.
pub open spec fn configured(
    trace_dir: Option<Seq<char>>,
    home: Option<Seq<char>>,
    trace_all: Option<Seq<char>>,
) -> TraceConfigView {
    TraceConfigView {
        trace_dir: match trace_dir {
            Some(dir) => dir,
            None => default_trace_dir(home),
        },
        trace_all_successes: trace_all == Some("1"@),
    }
}

/// The trace of the reply `response` under `base` and `subdir`, at the time
/// whose text is `stamp`.
pub open spec fn trace_plan(
    base: Seq<char>,
    subdir: Seq<char>,
    stamp: Seq<char>,
    response: Seq<char>,
    error_message: Seq<char>,
) -> TracePlanView {
    TracePlanView {
        dir: base + subdir,
        response: TraceFileView { path: base + subdir + stamp + ".json"@, contents: response },
        message: if error_message.len() == 0 {
            None
        } else {
            Some(
                TraceFileView {
                    path: base + subdir + stamp + "_msg.txt"@,
                    contents: error_message,
                },
            )
        },
    }
}

/// Whether `stamp` can be the text of a time in the name of a trace file: a
/// `/`, then a name that holds no `/`.
pub open spec fn is_stamp(stamp: Seq<char>) -> bool {
    &&& stamp.len() > 0
    &&& stamp[0] == '/'
    &&& forall|i: int| 1 <= i < stamp.len() ==> stamp[i] != '/'
}

/// Whether `plan` is the trace of `response` under `base` and `subdir` at
/// some time.
pub open spec fn trace_planned(
    base: Seq<char>,
    subdir: Seq<char>,
    response: Seq<char>,
    error_message: Seq<char>,
    plan: TracePlanView,
) -> bool {
    exists|stamp: Seq<char>|
        is_stamp(stamp) && plan == #[trigger] trace_plan(
            base,
            subdir,
            stamp,
            response,
            error_message,
        )
}

/// The path of the file called `name` in the directory `dir`.
pub open spec fn file_in(dir: Seq<char>, name: Seq<char>) -> Seq<char> {
    dir + seq!['/'] + name
}

/// Whether `path` is the path of a file that lies in the directory `dir`
/// itself, not in a directory below it nor beside it.
pub open spec fn lies_in(path: Seq<char>, dir: Seq<char>) -> bool {
    exists|name: Seq<char>|
        name.len() > 0 && !name.contains('/') && path == #[trigger] file_in(dir, name)
}

/// The path `dir + stamp + ending` lies in `dir`, where `stamp` is the text
/// of a time and `ending` holds no `/`.
proof fn lemma_stamped_path_lies_in(dir: Seq<char>, stamp: Seq<char>, ending: Seq<char>)
    requires
        is_stamp(stamp),
        !ending.contains('/'),
        ending.len() > 0,
    ensures
        lies_in(dir + stamp + ending, dir),
{
    let name = stamp.subrange(1, stamp.len() as int) + ending;
    assert forall|i: int| 0 <= i < name.len() implies name[i] != '/' by {
        if i < stamp.len() - 1 {
            assert(name[i] == stamp[i + 1]);
        } else {
            assert(name[i] == ending[i - (stamp.len() - 1)]);
            assert(ending.contains(ending[i - (stamp.len() - 1)]));
        }
    }
    assert(!name.contains('/'));
    assert(dir + stamp + ending =~= file_in(dir, name));
}

/// The files of a planned trace lie in the directory that the plan creates,
/// which is the directory `subdir` of the trace directory: the file of the
/// reply, and the file of the message where there is one.
pub proof fn lemma_planned_trace_lies_in_its_directory(
    base: Seq<char>,
    subdir: Seq<char>,
    response: Seq<char>,
    error_message: Seq<char>,
    plan: TracePlanView,
)
    requires
        trace_planned(base, subdir, response, error_message, plan),
    ensures
        plan.dir == base + subdir,
        lies_in(plan.response.path, plan.dir),
        plan.response.contents == response,
        plan.message matches Some(file) ==> lies_in(file.path, plan.dir) && file.contents
            == error_message,
        plan.message is Some <==> error_message.len() > 0,
{
    let stamp = choose|stamp: Seq<char>|
        is_stamp(stamp) && plan == #[trigger] trace_plan(
            base,
            subdir,
            stamp,
            response,
            error_message,
        );
    reveal_strlit(".json");
    reveal_strlit("_msg.txt");
    assert(!".json"@.contains('/'));
    assert(!"_msg.txt"@.contains('/'));
    lemma_stamped_path_lies_in(base + subdir, stamp, ".json"@);
    lemma_stamped_path_lies_in(base + subdir, stamp, "_msg.txt"@);
}

/// The pattern of the time in the name of a trace file.
pub open spec fn stamp_pattern() -> Seq<char> {
    "/%Y-%m-%d_%H-%M-%S"@
}

/// `chrono`'s `Local::now` and `DateTime::format`: the local time of the
/// call, written out by `pattern`. The one pattern admitted is
/// [`stamp_pattern`], which `chrono` can write out. It writes the `/` that
/// the pattern begins with as it stands, and after it only numbers, each
/// with at most a sign before it, and the `-` and `_` between them: so the
/// text begins with `/` and holds no other. Which time it is, is not said.
#[verifier::external_body]
fn local_time_text(pattern: &str) -> (text: String)
    requires
        pattern@ == stamp_pattern(),
    ensures
        is_stamp(text@),
{
    format!("{}", chrono::Local::now().format(pattern))
}

impl TraceConfig {
    /// The configuration that the settings of the process ask for:
    /// `trace_dir` is the directory named for traces, `home` the home
    /// directory, `trace_all` the setting that asks for every reply.
    pub fn from_settings(
        trace_dir: Option<String>,
        home: Option<String>,
        trace_all: Option<String>,
    ) -> (config: TraceConfig)
        ensures
            config@ == configured(
                match trace_dir {
                    Some(dir) => Some(dir@),
                    None => None,
                },
                match home {
                    Some(dir) => Some(dir@),
                    None => None,
                },
                match trace_all {
                    Some(setting) => Some(setting@),
                    None => None,
                },
            ),
    {
        let dir = match trace_dir {
            Some(dir) => dir,
            None => {
                let mut local = match home {
                    Some(dir) => dir,
                    None => String::from_str("."),
                };
                local.append("/.cache/rvk");
                local
            },
        };
        let all = match trace_all {
            Some(setting) => setting == String::from_str("1"),
            None => false,
        };
        TraceConfig { trace_dir: dir, trace_all_successes: all }
    }
}

/// Plans the trace of the reply `response` in the directory `subdir` of the
/// trace directory, at the time whose text is `stamp`. A message that is
/// empty gets no file.
pub fn try_trace_response(
    config: &TraceConfig,
    subdir: &str,
    stamp: &str,
    response: &str,
    error_message: &str,
) -> (plan: TracePlan)
    ensures
        plan@ == trace_plan(config.trace_dir@, subdir@, stamp@, response@, error_message@),
{
    let mut dir = config.trace_dir.clone();
    dir.append(subdir);
    let mut stem = dir.clone();
    stem.append(stamp);
    let mut json = stem.clone();
    json.append(".json");
    let message = if error_message.is_empty() {
        None
    } else {
        let mut msg = stem;
        msg.append("_msg.txt");
        Some(TraceFile { path: msg, contents: error_message.to_owned() })
    };
    TracePlan { dir, response: TraceFile { path: json, contents: response.to_owned() }, message }
}

/// Plans the trace of a reply whose payload did not decode, with the
/// message that says why, at the local time of the call.
pub fn try_trace_failed_response(config: &TraceConfig, response: &str, error_message: &str) -> (plan:
    TracePlan)
    ensures
        trace_planned(config.trace_dir@, "/failed"@, response@, error_message@, plan@),
{
    let stamp = local_time_text("/%Y-%m-%d_%H-%M-%S");
    try_trace_response(config, "/failed", stamp.as_str(), response, error_message)
}

/// Plans the trace of a reply that resolved, at the local time of the call.
pub fn try_trace_succeeded_response(config: &TraceConfig, response: &str) -> (plan: TracePlan)
    ensures
        trace_planned(config.trace_dir@, "/succeeded"@, response@, ""@, plan@),
{
    let stamp = local_time_text("/%Y-%m-%d_%H-%M-%S");
    try_trace_response(config, "/succeeded", stamp.as_str(), response, "")
}

/// The directory of the trace directory that the reply `raw` of a call
/// that ended in `outcome` is traced in: a reply whose payload did not
/// decode goes to `/failed`, a reply that resolved to `/succeeded` where
/// every reply is traced, and no other reply is traced. A reply without a
/// payload is never traced as failed, whatever the call ended in.
pub open spec fn trace_subdir<T>(
    raw: JsonView,
    outcome: Result<T, CallError>,
    trace_all_successes: bool,
) -> Option<Seq<char>> {
    match outcome {
        Ok(_) => if trace_all_successes {
            Some("/succeeded"@)
        } else {
            None
        },
        Err(CallError::PayloadDecodeError { .. }) => if raw.get("payload"@) is Some {
            Some("/failed"@)
        } else {
            None
        },
        Err(_) => None,
    }
}

/// The message that goes with the trace of a reply: none for a reply that
/// resolved, else what says why the call failed.
pub open spec fn trace_message<T>(outcome: Result<T, CallError>, error_message: Seq<char>) -> Seq<
    char,
> {
    if outcome is Ok {
        ""@
    } else {
        error_message
    }
}

/// Of the replies that a call resolves, those traced as failed are those
/// with a payload that did not decode, and those traced as succeeded are
/// those that resolved, where every reply is traced. A reply without a
/// payload is not traced: not a fault, not a fault that does not decode,
/// and not a reply that is malformed.
pub proof fn lemma_trace_follows_payload<T, F: FnOnce(&JsonValue) -> Result<T, DecodeError>>(
    raw: JsonView,
    target: Seq<char>,
    decode: F,
    r: Result<T, CallError>,
    trace_all_successes: bool,
)
    requires
        resolved(raw, target, decode, r),
    ensures
        trace_subdir(raw, r, trace_all_successes) == Some("/failed"@) <==> raw.get("payload"@)
            is Some && r is Err,
        trace_subdir(raw, r, trace_all_successes) == Some("/succeeded"@) <==> r is Ok
            && trace_all_successes,
        trace_subdir(raw, r, trace_all_successes) is None <==> raw.get("payload"@) is None || (
        r is Ok && !trace_all_successes),
        r is Ok ==> raw.get("payload"@) is Some,
{
    reveal_strlit("/failed");
    reveal_strlit("/succeeded");
    assert("/failed"@[1] != "/succeeded"@[1]);
}

/// Plans the trace of the reply `raw`, whose text is `response`, of a call
/// that ended in `outcome`, if it is to be traced. `error_message` says why
/// the call failed; a reply that resolved is traced without a message.
pub fn trace_for<T>(
    raw: &JsonValue,
    outcome: &Result<T, CallError>,
    config: &TraceConfig,
    response: &str,
    error_message: &str,
) -> (plan: Option<TracePlan>)
    ensures
        match trace_subdir(raw@, *outcome, config.trace_all_successes) {
            Some(subdir) => plan matches Some(p) && trace_planned(
                config.trace_dir@,
                subdir,
                response@,
                trace_message(*outcome, error_message@),
                p@,
            ),
            None => plan is None,
        },
{
    match outcome {
        Ok(_) => if config.trace_all_successes {
            Some(try_trace_succeeded_response(config, response))
        } else {
            None
        },
        Err(CallError::PayloadDecodeError { .. }) => match raw.get("payload") {
            Some(_) => Some(try_trace_failed_response(config, response, error_message)),
            None => None,
        },
        Err(_) => None,
    }
}

/// The address that the method named `method_name` is called at.
pub fn method_url(method_name: &str) -> (url: String)
    ensures
        url@ == "https://api.vk.com/method/"@ + method_name@,
{
    let mut url = String::from_str("https://api.vk.com/method/");
    url.append(method_name);
    url
}

/// The parameters of a call, each a name and its value.
pub struct Params {
    pub entries: Vec<(String, String)>,
}

impl View for Params {
    type V = Seq<(Seq<char>, Seq<char>)>;

    open spec fn view(&self) -> Seq<(Seq<char>, Seq<char>)> {
        Seq::new(self.entries@.len(), |i: int| (self.entries@[i].0@, self.entries@[i].1@))
    }
}

/// The parameters `params` without those named `key`, in order.
pub open spec fn without_key(params: Seq<(Seq<char>, Seq<char>)>, key: Seq<char>) -> Seq<
    (Seq<char>, Seq<char>),
>
    decreases params.len(),
{
    if params.len() == 0 {
        Seq::empty()
    } else if params.last().0 == key {
        without_key(params.drop_last(), key)
    } else {
        without_key(params.drop_last(), key).push(params.last())
    }
}

/// The parameters `params` with `key` set to `value`: whatever `key` was
/// set to before is gone.
pub open spec fn with_param(
    params: Seq<(Seq<char>, Seq<char>)>,
    key: Seq<char>,
    value: Seq<char>,
) -> Seq<(Seq<char>, Seq<char>)> {
    without_key(params, key).push((key, value))
}

/// Whether no name occurs twice among the parameters `params`.
pub open spec fn distinct_keys(params: Seq<(Seq<char>, Seq<char>)>) -> bool {
    forall|i: int, j: int| 0 <= i < j < params.len() ==> params[i].0 != params[j].0
}

/// What is left of `params` without those named `key` are parameters of
/// `params`, none of them named `key`, and no name occurs twice among them
/// where none did among `params`.
pub proof fn lemma_without_key(params: Seq<(Seq<char>, Seq<char>)>, key: Seq<char>)
    ensures
        forall|i: int|
            0 <= i < without_key(params, key).len() ==> (#[trigger] without_key(params, key)[i]).0
                != key && params.contains(without_key(params, key)[i]),
        distinct_keys(params) ==> distinct_keys(without_key(params, key)),
    decreases params.len(),
{
    if params.len() > 0 {
        let rest = params.drop_last();
        let kept = without_key(rest, key);
        lemma_without_key(rest, key);
        assert forall|i: int| 0 <= i < kept.len() implies params.contains(#[trigger] kept[i]) by {
            let k = choose|k: int| 0 <= k < rest.len() && rest[k] == kept[i];
            assert(params[k] == kept[i]);
        }
        if distinct_keys(params) {
            assert(distinct_keys(rest)) by {
                assert forall|i: int, j: int| 0 <= i < j < rest.len() implies rest[i].0
                    != rest[j].0 by {
                    assert(rest[i] == params[i] && rest[j] == params[j]);
                }
            }
            if params.last().0 != key {
                let all = kept.push(params.last());
                assert forall|i: int, j: int| 0 <= i < j < all.len() implies all[i].0
                    != all[j].0 by {
                    if j == kept.len() {
                        let k = choose|k: int| 0 <= k < rest.len() && rest[k] == kept[i];
                        assert(params[k] == kept[i]);
                        assert(params[k].0 != params[params.len() - 1].0);
                    } else {
                        assert(all[i] == kept[i] && all[j] == kept[j]);
                    }
                }
            }
        }
        if params.last().0 != key {
            let all = kept.push(params.last());
            assert forall|i: int| 0 <= i < all.len() implies (#[trigger] all[i]).0 != key
                && params.contains(all[i]) by {
                if i == kept.len() {
                    assert(params[params.len() - 1] == all[i]);
                } else {
                    assert(all[i] == kept[i]);
                }
            }
        }
    }
}

/// Setting a parameter leaves it set once, to the value given, and keeps
/// every name from occurring twice where none did before.
pub proof fn lemma_with_param(params: Seq<(Seq<char>, Seq<char>)>, key: Seq<char>, value: Seq<char>)
    ensures
        with_param(params, key, value).len() > 0,
        with_param(params, key, value).last() == (key, value),
        forall|i: int|
            0 <= i < with_param(params, key, value).len() - 1 ==> (#[trigger] with_param(
                params,
                key,
                value,
            )[i]).0 != key,
        distinct_keys(params) ==> distinct_keys(with_param(params, key, value)),
{
    lemma_without_key(params, key);
    let kept = without_key(params, key);
    let all = with_param(params, key, value);
    assert forall|i: int| 0 <= i < all.len() - 1 implies (#[trigger] all[i]).0 != key by {
        assert(all[i] == kept[i]);
    }
    if distinct_keys(params) {
        assert forall|i: int, j: int| 0 <= i < j < all.len() implies all[i].0 != all[j].0 by {
            if j == kept.len() {
                assert(all[i] == kept[i]);
            } else {
                assert(all[i] == kept[i] && all[j] == kept[j]);
            }
        }
    }
}

impl Params {
    /// No parameters.
    pub fn new() -> (params: Params)
        ensures
            params@ == Seq::<(Seq<char>, Seq<char>)>::empty(),
            distinct_keys(params@),
    {
        let params = Params { entries: Vec::new() };
        assert(params@ =~= Seq::empty());
        params
    }

    /// Sets the parameter `key` to `value`.
    pub fn insert(&mut self, key: &str, value: &str)
        ensures
            final(self)@ == with_param(old(self)@, key@, value@),
            distinct_keys(old(self)@) ==> distinct_keys(final(self)@),
    {
        proof {
            lemma_with_param(old(self)@, key@, value@);
        }
        let wanted = key.to_owned();
        let ghost all = self@;
        let mut kept: Vec<(String, String)> = Vec::new();
        let mut i: usize = 0;
        proof {
            assert(all.take(0) =~= Seq::empty());
            assert((Params { entries: kept })@ =~= Seq::empty());
        }
        while i < self.entries.len()
            invariant
                i <= self.entries.len(),
                all == self@,
                wanted@ == key@,
                (Params { entries: kept })@ == without_key(all.take(i as int), key@),
            decreases self.entries.len() - i,
        {
            let ghost before = (Params { entries: kept })@;
            proof {
                assert(all.take(i + 1).drop_last() =~= all.take(i as int));
                assert(all.take(i + 1).last() == (
                    self.entries[i as int].0@,
                    self.entries[i as int].1@,
                ));
            }
            if !(self.entries[i].0 == wanted) {
                kept.push((self.entries[i].0.clone(), self.entries[i].1.clone()));
                proof {
                    assert((Params { entries: kept })@ =~= before.push(
                        (self.entries[i as int].0@, self.entries[i as int].1@),
                    ));
                }
            }
            i = i + 1;
        }
        proof {
            assert(all.take(self.entries.len() as int) =~= all);
        }
        let ghost before = (Params { entries: kept })@;
        kept.push((wanted, value.to_owned()));
        proof {
            assert((Params { entries: kept })@ =~= before.push((key@, value@)));
        }
        self.entries = kept;
    }
}

/// The parameters that a call is sent with: those of the caller, with the
/// version of the API under `v` and the access token under `access_token`.
pub fn prepare_params(params: Params, version: &str, token: &str) -> (sent: Params)
    ensures
        sent@ == with_param(with_param(params@, "v"@, version@), "access_token"@, token@),
        distinct_keys(params@) ==> distinct_keys(sent@),
{
    let mut sent = params;
    sent.insert("v", version);
    sent.insert("access_token", token);
    sent
}

} // verus!
