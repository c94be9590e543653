//! The line protocol spoken with the sidecar: one JSON command per line, one
//! JSON reply per line, in strict lockstep.

use crate::batch::InferenceResult;
use crate::codec::{
    base64_text, decode_floats_base64, decoded_tensor, encode_floats_base64, le_bytes, DecodeFault,
};
use vstd::prelude::*;

verus! {

/// The error of serde_json's serialization, carried opaquely.
#[verifier::external_type_specification]
#[verifier::external_body]
pub struct ExJsonError(serde_json::Error);

/// Errors of the sidecar subsystem.
#[derive(Debug, Clone, PartialEq, Eq)]
pub enum SidecarError {
    /// The sidecar executable or script could not be started.
    SpawnFailure(String),
    /// No sidecar script was found.
    NotFound,
    /// A message could not be written or read as JSON; holds the offending text.
    ProtocolError(String),
    /// The sidecar closed its output or exited.
    ProcessDied,
    /// No engine is running.
    EngineNotInitialized,
    /// The sidecar answered `ok: false`; holds its error text.
    RemoteError(String),
    /// A tensor payload was malformed.
    DecodeError(DecodeFault),
}

/// The sidecar script among candidate places, tried in order: the index of the
/// first that exists, or `NotFound` when none does.
pub fn locate_script(exists: &Vec<bool>) -> (r: Result<usize, SidecarError>)
    ensures
        r matches Ok(i) ==> i < exists@.len() && exists@[i as int] && forall|j: int|
            0 <= j < i ==> !#[trigger] exists@[j],
        r is Err ==> (r->Err_0 is NotFound && forall|j: int|
            0 <= j < exists@.len() ==> !#[trigger] exists@[j]),
{
    let mut i: usize = 0;
    while i < exists.len()
        invariant
            i <= exists@.len(),
            forall|j: int| 0 <= j < i ==> !#[trigger] exists@[j],
        decreases exists@.len() - i,
    {
        if exists[i] {
            return Ok(i);
        }
        i = i + 1;
    }
    Err(SidecarError::NotFound)
}

/// A command for the sidecar. Tensors hold the bit patterns of `f32` values.
#[derive(Debug, Clone)]
pub enum Command {
    Init { model_path: String },
    Infer { bin_input: Vec<u32>, global_input: Vec<u32>, batch_size: usize },
    Benchmark { iterations: usize },
    Dispose,
}

/// The character of a decimal digit.
pub open spec fn digit_char(d: nat) -> char {
    if d == 0 {
        '0'
    } else if d == 1 {
        '1'
    } else if d == 2 {
        '2'
    } else if d == 3 {
        '3'
    } else if d == 4 {
        '4'
    } else if d == 5 {
        '5'
    } else if d == 6 {
        '6'
    } else if d == 7 {
        '7'
    } else if d == 8 {
        '8'
    } else {
        '9'
    }
}

/// Decimal notation of a natural number, without sign or leading zeros.
pub open spec fn decimal_text(n: nat) -> Seq<char>
    decreases n,
{
    if n < 10 {
        seq![digit_char(n)]
    } else {
        decimal_text(n / 10) + seq![digit_char(n % 10)]
    }
}

/// The JSON string literal (quoted and escaped) that serde_json writes for a text.
pub uninterp spec fn json_string_literal(s: Seq<char>) -> Seq<char>;

/// The one-character text of a decimal digit.
fn digit_string(d: usize) -> (r: String)
    requires
        d < 10,
    ensures
        r@ == seq![digit_char(d as nat)],
{
    if d == 0 {
        proof {
            reveal_strlit("0");
        }
        String::from_str("0")
    } else if d == 1 {
        proof {
            reveal_strlit("1");
        }
        String::from_str("1")
    } else if d == 2 {
        proof {
            reveal_strlit("2");
        }
        String::from_str("2")
    } else if d == 3 {
        proof {
            reveal_strlit("3");
        }
        String::from_str("3")
    } else if d == 4 {
        proof {
            reveal_strlit("4");
        }
        String::from_str("4")
    } else if d == 5 {
        proof {
            reveal_strlit("5");
        }
        String::from_str("5")
    } else if d == 6 {
        proof {
            reveal_strlit("6");
        }
        String::from_str("6")
    } else if d == 7 {
        proof {
            reveal_strlit("7");
        }
        String::from_str("7")
    } else if d == 8 {
        proof {
            reveal_strlit("8");
        }
        String::from_str("8")
    } else {
        proof {
            reveal_strlit("9");
        }
        String::from_str("9")
    }
}

/// Decimal notation of `n`.
fn decimal(n: usize) -> (r: String)
    ensures
        r@ == decimal_text(n as nat),
    decreases n,
{
    if n < 10 {
        digit_string(n)
    } else {
        let mut t = decimal(n / 10);
        let d = digit_string(n % 10);
        t.append(d.as_str());
        t
    }
}

/// Relies on `serde_json::to_string` on a `str`: the JSON string literal of the
/// text. A `str` is written into a `Vec`, which cannot fail, so the result is `Ok`.
#[verifier::external_body]
fn json_quote(s: &str) -> (r: Result<String, serde_json::Error>)
    ensures
        r is Ok,
        r matches Ok(t) ==> t@ == json_string_literal(s@),
{
    serde_json::to_string(s)
}

/// The JSON text of a command, without the line terminator.
pub open spec fn command_text(cmd: Command) -> Seq<char> {
    match cmd {
        Command::Init { model_path } => "{\"cmd\":\"init\",\"model_path\":"@ + json_string_literal(
            model_path@,
        ) + "}"@,
        Command::Infer { bin_input, global_input, batch_size } => "{\"cmd\":\"infer\",\"bin_input\":"@
            + json_string_literal(base64_text(le_bytes(bin_input@))) + ",\"global_input\":"@
            + json_string_literal(base64_text(le_bytes(global_input@))) + ",\"batch_size\":"@
            + decimal_text(batch_size as nat) + "}"@,
        Command::Benchmark { iterations } => "{\"cmd\":\"benchmark\",\"iterations\":"@
            + decimal_text(iterations as nat) + "}"@,
        Command::Dispose => "{\"cmd\":\"dispose\"}"@,
    }
}

/// Tensors small enough that their byte image fits in memory.
pub open spec fn command_fits(cmd: Command) -> bool {
    match cmd {
        Command::Infer { bin_input, global_input, .. } => 4 * bin_input@.len() <= usize::MAX && 4
            * global_input@.len() <= usize::MAX,
        _ => true,
    }
}

fn quoted(s: &str) -> (r: String)
    ensures
        r@ == json_string_literal(s@),
{
    json_quote(s).unwrap()
}

/// The line that carries `cmd`: its JSON text and a line terminator.
pub fn command_line(cmd: &Command) -> (r: String)
    requires
        command_fits(*cmd),
    ensures
        r@ == command_text(*cmd) + "\n"@,
{
    let mut line = match cmd {
        Command::Init { model_path } => {
            let mut t = String::from_str("{\"cmd\":\"init\",\"model_path\":");
            let q = quoted(model_path.as_str());
            t.append(q.as_str());
            t.append("}");
            t
        },
        Command::Infer { bin_input, global_input, batch_size } => {
            let mut t = String::from_str("{\"cmd\":\"infer\",\"bin_input\":");
            let b = encode_floats_base64(bin_input);
            let q = quoted(b.as_str());
            t.append(q.as_str());
            t.append(",\"global_input\":");
            let g = encode_floats_base64(global_input);
            let q = quoted(g.as_str());
            t.append(q.as_str());
            t.append(",\"batch_size\":");
            let d = decimal(*batch_size);
            t.append(d.as_str());
            t.append("}");
            t
        },
        Command::Benchmark { iterations } => {
            let mut t = String::from_str("{\"cmd\":\"benchmark\",\"iterations\":");
            let d = decimal(*iterations);
            t.append(d.as_str());
            t.append("}");
            t
        },
        Command::Dispose => String::from_str("{\"cmd\":\"dispose\"}"),
    };
    line.append("\n");
    line
}

/// Whether a text is one JSON value, as serde_json parses it.
pub uninterp spec fn json_parses(text: Seq<char>) -> bool;

/// The boolean member `key` of the JSON object in `text`, if there is one.
pub uninterp spec fn json_bool_at(text: Seq<char>, key: Seq<char>) -> Option<bool>;

/// The string member `key` of the JSON object in `text`, if there is one.
pub uninterp spec fn json_str_at(text: Seq<char>, key: Seq<char>) -> Option<Seq<char>>;

/// The unsigned integer member `key` of the JSON object in `text`, if there is one.
pub uninterp spec fn json_u64_at(text: Seq<char>, key: Seq<char>) -> Option<u64>;

/// The array member `key` of the JSON object in `text`, if there is one, with
/// each element read as an unsigned integer where it is one.
pub uninterp spec fn json_u64_list_at(text: Seq<char>, key: Seq<char>) -> Option<Seq<Option<u64>>>;

/// Relies on `serde_json::from_str` into a `Value`: whether the text parses.
#[verifier::external_body]
fn json_valid(text: &str) -> (r: bool)
    ensures
        r == json_parses(text@),
{
    serde_json::from_str::<serde_json::Value>(text).is_ok()
}

/// Relies on `serde_json::from_str` into a `Value`, then `Value::get` and
/// `Value::as_bool`: the boolean member `key`.
#[verifier::external_body]
fn bool_at(text: &str, key: &str) -> (r: Option<bool>)
    ensures
        r == json_bool_at(text@, key@),
{
    let v: serde_json::Value = serde_json::from_str(text).ok()?;
    v.get(key)?.as_bool()
}

/// Relies on `serde_json::from_str` into a `Value`, then `Value::get` and
/// `Value::as_str`: the string member `key`.
#[verifier::external_body]
fn str_at(text: &str, key: &str) -> (r: Option<String>)
    ensures
        r is None <==> json_str_at(text@, key@) is None,
        r matches Some(t) ==> json_str_at(text@, key@) == Some(t@),
{
    let v: serde_json::Value = serde_json::from_str(text).ok()?;
    Some(v.get(key)?.as_str()?.to_owned())
}

/// Relies on `serde_json::from_str` into a `Value`, then `Value::get` and
/// `Value::as_u64`: the unsigned integer member `key`.
#[verifier::external_body]
fn u64_at(text: &str, key: &str) -> (r: Option<u64>)
    ensures
        r == json_u64_at(text@, key@),
{
    let v: serde_json::Value = serde_json::from_str(text).ok()?;
    v.get(key)?.as_u64()
}

/// Relies on `serde_json::from_str` into a `Value`, then `Value::get`,
/// `Value::as_array` and `Value::as_u64` on each element: the array member `key`.
#[verifier::external_body]
fn u64_list_at(text: &str, key: &str) -> (r: Option<Vec<Option<u64>>>)
    ensures
        r is None <==> json_u64_list_at(text@, key@) is None,
        r matches Some(l) ==> json_u64_list_at(text@, key@) == Some(l@),
{
    let v: serde_json::Value = serde_json::from_str(text).ok()?;
    Some(v.get(key)?.as_array()?.iter().map(serde_json::Value::as_u64).collect())
}

/// One reply of the sidecar, as the plain values that the protocol reads from
/// it. A field is `None` when the member is absent or of another JSON type.
#[derive(Debug, Clone)]
pub struct Reply {
    pub ok: Option<bool>,
    pub error: Option<String>,
    pub provider: Option<String>,
    pub device: Option<String>,
    pub fp16: Option<bool>,
    pub params: Option<u64>,
    pub policy: Option<String>,
    pub value: Option<String>,
    pub miscvalue: Option<String>,
    pub ownership: Option<String>,
    /// The members of the `policy_dims` array, each `None` where it is not an
    /// unsigned integer.
    pub policy_dims: Option<Vec<Option<u64>>>,
}

/// The text of an optional string.
pub open spec fn opt_text(s: Option<String>) -> Option<Seq<char>> {
    match s {
        Some(t) => Some(t@),
        None => None,
    }
}

/// The contents of an optional list.
pub open spec fn opt_list(l: Option<Vec<Option<u64>>>) -> Option<Seq<Option<u64>>> {
    match l {
        Some(v) => Some(v@),
        None => None,
    }
}

/// `rep` holds what the JSON object in `text` says, member by member.
pub open spec fn reply_of(rep: Reply, text: Seq<char>) -> bool {
    &&& rep.ok == json_bool_at(text, "ok"@)
    &&& opt_text(rep.error) == json_str_at(text, "error"@)
    &&& opt_text(rep.provider) == json_str_at(text, "provider"@)
    &&& opt_text(rep.device) == json_str_at(text, "device"@)
    &&& rep.fp16 == json_bool_at(text, "fp16"@)
    &&& rep.params == json_u64_at(text, "params"@)
    &&& opt_text(rep.policy) == json_str_at(text, "policy"@)
    &&& opt_text(rep.value) == json_str_at(text, "value"@)
    &&& opt_text(rep.miscvalue) == json_str_at(text, "miscvalue"@)
    &&& opt_text(rep.ownership) == json_str_at(text, "ownership"@)
    &&& opt_list(rep.policy_dims) == json_u64_list_at(text, "policy_dims"@)
}

fn text_at(text: &str, key: &str) -> (r: Option<String>)
    ensures
        opt_text(r) == json_str_at(text@, key@),
{
    str_at(text, key)
}

fn list_at(text: &str, key: &str) -> (r: Option<Vec<Option<u64>>>)
    ensures
        opt_list(r) == json_u64_list_at(text@, key@),
{
    u64_list_at(text, key)
}

/// Reads one reply line. An empty read means that the sidecar closed its
/// output: `ProcessDied`, never an empty reply. Text that is not JSON is a
/// `ProtocolError` that holds the text; JSON text gives the reply it spells.
pub fn read_reply(raw: &str) -> (r: Result<Reply, SidecarError>)
    ensures
        raw@.len() == 0 ==> r matches Err(SidecarError::ProcessDied),
        raw@.len() != 0 ==> (r is Ok <==> json_parses(raw@)),
        raw@.len() != 0 && !json_parses(raw@) ==> (r matches Err(SidecarError::ProtocolError(t))
            && t@ == raw@),
        r matches Ok(rep) ==> reply_of(rep, raw@),
{
    if raw.is_empty() {
        return Err(SidecarError::ProcessDied);
    }
    if !json_valid(raw) {
        return Err(SidecarError::ProtocolError(raw.to_owned()));
    }
    Ok(
        Reply {
            ok: bool_at(raw, "ok"),
            error: text_at(raw, "error"),
            provider: text_at(raw, "provider"),
            device: text_at(raw, "device"),
            fp16: bool_at(raw, "fp16"),
            params: u64_at(raw, "params"),
            policy: text_at(raw, "policy"),
            value: text_at(raw, "value"),
            miscvalue: text_at(raw, "miscvalue"),
            ownership: text_at(raw, "ownership"),
            policy_dims: list_at(raw, "policy_dims"),
        },
    )
}

/// What the sidecar reports about itself once the model is loaded.
#[derive(Debug, Clone, PartialEq, Eq)]
pub struct PyTorchInfo {
    pub provider: String,
    pub device: String,
    pub fp16: bool,
    pub params: u64,
}

/// A text member, or `default` when it is missing.
pub open spec fn text_or(field: Option<String>, default: Seq<char>) -> Seq<char> {
    match field {
        Some(t) => t@,
        None => default,
    }
}

/// The error text surfaced for a reply that does not say `ok: true`.
pub open spec fn remote_error_text(reply: Reply) -> Seq<char> {
    text_or(reply.error, "Unknown error"@)
}

/// The outcome of a reply that does not say `ok: true`.
pub open spec fn is_remote_error(e: SidecarError, reply: Reply) -> bool {
    e matches SidecarError::RemoteError(t) && t@ == remote_error_text(reply)
}

/// Whether a reply reports success; otherwise its error text (or a stock one
/// when it has none) as a `RemoteError`.
pub fn check_reply(reply: &Reply) -> (r: Result<(), SidecarError>)
    ensures
        reply.ok == Some(true) ==> r is Ok,
        reply.ok != Some(true) ==> (r matches Err(e) && is_remote_error(e, *reply)),
{
    match reply.ok {
        Some(true) => Ok(()),
        _ => {
            let text = match &reply.error {
                Some(e) => e.clone(),
                None => String::from_str("Unknown error"),
            };
            Err(SidecarError::RemoteError(text))
        },
    }
}

fn text_member_or(field: &Option<String>, default: &str) -> (r: String)
    ensures
        r@ == text_or(*field, default@),
{
    match field {
        Some(t) => t.clone(),
        None => default.to_owned(),
    }
}

/// The engine description in a reply to `init`; members that are missing take
/// the stock values `"pytorch"`, `"unknown"`, `false` and `0`.
pub fn engine_info(reply: &Reply) -> (r: Result<PyTorchInfo, SidecarError>)
    ensures
        reply.ok != Some(true) ==> (r matches Err(e) && is_remote_error(e, *reply)),
        reply.ok == Some(true) ==> (r matches Ok(info) && {
            &&& info.provider@ == text_or(reply.provider, "pytorch"@)
            &&& info.device@ == text_or(reply.device, "unknown"@)
            &&& info.fp16 == reply.fp16.unwrap_or(false)
            &&& info.params == reply.params.unwrap_or(0)
        }),
{
    match check_reply(reply) {
        Ok(()) => {},
        Err(e) => return Err(e),
    }
    let fp16 = match reply.fp16 {
        Some(b) => b,
        None => false,
    };
    let params = match reply.params {
        Some(n) => n,
        None => 0,
    };
    Ok(
        PyTorchInfo {
            provider: text_member_or(&reply.provider, "pytorch"),
            device: text_member_or(&reply.device, "unknown"),
            fp16,
            params,
        },
    )
}

/// The tensor in an optional member; a missing member is an empty tensor.
pub open spec fn field_tensor(field: Option<String>) -> Result<Seq<u32>, DecodeFault> {
    match field {
        Some(t) => decoded_tensor(t@),
        None => Ok(Seq::empty()),
    }
}

/// The first tensor member of an `infer` reply that does not decode, in the
/// order policy, value, miscvalue, ownership.
pub open spec fn first_fault(reply: Reply) -> Option<DecodeFault> {
    if field_tensor(reply.policy) is Err {
        Some(field_tensor(reply.policy)->Err_0)
    } else if field_tensor(reply.value) is Err {
        Some(field_tensor(reply.value)->Err_0)
    } else if field_tensor(reply.miscvalue) is Err {
        Some(field_tensor(reply.miscvalue)->Err_0)
    } else if field_tensor(reply.ownership) is Err {
        Some(field_tensor(reply.ownership)->Err_0)
    } else {
        None
    }
}

/// The unsigned integers among the members of a dimension list, in order.
pub open spec fn present_dims(s: Seq<Option<u64>>) -> Seq<usize>
    decreases s.len(),
{
    if s.len() == 0 {
        Seq::empty()
    } else {
        match s.last() {
            Some(n) => present_dims(s.drop_last()).push(n as usize),
            None => present_dims(s.drop_last()),
        }
    }
}

/// The policy shape in a reply; none when the member is missing.
pub open spec fn reply_dims(dims: Option<Vec<Option<u64>>>) -> Seq<usize> {
    match dims {
        Some(d) => present_dims(d@),
        None => Seq::empty(),
    }
}

fn tensor_member(field: &Option<String>) -> (r: Result<Vec<u32>, DecodeFault>)
    ensures
        match field_tensor(*field) {
            Ok(w) => r is Ok && r->Ok_0@ == w,
            Err(f) => r == Err::<Vec<u32>, DecodeFault>(f),
        },
{
    match field {
        Some(t) => decode_floats_base64(t.as_str()),
        None => Ok(Vec::new()),
    }
}

fn dims_member(dims: &Option<Vec<Option<u64>>>) -> (r: Vec<usize>)
    ensures
        r@ == reply_dims(*dims),
{
    let mut out: Vec<usize> = Vec::new();
    match dims {
        Some(d) => {
            let mut i: usize = 0;
            while i < d.len()
                invariant
                    i <= d@.len(),
                    out@ == present_dims(d@.take(i as int)),
                decreases d@.len() - i,
            {
                assert(d@.take(i + 1).drop_last() =~= d@.take(i as int));
                match d[i] {
                    Some(n) => out.push(n as usize),
                    None => {},
                }
                i = i + 1;
            }
            assert(d@.take(i as int) =~= d@);
        },
        None => {},
    }
    out
}

/// The raw outputs in a reply to `infer`: each tensor member decoded (a missing
/// one is empty, a missing ownership stays absent) and the policy shape.
pub fn inference_result(reply: &Reply) -> (r: Result<InferenceResult, SidecarError>)
    ensures
        reply.ok != Some(true) ==> (r matches Err(e) && is_remote_error(e, *reply)),
        reply.ok == Some(true) ==> match first_fault(*reply) {
            Some(f) => (r matches Err(SidecarError::DecodeError(g)) && g == f),
            None => (r matches Ok(res) && {
                &&& res.policy@ == field_tensor(reply.policy)->Ok_0
                &&& res.value@ == field_tensor(reply.value)->Ok_0
                &&& res.miscvalue@ == field_tensor(reply.miscvalue)->Ok_0
                &&& (res.ownership is Some <==> reply.ownership is Some)
                &&& res.ownership matches Some(o) ==> o@ == field_tensor(reply.ownership)->Ok_0
                &&& res.policy_dims@ == reply_dims(reply.policy_dims)
            }),
        },
{
    match check_reply(reply) {
        Ok(()) => {},
        Err(e) => return Err(e),
    }
    let policy = match tensor_member(&reply.policy) {
        Ok(t) => t,
        Err(f) => return Err(SidecarError::DecodeError(f)),
    };
    let value = match tensor_member(&reply.value) {
        Ok(t) => t,
        Err(f) => return Err(SidecarError::DecodeError(f)),
    };
    let miscvalue = match tensor_member(&reply.miscvalue) {
        Ok(t) => t,
        Err(f) => return Err(SidecarError::DecodeError(f)),
    };
    let ownership = match &reply.ownership {
        Some(t) => match decode_floats_base64(t.as_str()) {
            Ok(o) => Some(o),
            Err(f) => return Err(SidecarError::DecodeError(f)),
        },
        None => None,
    };
    let policy_dims = dims_member(&reply.policy_dims);
    Ok(InferenceResult { policy, value, miscvalue, ownership, policy_dims })
}

} // verus!
