use vstd::prelude::*;

use crate::api::ApiClientError;
use crate::hexstr::{hash_from_hex, hex_bytes, hex_encoded, hex_payload, hex_valid, prefixed_hex};
use crate::json::{
    i64_at, json_i64_at, json_object_at, json_parses, json_str_at, json_text_at, object_at,
    parse_json, str_at, text_at,
};
use crate::node_metadata::StorageKey;
use crate::text::{i64_to_decimal, opt_view, signed_decimal};

verus! {

/// How far an extrinsic has come.
#[derive(Debug, Clone, Copy, PartialEq, Eq, Structural)]
pub enum XtStatus {
    Unknown,
    Ready,
    Broadcast,
    InBlock,
    Finalized,
    Future,
    Error,
}

/// The rank of a status on the way to finality; statuses off that way rank lowest.
pub open spec fn spec_status_numeric(status: XtStatus) -> i32 {
    match status {
        XtStatus::Finalized => 3i32,
        XtStatus::InBlock => 2i32,
        XtStatus::Broadcast => 1i32,
        XtStatus::Ready => 0i32,
        XtStatus::Future => -1i32,
        XtStatus::Error => -1i32,
        XtStatus::Unknown => -1i32,
    }
}

/// The rank of a status on the way to finality.
pub fn status_numeric(status: &XtStatus) -> (n: i32)
    ensures
        n == spec_status_numeric(*status),
{
    match status {
        XtStatus::Finalized => 3,
        XtStatus::InBlock => 2,
        XtStatus::Broadcast => 1,
        XtStatus::Ready => 0,
        XtStatus::Future => -1,
        XtStatus::Error => -1,
        XtStatus::Unknown => -1,
    }
}

/// Whether an extrinsic at `current_status` has come as far as `need_status`.
pub fn status_reached(current_status: &XtStatus, need_status: &XtStatus) -> (reached: bool)
    ensures
        reached == (spec_status_numeric(*need_status) <= spec_status_numeric(*current_status)),
{
    status_numeric(need_status) <= status_numeric(current_status)
}

/// Reaching a status is a total preorder: every status reaches itself, a
/// status that reaches another reaches all that the other reaches, and of
/// two statuses one reaches the other. A finalized extrinsic reaches every
/// status.
pub proof fn lemma_status_reached_order(a: XtStatus, b: XtStatus, c: XtStatus)
    ensures
        spec_status_numeric(a) <= spec_status_numeric(a),
        spec_status_numeric(b) <= spec_status_numeric(a) && spec_status_numeric(c)
            <= spec_status_numeric(b) ==> spec_status_numeric(c) <= spec_status_numeric(a),
        spec_status_numeric(b) <= spec_status_numeric(a) || spec_status_numeric(a)
            <= spec_status_numeric(b),
        spec_status_numeric(a) <= spec_status_numeric(XtStatus::Finalized),
{
}

/// The name of a status, as its `Debug` form writes it.
pub open spec fn status_name(status: XtStatus) -> Seq<char> {
    match status {
        XtStatus::Unknown => "Unknown"@,
        XtStatus::Ready => "Ready"@,
        XtStatus::Broadcast => "Broadcast"@,
        XtStatus::InBlock => "InBlock"@,
        XtStatus::Finalized => "Finalized"@,
        XtStatus::Future => "Future"@,
        XtStatus::Error => "Error"@,
    }
}

fn status_name_str(status: &XtStatus) -> (name: &'static str)
    ensures
        name@ == status_name(*status),
{
    match status {
        XtStatus::Unknown => "Unknown",
        XtStatus::Ready => "Ready",
        XtStatus::Broadcast => "Broadcast",
        XtStatus::InBlock => "InBlock",
        XtStatus::Finalized => "Finalized",
        XtStatus::Future => "Future",
        XtStatus::Error => "Error",
    }
}

// ------------------------------------------------------------ status messages

/// What a status message says: a status and the JSON text of the hash or
/// peer list that comes with it, or the text of an extrinsic error.
pub enum StatusOutcome {
    Reached(XtStatus, Option<Seq<char>>),
    Failed(Seq<char>),
}

/// The string at `pointer` when a value stands there, or an empty string.
pub open spec fn present_str(doc: Seq<char>, pointer: Seq<char>) -> Seq<char> {
    if json_text_at(doc, pointer) is Some {
        json_str_at(doc, pointer)->0
    } else {
        Seq::empty()
    }
}

/// The error code when one stands in the error object, or -1.
pub open spec fn present_code(doc: Seq<char>) -> int {
    if json_text_at(doc, "/error/code"@) is Some {
        json_i64_at(doc, "/error/code"@)->0 as int
    } else {
        -1
    }
}

/// The text of an extrinsic error: its code, message and data.
pub open spec fn extrinsic_error_text(doc: Seq<char>) -> Seq<char> {
    "extrinsic error code "@ + signed_decimal(present_code(doc)) + ": "@ + present_str(
        doc,
        "/error/message"@,
    ) + ": "@ + present_str(doc, "/error/data"@)
}

/// The fields of an error object that are present have the expected types:
/// the message and data are strings, the code an `i64`.
pub open spec fn error_fields_typed(doc: Seq<char>) -> bool {
    json_object_at(doc, "/error"@) ==> {
        &&& json_text_at(doc, "/error/message"@) is Some ==> json_str_at(
            doc,
            "/error/message"@,
        ) is Some
        &&& json_text_at(doc, "/error/code"@) is Some ==> json_i64_at(doc, "/error/code"@) is Some
        &&& json_text_at(doc, "/error/data"@) is Some ==> json_str_at(doc, "/error/data"@) is Some
    }
}

/// What a message says whose status stands at the JSON pointer `result`.
pub open spec fn status_outcome(doc: Seq<char>, result: Seq<char>) -> StatusOutcome {
    if json_object_at(doc, "/error"@) {
        StatusOutcome::Failed(extrinsic_error_text(doc))
    } else if json_object_at(doc, result) {
        if json_text_at(doc, result + "/finalized"@) is Some {
            StatusOutcome::Reached(XtStatus::Finalized, json_text_at(doc, result + "/finalized"@))
        } else if json_text_at(doc, result + "/inBlock"@) is Some {
            StatusOutcome::Reached(XtStatus::InBlock, json_text_at(doc, result + "/inBlock"@))
        } else if json_text_at(doc, result + "/broadcast"@) is Some {
            StatusOutcome::Reached(XtStatus::Broadcast, json_text_at(doc, result + "/broadcast"@))
        } else {
            StatusOutcome::Reached(XtStatus::Unknown, None)
        }
    } else {
        match json_str_at(doc, result) {
            Some(s) => if s == "ready"@ {
                StatusOutcome::Reached(XtStatus::Ready, None)
            } else if s == "future"@ {
                StatusOutcome::Reached(XtStatus::Future, None)
            } else if s == "invalid"@ {
                StatusOutcome::Failed("Transaction is invalid or lifetime expired"@)
            } else {
                StatusOutcome::Reached(XtStatus::Unknown, None)
            },
            None => StatusOutcome::Reached(XtStatus::Unknown, None),
        }
    }
}

/// What the parse of a status message returns for the outcome it says.
pub open spec fn status_result_matches(
    r: Result<(XtStatus, Option<String>), ApiClientError>,
    doc: Seq<char>,
    result: Seq<char>,
) -> bool {
    &&& !json_parses(doc) ==> (r matches Err(ApiClientError::Deserializing(_)))
    &&& json_parses(doc) ==> match status_outcome(doc, result) {
        StatusOutcome::Reached(s, h) => r matches Ok((s2, h2)) && s2 == s && opt_view(h2) == h,
        StatusOutcome::Failed(m) => r matches Err(ApiClientError::Extrinsic(e)) && e@ == m,
    }
}

/// The string at `pointer` when a value stands there, or an empty string.
fn present_string(doc: &str, pointer: &str) -> (s: String)
    requires
        json_text_at(doc@, pointer@) is Some ==> json_str_at(doc@, pointer@) is Some,
    ensures
        s@ == present_str(doc@, pointer@),
{
    match text_at(doc, pointer) {
        Some(_) => match str_at(doc, pointer) {
            Some(s) => s,
            None => String::new(),
        },
        None => String::new(),
    }
}

/// The error that an error object in `doc` reports.
fn extrinsic_error(doc: &str) -> (e: ApiClientError)
    requires
        json_object_at(doc@, "/error"@),
        error_fields_typed(doc@),
    ensures
        e matches ApiClientError::Extrinsic(m) && m@ == extrinsic_error_text(doc@),
{
    let error = present_string(doc, "/error/message");
    let code: i64 = match text_at(doc, "/error/code") {
        Some(_) => match i64_at(doc, "/error/code") {
            Some(c) => c,
            None => -1,
        },
        None => -1,
    };
    let details = present_string(doc, "/error/data");
    let mut msg = String::from_str("extrinsic error code ");
    let code_text = i64_to_decimal(code);
    msg.append(code_text.as_str());
    msg.append(": ");
    msg.append(error.as_str());
    msg.append(": ");
    msg.append(details.as_str());
    assert(msg@ =~= extrinsic_error_text(doc@));
    ApiClientError::Extrinsic(msg)
}

fn pointer_below(base: &str, member: &str) -> (p: String)
    ensures
        p@ == base@ + member@,
{
    let mut p = String::from_str(base);
    p.append(member);
    p
}

/// Reads the status of a message whose status stands at the JSON pointer `result`.
fn status_at(doc: &str, result: &str) -> (r: Result<(XtStatus, Option<String>), ApiClientError>)
    requires
        error_fields_typed(doc@),
    ensures
        status_result_matches(r, doc@, result@),
{
    match parse_json(doc) {
        Ok(()) => {},
        Err(e) => return Err(ApiClientError::Deserializing(e)),
    }
    if object_at(doc, "/error") {
        return Err(extrinsic_error(doc));
    }
    if object_at(doc, result) {
        let finalized = text_at(doc, pointer_below(result, "/finalized").as_str());
        if finalized.is_some() {
            return Ok((XtStatus::Finalized, finalized));
        }
        let in_block = text_at(doc, pointer_below(result, "/inBlock").as_str());
        if in_block.is_some() {
            return Ok((XtStatus::InBlock, in_block));
        }
        let broadcast = text_at(doc, pointer_below(result, "/broadcast").as_str());
        if broadcast.is_some() {
            return Ok((XtStatus::Broadcast, broadcast));
        }
        Ok((XtStatus::Unknown, None))
    } else {
        match str_at(doc, result) {
            Some(s) => {
                if s == String::from_str("ready") {
                    Ok((XtStatus::Ready, None))
                } else if s == String::from_str("future") {
                    Ok((XtStatus::Future, None))
                } else if s == String::from_str("invalid") {
                    Err(
                        ApiClientError::Extrinsic(
                            String::from_str("Transaction is invalid or lifetime expired"),
                        ),
                    )
                } else {
                    Ok((XtStatus::Unknown, None))
                }
            },
            None => Ok((XtStatus::Unknown, None)),
        }
    }
}

/// Whether the error object of `doc`, if it has one, has fields of the
/// expected types.
pub fn error_fields_well_typed(doc: &str) -> (typed: bool)
    ensures
        typed == error_fields_typed(doc@),
{
    if !object_at(doc, "/error") {
        return true;
    }
    let message_ok = text_at(doc, "/error/message").is_none() || str_at(
        doc,
        "/error/message",
    ).is_some();
    let code_ok = text_at(doc, "/error/code").is_none() || i64_at(doc, "/error/code").is_some();
    let data_ok = text_at(doc, "/error/data").is_none() || str_at(doc, "/error/data").is_some();
    message_ok && code_ok && data_ok
}

/// The status that a JSON-RPC message of an extrinsic subscription reports
/// under `params.result`, with the JSON text of the hash or peer list that
/// comes with it.
pub fn parse_status(msg: &str) -> (r: Result<(XtStatus, Option<String>), ApiClientError>)
    requires
        error_fields_typed(msg@),
    ensures
        status_result_matches(r, msg@, "/params/result"@),
{
    status_at(msg, "/params/result")
}

/// [`parse_status`] for any message: `None` when an error field of the
/// message has the wrong type.
pub fn checked_parse_status(msg: &str) -> (r: Option<
    Result<(XtStatus, Option<String>), ApiClientError>,
>)
    ensures
        r is None <==> !error_fields_typed(msg@),
        r matches Some(res) ==> status_result_matches(res, msg@, "/params/result"@),
{
    if error_fields_well_typed(msg) {
        Some(parse_status(msg))
    } else {
        None
    }
}

/// The status that one update of an extrinsic subscription reports at its top level.
pub fn parse_status_update(update: &str) -> (r: Result<(XtStatus, Option<String>), ApiClientError>)
    requires
        error_fields_typed(update@),
    ensures
        status_result_matches(r, update@, Seq::empty()),
{
    let r = status_at(update, "");
    proof {
        reveal_strlit("");
    }
    assert(""@ =~= Seq::<char>::empty());
    r
}

// ------------------------------------------------------------ waiting for a status

/// Where waiting for an extrinsic stands after an update.
#[derive(Debug, PartialEq, Eq)]
pub enum ExtrinsicProgress {
    /// Not yet at the awaited status.
    Pending,
    /// Done: with the hash of the block when the update carried one.
    Done(Option<Vec<u8>>),
}

/// Whether `r` is what waiting for `exit_on` makes of the subscription
/// update `update`: a future extrinsic ends the wait with nothing; an update
/// that reaches `exit_on` ends it with the hash it carries; any other update
/// leaves it pending.
pub open spec fn progress_matches(
    r: Result<ExtrinsicProgress, ApiClientError>,
    update: Seq<char>,
    exit_on: XtStatus,
) -> bool {
    &&& !json_parses(update) ==> (r matches Err(ApiClientError::Deserializing(_)))
    &&& json_parses(update) ==> match status_outcome(update, Seq::empty()) {
            StatusOutcome::Failed(m) => r matches Err(ApiClientError::Extrinsic(e)) && e@ == m,
            StatusOutcome::Reached(s, h) => if s == XtStatus::Future {
                r matches Ok(ExtrinsicProgress::Done(None))
            } else if spec_status_numeric(exit_on) <= spec_status_numeric(s) {
                match h {
                    None => r matches Ok(ExtrinsicProgress::Done(None)),
                    Some(x) => {
                        let p = hex_payload(x);
                        &&& r is Ok <==> hex_valid(p) && hex_bytes(p).len() == 32
                        &&& r is Ok ==> (r matches Ok(ExtrinsicProgress::Done(Some(b)))
                            && b@ == hex_bytes(p))
                        &&& r is Err ==> (r matches Err(ApiClientError::InvalidHexString(_)))
                    },
                }
            } else {
                r matches Ok(ExtrinsicProgress::Pending)
            },
        }
}

/// What an update of an extrinsic subscription means for one that waits
/// for `exit_on` (see [`progress_matches`]).
pub fn extrinsic_progress(update: &str, exit_on: &XtStatus) -> (r: Result<
    ExtrinsicProgress,
    ApiClientError,
>)
    requires
        error_fields_typed(update@),
    ensures
        progress_matches(r, update@, *exit_on),
{
    let (status, val) = match parse_status_update(update) {
        Ok(sv) => sv,
        Err(e) => return Err(e),
    };
    if status == XtStatus::Future {
        return Ok(ExtrinsicProgress::Done(None));
    }
    if status_reached(&status, exit_on) {
        match val {
            None => Ok(ExtrinsicProgress::Done(None)),
            Some(x) => match hash_from_hex(x.as_str()) {
                Ok(h) => Ok(ExtrinsicProgress::Done(Some(h))),
                Err(e) => Err(ApiClientError::InvalidHexString(e)),
            },
        }
    } else {
        Ok(ExtrinsicProgress::Pending)
    }
}

/// [`extrinsic_progress`] for any update: `None` when an error field of the
/// update has the wrong type.
pub fn checked_extrinsic_progress(update: &str, exit_on: &XtStatus) -> (r: Option<
    Result<ExtrinsicProgress, ApiClientError>,
>)
    ensures
        r is None <==> !error_fields_typed(update@),
        r matches Some(res) ==> progress_matches(res, update@, *exit_on),
{
    if error_fields_well_typed(update) {
        Some(extrinsic_progress(update, exit_on))
    } else {
        None
    }
}

/// The error when the subscription ends before the extrinsic reached `exit_on`.
pub fn subscription_ended(exit_on: &XtStatus) -> (e: ApiClientError)
    ensures
        e matches ApiClientError::Extrinsic(m) && m@
            == "Subscription ended before reaching desired status "@ + status_name(*exit_on),
{
    let mut msg = String::from_str("Subscription ended before reaching desired status ");
    msg.append(status_name_str(exit_on));
    ApiClientError::Extrinsic(msg)
}


/// Waiting for an extrinsic ends with the error that reading the update
/// gives, whenever reading it fails: an error object or the status
/// "invalid" ends the wait with the same extrinsic error text, and an
/// update that is not JSON with a deserializing error; such an update never
/// leaves the wait pending nor ends it with a hash.
pub proof fn lemma_failed_update_ends_wait(
    update: Seq<char>,
    exit_on: XtStatus,
    parsed: Result<(XtStatus, Option<String>), ApiClientError>,
    progress: Result<ExtrinsicProgress, ApiClientError>,
)
    requires
        status_result_matches(parsed, update, Seq::empty()),
        progress_matches(progress, update, exit_on),
    ensures
        parsed is Err ==> progress is Err,
        parsed matches Err(ApiClientError::Extrinsic(m)) ==> (progress matches Err(
            ApiClientError::Extrinsic(n),
        ) && n@ == m@),
        parsed matches Err(ApiClientError::Deserializing(_)) ==> (progress matches Err(
            ApiClientError::Deserializing(_),
        )),
        parsed is Ok ==> progress is Ok || (progress matches Err(
            ApiClientError::InvalidHexString(_),
        )),
{
}

} // verus!
