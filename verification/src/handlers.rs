//! The inbound boundary for control updates: a request is validated, its
//! items are serialized to the JSON array value, and
//! the merge-upsert coordinator persists it under the `controls` key of the
//! character's document.  Validation happens before any storage access, so
//! a rejected request leaves the store untouched.

use vstd::prelude::*;
use vstd::string::*;
use crate::database::{Database, spec_store_error_message};
use crate::document::json_value_ok;
use crate::models::{
    ErrorResponse, UpdateControlsRequest, controls_to_json, request_error, spec_controls_json,
};
use crate::upsert::{ApplyError, apply_ok, stored_doc};

verus! {

/// How a control update fails: with a client error from validation, or a
/// server error from storage or the stored data.
#[derive(Debug)]
pub enum UpdateControlsFailure {
    /// The request failed validation; answered with a
    /// client-error status.
    BadRequest(ErrorResponse),
    /// Storage or the stored data failed after validation; answered with a
    /// server-error status, carrying the cause.
    Internal(ErrorResponse, ApplyError),
}

/// The user-facing text of each way a partial update fails.
pub open spec fn spec_apply_error_message(e: ApplyError) -> Seq<char> {
    match e {
        ApplyError::InvalidValue => "Failed to serialize character data: the controls are not a JSON value"@,
        ApplyError::CorruptPayload => "Failed to parse existing character data: stored data is not a JSON object"@,
        ApplyError::Query(s) => "Database query error: "@ + spec_store_error_message(s),
        ApplyError::Write(s) => "Failed to update character: "@ + spec_store_error_message(s),
        ApplyError::Insert(s) => "Failed to insert character: "@ + spec_store_error_message(s),
    }
}

/// The user-facing text of a partial-update failure.
pub fn apply_error_message(e: &ApplyError) -> (r: String)
    ensures
        r@ == spec_apply_error_message(*e),
{
    match e {
        ApplyError::InvalidValue => "Failed to serialize character data: the controls are not a JSON value".to_owned(),
        ApplyError::CorruptPayload => "Failed to parse existing character data: stored data is not a JSON object".to_owned(),
        ApplyError::Query(s) => {
            let mut m = "Database query error: ".to_owned();
            m.append(s.message().as_str());
            m
        },
        ApplyError::Write(s) => {
            let mut m = "Failed to update character: ".to_owned();
            m.append(s.message().as_str());
            m
        },
        ApplyError::Insert(s) => {
            let mut m = "Failed to insert character: ".to_owned();
            m.append(s.message().as_str());
            m
        },
    }
}

/// Validates the request, serializes its items, and merges them under the
/// `controls` key of the character's document, creating the character when
/// `(name, game)` is unknown.  Returns the identity of the affected
/// character.  A request that fails validation is rejected before any
/// storage access, a client-error rejection comes only from a failed
/// validation, and any failure leaves the store unchanged.
pub fn update_controls(db: &mut Database, payload: &UpdateControlsRequest) -> (r: Result<
    String,
    UpdateControlsFailure,
>)
    ensures
        r matches Err(_) ==> final(db).characters() == old(db).characters() && final(db).objects()
            == old(db).objects() && final(db).ownerships() == old(db).ownerships() && final(db).spec_created() == old(db).spec_created(),
        request_error(*payload) matches Some(m) ==> r matches Err(
            UpdateControlsFailure::BadRequest(resp),
        ) && resp.success == false && resp.error@ == "Validation error: "@ + m,
        r matches Err(UpdateControlsFailure::BadRequest(resp)) ==> request_error(
            *payload,
        ) matches Some(m) && resp.success == false && resp.error@ == "Validation error: "@ + m,
        r matches Ok(u) ==> request_error(*payload) is None && apply_ok(
            *old(db),
            *final(db),
            payload.character_name@,
            payload.game@,
            "controls"@,
            spec_controls_json(payload.controls@),
            u@,
        ),
        r matches Err(UpdateControlsFailure::Internal(resp, cause)) ==> request_error(
            *payload,
        ) is None && resp.success == false && resp.error@ == spec_apply_error_message(cause) && (
        cause is InvalidValue <==> !json_value_ok(spec_controls_json(payload.controls@))) && (
        cause is CorruptPayload ==> stored_doc(
            *old(db),
            payload.character_name@,
            payload.game@,
        ) is None) && ((cause matches ApplyError::Write(_) || cause matches ApplyError::Insert(_))
            ==> stored_doc(*old(db), payload.character_name@, payload.game@) is Some),
{
    match payload.validate() {
        Ok(()) => {},
        Err(m) => {
            let mut text = "Validation error: ".to_owned();
            text.append(m.as_str());
            return Err(
                UpdateControlsFailure::BadRequest(ErrorResponse { success: false, error: text }),
            );
        },
    }
    let controls_json = controls_to_json(&payload.controls);
    let outcome = db.apply_partial_update(
        payload.character_name.as_str(),
        payload.game.as_str(),
        "controls",
        controls_json.as_str(),
    );
    match outcome {
        Ok(u) => Ok(u),
        Err(e) => {
            let text = apply_error_message(&e);
            Err(
                UpdateControlsFailure::Internal(
                    ErrorResponse { success: false, error: text },
                    e,
                ),
            )
        },
    }
}

} // verus!
