//! A correctness oracle for collaborative-editing diffs.
//!
//! Given a stale text, a claimed latest text, and a JSON-encoded list of
//! skip/delete/insert operations, [`is_valid`] decides whether replaying
//! the operations against the stale text reproduces the latest text
//! exactly. Counts, cursor positions and lengths are measured in Unicode
//! scalar values (`char`s), consistently across all operations and bounds
//! checks.

use vstd::prelude::*;

mod decode;
mod ops;
mod replay;

pub use decode::arr_of;
pub use decode::chars_model;
pub use decode::count_model;
pub use decode::decode_model;
pub use decode::decode_operations;
pub use decode::field_of;
pub use decode::item_model;
pub use decode::items_model;
pub use decode::lemma_decode_model_err_is_parse_error;
pub use decode::parsed_of;
pub use decode::str_of;
pub use decode::u64_of;
pub use ops::OpModel;
pub use ops::Operation;
pub use ops::ValidationError;
pub use ops::ops_model;
pub use replay::is_noop;
pub use replay::lemma_count_boundary;
pub use replay::lemma_empty_ops_different_text;
pub use replay::lemma_empty_ops_same_text;
pub use replay::lemma_noop_insert_preserves_outcome;
pub use replay::lemma_noop_remove_preserves_outcome;
pub use replay::lemma_successful_replay_validates;
pub use replay::lemma_validate_model_no_parse_error;
pub use replay::replay_model;
pub use replay::step_model;
pub use replay::validate;
pub use replay::validate_model;

verus! {

/// The model of the whole check: decode the operation text, then judge the
/// replay of the decoded operations.
pub open spec fn is_valid_model(stale: Seq<char>, latest: Seq<char>, ot_json: Seq<char>) -> Result<
    (),
    ValidationError,
> {
    match decode_model(ot_json) {
        Ok(ops) => validate_model(stale, latest, ops),
        Err(e) => Err(e),
    }
}

/// Law: the check reports `ParseError` exactly when the operation text is
/// not a valid encoding — invalid syntax, a non-array document, an unknown
/// tag, a missing or mistyped field — and that verdict depends on the
/// operation text alone, never on `stale` or `latest`.
pub proof fn lemma_parse_error_iff_undecodable(
    stale: Seq<char>,
    latest: Seq<char>,
    ot_json: Seq<char>,
)
    ensures
        is_valid_model(stale, latest, ot_json) == Err::<(), ValidationError>(
            ValidationError::ParseError,
        ) <==> decode_model(ot_json) is Err,
{
    lemma_decode_model_err_is_parse_error(ot_json);
    match decode_model(ot_json) {
        Ok(ops) => lemma_validate_model_no_parse_error(stale, latest, ops),
        Err(_) => {},
    }
}

/// Check that replaying the JSON-encoded `ot_json` operations against
/// `stale` reproduces `latest` exactly.
///
/// The result is exactly `is_valid_model` of the three texts: `ParseError`
/// when and only when `ot_json` does not decode, and the replay's verdict
/// on the decoded operations otherwise.
pub fn is_valid(stale: &str, latest: &str, ot_json: &str) -> (r: Result<(), ValidationError>)
    ensures
        r == is_valid_model(stale@, latest@, ot_json@),
{
    let ops = match decode_operations(ot_json) {
        Ok(ops) => ops,
        Err(e) => return Err(e),
    };
    validate(stale, latest, &ops)
}

} // verus!
