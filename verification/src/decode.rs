use vstd::prelude::*;
use vstd::string::StrSliceExecFns;

use crate::ops::{OpModel, Operation, ValidationError, ops_model};

verus! {

// --- The trusted boundary around serde_json -------------------------------
//
// The names below stand for what serde_json's pure functions return: the
// parsed tree of a text, and what a tree value holds. Each is a function
// of its arguments alone, and each is applied by the contract of exactly
// one trusted item.

/// Declares serde_json's JSON tree type; its values are opaque here and
/// are only carried between the trusted calls below.
#[verifier::external_type_specification]
#[verifier::external_body]
pub struct ExValue(serde_json::Value);

/// Declares serde_json's error type; a value of it is only ever mapped to
/// `ParseError`.
#[verifier::external_type_specification]
#[verifier::external_body]
pub struct ExError(serde_json::Error);

/// The tree that serde_json parses a text into: `Some` exactly on
/// syntactically valid JSON.
pub uninterp spec fn parsed_of(s: Seq<char>) -> Option<serde_json::Value>;

/// The elements of a tree value, in order: `Some` exactly when it is a
/// JSON array.
pub uninterp spec fn arr_of(v: serde_json::Value) -> Option<Seq<serde_json::Value>>;

/// The text of a tree value: `Some` exactly when it is a JSON string.
pub uninterp spec fn str_of(v: serde_json::Value) -> Option<Seq<char>>;

/// The integer of a tree value: `Some` exactly when it is an integer
/// between zero and u64::MAX.
pub uninterp spec fn u64_of(v: serde_json::Value) -> Option<u64>;

/// The field of a tree value under a key: `Some` exactly when the value is
/// an object that has that key.
pub uninterp spec fn field_of(v: serde_json::Value, key: Seq<char>) -> Option<serde_json::Value>;

/// Relies on serde_json::from_str::<Value>: parse JSON text into a value
/// tree, succeeding exactly on syntactically valid input; the tree is a
/// function of the text alone.
#[verifier::external_body]
fn parse_json_text(s: &str) -> (r: Result<serde_json::Value, serde_json::Error>)
    ensures
        match r {
            Ok(v) => parsed_of(s@) == Some(v),
            Err(_) => parsed_of(s@) is None,
        },
{
    serde_json::from_str(s)
}

/// Relies on serde_json::Value::as_array: Some exactly when the value is a
/// JSON array, handing out its elements in order.
pub assume_specification[ serde_json::Value::as_array ](v: &serde_json::Value) -> (r: Option<
    &Vec<serde_json::Value>,
>)
    ensures
        match r {
            Some(a) => arr_of(*v) == Some(a@),
            None => arr_of(*v) is None,
        },
;

/// Relies on serde_json::Value::as_str: Some exactly when the value is a
/// JSON string.
pub assume_specification[ serde_json::Value::as_str ](v: &serde_json::Value) -> (r: Option<&str>)
    ensures
        match r {
            Some(s) => str_of(*v) == Some(s@),
            None => str_of(*v) is None,
        },
;

/// Relies on serde_json::Value::as_u64: Some exactly when the value is an
/// integer between zero and u64::MAX.
pub assume_specification[ serde_json::Value::as_u64 ](v: &serde_json::Value) -> (r: Option<u64>)
    ensures
        r == u64_of(*v),
;

/// Relies on serde_json::Value::get with a string key: Some exactly when
/// the value is an object that has that key. On a key the document
/// repeated, the tree holds the value parsed last.
#[verifier::external_body]
fn get_field<'a>(v: &'a serde_json::Value, key: &str) -> (r: Option<&'a serde_json::Value>)
    ensures
        match r {
            Some(f) => field_of(*v, key@) == Some(*f),
            None => field_of(*v, key@) is None,
        },
{
    v.get(key)
}

// --- The spec-level decoding of the parsed tree ---------------------------

/// The `count` field of one operation object: present, an integer, and
/// small enough for the platform's word, else a parse failure.
pub open spec fn count_model(v: serde_json::Value) -> Result<nat, ValidationError> {
    match field_of(v, "count"@) {
        Some(c) => match u64_of(c) {
            Some(n) => {
                if n <= usize::MAX as u64 {
                    Ok(n as nat)
                } else {
                    Err(ValidationError::ParseError)
                }
            },
            None => Err(ValidationError::ParseError),
        },
        None => Err(ValidationError::ParseError),
    }
}

/// The `chars` field of one operation object: present and a string, else a
/// parse failure.
pub open spec fn chars_model(v: serde_json::Value) -> Result<Seq<char>, ValidationError> {
    match field_of(v, "chars"@) {
        Some(c) => match str_of(c) {
            Some(s) => Ok(s),
            None => Err(ValidationError::ParseError),
        },
        None => Err(ValidationError::ParseError),
    }
}

/// One operation object: an `op` tag of `skip`, `delete` or `insert`, and
/// the field that variant requires.
pub open spec fn item_model(v: serde_json::Value) -> Result<OpModel, ValidationError> {
    match field_of(v, "op"@) {
        Some(t) => match str_of(t) {
            Some(tag) => {
                if tag == "skip"@ {
                    match count_model(v) {
                        Ok(count) => Ok(OpModel::Skip { count }),
                        Err(e) => Err(e),
                    }
                } else if tag == "delete"@ {
                    match count_model(v) {
                        Ok(count) => Ok(OpModel::Delete { count }),
                        Err(e) => Err(e),
                    }
                } else if tag == "insert"@ {
                    match chars_model(v) {
                        Ok(chars) => Ok(OpModel::Insert { chars }),
                        Err(e) => Err(e),
                    }
                } else {
                    Err(ValidationError::ParseError)
                }
            },
            None => Err(ValidationError::ParseError),
        },
        None => Err(ValidationError::ParseError),
    }
}

/// The elements of the array, decoded in order; the first ill-formed
/// element decides the failure.
pub open spec fn items_model(items: Seq<serde_json::Value>) -> Result<Seq<OpModel>, ValidationError>
    decreases items.len(),
{
    if items.len() == 0 {
        Ok(Seq::<OpModel>::empty())
    } else {
        match item_model(items[0]) {
            Ok(op) => match items_model(items.skip(1)) {
                Ok(rest) => Ok(seq![op] + rest),
                Err(e) => Err(e),
            },
            Err(e) => Err(e),
        }
    }
}

/// The whole decoding of a text: it must parse as JSON, the tree must be
/// an array, and each element one well-formed operation object.
pub open spec fn decode_model(s: Seq<char>) -> Result<Seq<OpModel>, ValidationError> {
    match parsed_of(s) {
        Some(v) => match arr_of(v) {
            Some(items) => items_model(items),
            None => Err(ValidationError::ParseError),
        },
        None => Err(ValidationError::ParseError),
    }
}

/// Law: decoding fails only as `ParseError`, never as any other kind.
pub proof fn lemma_decode_model_err_is_parse_error(s: Seq<char>)
    ensures
        decode_model(s) matches Err(e) ==> e == ValidationError::ParseError,
{
    match parsed_of(s) {
        Some(v) => match arr_of(v) {
            Some(items) => lemma_items_model_err_is_parse_error(items),
            None => {},
        },
        None => {},
    }
}

/// Every failure of the element-wise decoding is a `ParseError`.
proof fn lemma_items_model_err_is_parse_error(items: Seq<serde_json::Value>)
    ensures
        items_model(items) matches Err(e) ==> e == ValidationError::ParseError,
    decreases items.len(),
{
    if items.len() != 0 {
        lemma_items_model_err_is_parse_error(items.skip(1));
    }
}

// --- The verified decoder --------------------------------------------------

/// Compare two texts character by character.
fn str_eq(a: &str, b: &str) -> (r: bool)
    ensures
        r == (a@ == b@),
{
    let alen = a.unicode_len();
    let blen = b.unicode_len();
    if alen != blen {
        return false;
    }
    let mut i: usize = 0;
    while i < alen
        invariant
            i <= alen,
            alen == a@.len(),
            a@.len() == b@.len(),
            forall|k: int| 0 <= k < i ==> a@[k] == b@[k],
        decreases alen - i,
    {
        if a.get_char(i) != b.get_char(i) {
            return false;
        }
        i = i + 1;
    }
    proof {
        assert(a@ =~= b@);
    }
    true
}

/// Read the `count` field of one operation object, exactly as
/// `count_model` reads it.
fn count_field(item: &serde_json::Value) -> (r: Result<usize, ValidationError>)
    ensures
        match r {
            Ok(c) => count_model(*item) == Ok::<nat, ValidationError>(c as nat),
            Err(e) => count_model(*item) == Err::<nat, ValidationError>(e),
        },
{
    match get_field(item, "count") {
        Some(v) => match v.as_u64() {
            Some(c) => {
                if c <= usize::MAX as u64 {
                    Ok(c as usize)
                } else {
                    Err(ValidationError::ParseError)
                }
            },
            None => Err(ValidationError::ParseError),
        },
        None => Err(ValidationError::ParseError),
    }
}

/// Read the `chars` field of one operation object, exactly as
/// `chars_model` reads it.
fn chars_field(item: &serde_json::Value) -> (r: Result<String, ValidationError>)
    ensures
        match r {
            Ok(s) => chars_model(*item) == Ok::<Seq<char>, ValidationError>(s@),
            Err(e) => chars_model(*item) == Err::<Seq<char>, ValidationError>(e),
        },
{
    match get_field(item, "chars") {
        Some(v) => match v.as_str() {
            Some(s) => Ok(s.to_owned()),
            None => Err(ValidationError::ParseError),
        },
        None => Err(ValidationError::ParseError),
    }
}

/// Decode one operation object, exactly as `item_model` reads it.
fn decode_item(item: &serde_json::Value) -> (r: Result<Operation, ValidationError>)
    ensures
        match r {
            Ok(op) => item_model(*item) == Ok::<OpModel, ValidationError>(op@),
            Err(e) => item_model(*item) == Err::<OpModel, ValidationError>(e),
        },
{
    let tag_value = match get_field(item, "op") {
        Some(t) => t,
        None => {
            return Err(ValidationError::ParseError);
        },
    };
    let tag = match tag_value.as_str() {
        Some(s) => s,
        None => {
            return Err(ValidationError::ParseError);
        },
    };
    if str_eq(tag, "skip") {
        match count_field(item) {
            Ok(count) => Ok(Operation::Skip { count }),
            Err(e) => Err(e),
        }
    } else if str_eq(tag, "delete") {
        match count_field(item) {
            Ok(count) => Ok(Operation::Delete { count }),
            Err(e) => Err(e),
        }
    } else if str_eq(tag, "insert") {
        match chars_field(item) {
            Ok(chars) => Ok(Operation::Insert { chars }),
            Err(e) => Err(e),
        }
    } else {
        Err(ValidationError::ParseError)
    }
}

/// Decode the JSON operation list into `Operation` values, in array order.
///
/// The result is exactly `decode_model` of the text: `Ok` with the decoded
/// operations when the text parses as an array of well-formed operation
/// objects, and the model's failure — always `ParseError` — otherwise.
pub fn decode_operations(ot_json: &str) -> (r: Result<Vec<Operation>, ValidationError>)
    ensures
        match r {
            Ok(ops) => decode_model(ot_json@) == Ok::<Seq<OpModel>, ValidationError>(
                ops_model(ops@),
            ),
            Err(e) => decode_model(ot_json@) == Err::<Seq<OpModel>, ValidationError>(e),
        },
{
    let parsed = match parse_json_text(ot_json) {
        Ok(v) => v,
        Err(_) => {
            return Err(ValidationError::ParseError);
        },
    };
    let items = match parsed.as_array() {
        Some(a) => a,
        None => {
            return Err(ValidationError::ParseError);
        },
    };
    let ghost tree = items@;
    proof {
        assert(decode_model(ot_json@) == items_model(tree));
    }
    let mut ops: Vec<Operation> = Vec::new();
    let mut idx: usize = 0;
    proof {
        assert(tree.skip(0) =~= tree);
        assert(ops_model(ops@) =~= Seq::<OpModel>::empty());
        match items_model(tree) {
            Ok(rest) => {
                assert(Seq::<OpModel>::empty() + rest =~= rest);
            },
            Err(_) => {},
        }
    }
    while idx < items.len()
        invariant
            idx <= tree.len(),
            tree == items@,
            decode_model(ot_json@) == items_model(tree),
            match items_model(tree.skip(idx as int)) {
                Ok(rest) => items_model(tree) == Ok::<Seq<OpModel>, ValidationError>(
                    ops_model(ops@) + rest,
                ),
                Err(e) => items_model(tree) == Err::<Seq<OpModel>, ValidationError>(e),
            },
        decreases tree.len() - idx,
    {
        let ghost rest_items = tree.skip(idx as int);
        proof {
            assert(rest_items[0] == tree[idx as int]);
            assert(rest_items.skip(1) =~= tree.skip(idx + 1));
        }
        let item = &items[idx];
        match decode_item(item) {
            Ok(op) => {
                let ghost acc0 = ops_model(ops@);
                let ghost op_m = op@;
                ops.push(op);
                proof {
                    assert(ops_model(ops@) =~= acc0 + seq![op_m]);
                    match items_model(tree.skip(idx + 1)) {
                        Ok(rest) => {
                            assert(items_model(rest_items) == Ok::<Seq<OpModel>, ValidationError>(
                                seq![op_m] + rest,
                            ));
                            assert(acc0 + (seq![op_m] + rest) =~= (acc0 + seq![op_m]) + rest);
                        },
                        Err(_) => {},
                    }
                }
            },
            Err(e) => {
                proof {
                    assert(items_model(rest_items) == Err::<Seq<OpModel>, ValidationError>(e));
                }
                return Err(e);
            },
        }
        idx = idx + 1;
    }
    proof {
        assert(tree.skip(idx as int) =~= Seq::<serde_json::Value>::empty());
        assert(ops_model(ops@) + Seq::<OpModel>::empty() =~= ops_model(
            ops@,
        ));
    }
    Ok(ops)
}

} // verus!
