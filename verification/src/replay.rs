use vstd::prelude::*;
use vstd::string::StrSliceExecFns;

use crate::ops::{OpModel, Operation, ValidationError, ops_model};

verus! {

/// One bounds-checked step of the replay: apply `op` to `buf` at `cursor`.
///
/// A skip or delete whose count would reach past the end of the current
/// buffer fails with the matching error kind; an insert always applies.
pub open spec fn step_model(buf: Seq<char>, cursor: nat, op: OpModel) -> Result<
    (Seq<char>, nat),
    ValidationError,
> {
    match op {
        OpModel::Skip { count } => {
            if cursor + count > buf.len() {
                Err(ValidationError::SkipPastEnd)
            } else {
                Ok((buf, (cursor + count) as nat))
            }
        },
        OpModel::Delete { count } => {
            if cursor + count > buf.len() {
                Err(ValidationError::DeletePastEnd)
            } else {
                Ok(
                    (
                        buf.subrange(0, cursor as int) + buf.subrange(
                            (cursor + count) as int,
                            buf.len() as int,
                        ),
                        cursor,
                    ),
                )
            }
        },
        OpModel::Insert { chars } => {
            Ok(
                (
                    buf.subrange(0, cursor as int) + chars + buf.subrange(
                        cursor as int,
                        buf.len() as int,
                    ),
                    (cursor + chars.len()) as nat,
                ),
            )
        },
    }
}

/// Replay all of `ops` in order, short-circuiting on the first failure.
pub open spec fn replay_model(buf: Seq<char>, cursor: nat, ops: Seq<OpModel>) -> Result<
    (Seq<char>, nat),
    ValidationError,
>
    decreases ops.len(),
{
    if ops.len() == 0 {
        Ok((buf, cursor))
    } else {
        match step_model(buf, cursor, ops[0]) {
            Ok(next) => replay_model(next.0, next.1, ops.skip(1)),
            Err(e) => Err(e),
        }
    }
}

/// The whole validation: replay `ops` against `stale`, then compare the
/// final buffer with `latest`.
pub open spec fn validate_model(stale: Seq<char>, latest: Seq<char>, ops: Seq<OpModel>) -> Result<
    (),
    ValidationError,
> {
    match replay_model(stale, 0, ops) {
        Ok(next) => {
            if next.0 == latest {
                Ok(())
            } else {
                Err(ValidationError::DoesNotMatch)
            }
        },
        Err(e) => Err(e),
    }
}

/// A skip or delete of zero units: the operations that may be inserted
/// into or removed from a sequence without changing its verdict.
pub open spec fn is_noop(op: OpModel) -> bool {
    op == (OpModel::Skip { count: 0 as nat }) || op == (OpModel::Delete { count: 0 as nat })
}

/// Law: with no operations, a text validates against itself.
pub proof fn lemma_empty_ops_same_text(s: Seq<char>)
    ensures
        validate_model(s, s, Seq::<OpModel>::empty()) == Ok::<(), ValidationError>(()),
{
}

/// Law: with no operations, texts that differ are rejected as
/// `DoesNotMatch`.
pub proof fn lemma_empty_ops_different_text(s: Seq<char>, l: Seq<char>)
    requires
        s != l,
    ensures
        validate_model(s, l, Seq::<OpModel>::empty()) == Err::<(), ValidationError>(
            ValidationError::DoesNotMatch,
        ),
{
}

/// A successful step keeps the cursor within the new buffer.
proof fn lemma_step_keeps_cursor_in_bounds(buf: Seq<char>, cursor: nat, op: OpModel)
    requires
        cursor <= buf.len(),
    ensures
        match step_model(buf, cursor, op) {
            Ok(next) => next.1 <= next.0.len(),
            Err(_) => true,
        },
{
}

/// Inserting a zero-count skip or delete at position `i` leaves the whole
/// replay unchanged, as long as the cursor starts within the buffer.
proof fn lemma_replay_insert_noop(buf: Seq<char>, cursor: nat, ops: Seq<OpModel>, i: int, op: OpModel)
    requires
        cursor <= buf.len(),
        0 <= i <= ops.len(),
        is_noop(op),
    ensures
        replay_model(buf, cursor, ops.insert(i, op)) == replay_model(buf, cursor, ops),
    decreases i,
{
    let ops2 = ops.insert(i, op);
    if i == 0 {
        assert(step_model(buf, cursor, op) == Ok::<(Seq<char>, nat), ValidationError>(
            (buf, cursor),
        )) by {
            match op {
                OpModel::Delete { count } => {
                    assert(buf.subrange(0, cursor as int) + buf.subrange(
                        (cursor + count) as int,
                        buf.len() as int,
                    ) =~= buf);
                },
                _ => {},
            }
        }
        assert(ops2[0] == op);
        assert(ops2.skip(1) =~= ops);
    } else {
        assert(ops2[0] == ops[0]);
        match step_model(buf, cursor, ops[0]) {
            Ok(next) => {
                lemma_step_keeps_cursor_in_bounds(buf, cursor, ops[0]);
                assert(ops2.skip(1) =~= ops.skip(1).insert(i - 1, op));
                lemma_replay_insert_noop(next.0, next.1, ops.skip(1), i - 1, op);
            },
            Err(_) => {},
        }
    }
}

/// Law: inserting a zero-count skip or delete anywhere in the operation
/// list leaves the validation outcome unchanged.
pub proof fn lemma_noop_insert_preserves_outcome(
    stale: Seq<char>,
    latest: Seq<char>,
    ops: Seq<OpModel>,
    i: int,
    op: OpModel,
)
    requires
        0 <= i <= ops.len(),
        is_noop(op),
    ensures
        validate_model(stale, latest, ops.insert(i, op)) == validate_model(stale, latest, ops),
{
    lemma_replay_insert_noop(stale, 0, ops, i, op);
}

/// Law: removing a zero-count skip or delete from the operation list
/// leaves the validation outcome unchanged.
pub proof fn lemma_noop_remove_preserves_outcome(
    stale: Seq<char>,
    latest: Seq<char>,
    ops: Seq<OpModel>,
    i: int,
)
    requires
        0 <= i < ops.len(),
        is_noop(ops[i]),
    ensures
        validate_model(stale, latest, ops.remove(i)) == validate_model(stale, latest, ops),
{
    assert(ops.remove(i).insert(i, ops[i]) =~= ops);
    lemma_noop_insert_preserves_outcome(stale, latest, ops.remove(i), i, ops[i]);
}

/// Law: when every skip and delete stays within the buffer it meets — that
/// is, the whole replay goes through — and the replayed buffer equals the
/// latest text, validation succeeds.
pub proof fn lemma_successful_replay_validates(stale: Seq<char>, latest: Seq<char>, ops: Seq<OpModel>)
    requires
        replay_model(stale, 0, ops) matches Ok(next) && next.0 == latest,
    ensures
        validate_model(stale, latest, ops) == Ok::<(), ValidationError>(()),
{
}

/// Law: a skip or delete whose count equals the remaining buffer length
/// succeeds, and a count one past the remaining length fails with the
/// matching error kind.
pub proof fn lemma_count_boundary(buf: Seq<char>, cursor: nat, count: nat)
    requires
        cursor + count == buf.len(),
    ensures
        step_model(buf, cursor, OpModel::Skip { count }) matches Ok(_),
        step_model(buf, cursor, OpModel::Delete { count }) matches Ok(_),
        step_model(buf, cursor, OpModel::Skip { count: count + 1 }) == Err::<
            (Seq<char>, nat),
            ValidationError,
        >(ValidationError::SkipPastEnd),
        step_model(buf, cursor, OpModel::Delete { count: count + 1 }) == Err::<
            (Seq<char>, nat),
            ValidationError,
        >(ValidationError::DeletePastEnd),
{
}

/// The replay fails only past-the-end, never with any other kind.
proof fn lemma_replay_model_err_kinds(buf: Seq<char>, cursor: nat, ops: Seq<OpModel>)
    ensures
        replay_model(buf, cursor, ops) matches Err(e) ==> (e == ValidationError::SkipPastEnd || e
            == ValidationError::DeletePastEnd),
    decreases ops.len(),
{
    if ops.len() != 0 {
        match step_model(buf, cursor, ops[0]) {
            Ok(next) => lemma_replay_model_err_kinds(next.0, next.1, ops.skip(1)),
            Err(_) => {},
        }
    }
}

/// Law: the verdict on decoded operations is never `ParseError`; that kind
/// belongs to decoding alone.
pub proof fn lemma_validate_model_no_parse_error(
    stale: Seq<char>,
    latest: Seq<char>,
    ops: Seq<OpModel>,
)
    ensures
        validate_model(stale, latest, ops) != Err::<(), ValidationError>(
            ValidationError::ParseError,
        ),
{
    lemma_replay_model_err_kinds(stale, 0, ops);
}

/// Copy the text into an owned working buffer of `char`s.
fn char_vec_of_str(s: &str) -> (r: Vec<char>)
    ensures
        r@ == s@,
{
    let len = s.unicode_len();
    let mut r: Vec<char> = Vec::new();
    let mut i: usize = 0;
    while i < len
        invariant
            i <= len,
            len == s@.len(),
            r@ == s@.subrange(0, i as int),
        decreases len - i,
    {
        let c = s.get_char(i);
        r.push(c);
        proof {
            assert(r@ =~= s@.subrange(0, i + 1));
        }
        i = i + 1;
    }
    proof {
        assert(r@ =~= s@);
    }
    r
}

/// Remove `count` chars starting at `cursor` from the working buffer.
fn apply_delete(buf: &mut Vec<char>, cursor: usize, count: usize)
    requires
        cursor + count <= old(buf)@.len(),
    ensures
        final(buf)@ == old(buf)@.subrange(0, cursor as int) + old(buf)@.subrange(
            cursor + count,
            old(buf)@.len() as int,
        ),
{
    let ghost buf0 = buf@;
    let mut j: usize = 0;
    proof {
        assert(buf0.subrange(0, cursor as int) + buf0.subrange(cursor as int, buf0.len() as int)
            =~= buf0);
    }
    while j < count
        invariant
            j <= count,
            cursor + count <= buf0.len(),
            buf@ == buf0.subrange(0, cursor as int) + buf0.subrange(
                cursor + j,
                buf0.len() as int,
            ),
        decreases count - j,
    {
        proof {
            assert(buf@.len() == buf0.len() - j);
        }
        buf.remove(cursor);
        proof {
            assert(buf@ =~= buf0.subrange(0, cursor as int) + buf0.subrange(
                cursor + j + 1,
                buf0.len() as int,
            ));
        }
        j = j + 1;
    }
}

/// Insert the chars of `text` into the working buffer at `cursor`.
fn apply_insert(buf: &mut Vec<char>, cursor: usize, text: &str)
    requires
        cursor <= old(buf)@.len(),
    ensures
        final(buf)@ == old(buf)@.subrange(0, cursor as int) + text@ + old(buf)@.subrange(
            cursor as int,
            old(buf)@.len() as int,
        ),
{
    let ghost buf0 = buf@;
    let tlen = text.unicode_len();
    let mut i: usize = 0;
    proof {
        assert(buf0.subrange(0, cursor as int) + text@.subrange(0, 0) + buf0.subrange(
            cursor as int,
            buf0.len() as int,
        ) =~= buf0);
    }
    while i < tlen
        invariant
            i <= tlen,
            tlen == text@.len(),
            cursor <= buf0.len(),
            buf@ == buf0.subrange(0, cursor as int) + text@.subrange(0, i as int) + buf0.subrange(
                cursor as int,
                buf0.len() as int,
            ),
        decreases tlen - i,
    {
        let c = text.get_char(i);
        let here = buf.len();
        proof {
            assert(buf@.len() == buf0.len() + i);
            assert(cursor + i <= here);
        }
        let pos = cursor + i;
        buf.insert(pos, c);
        proof {
            assert(buf@ =~= buf0.subrange(0, cursor as int) + text@.subrange(0, i + 1)
                + buf0.subrange(cursor as int, buf0.len() as int));
        }
        i = i + 1;
    }
    proof {
        assert(text@.subrange(0, tlen as int) =~= text@);
    }
}

/// Compare the final working buffer with the expected text.
fn buffer_matches(buf: &Vec<char>, s: &str) -> (r: bool)
    ensures
        r == (buf@ == s@),
{
    let slen = s.unicode_len();
    if buf.len() != slen {
        return false;
    }
    let mut i: usize = 0;
    while i < slen
        invariant
            i <= slen,
            slen == s@.len(),
            buf@.len() == s@.len(),
            forall|k: int| 0 <= k < i ==> buf@[k] == s@[k],
        decreases slen - i,
    {
        let c = s.get_char(i);
        if buf[i] != c {
            return false;
        }
        i = i + 1;
    }
    proof {
        assert(buf@ =~= s@);
    }
    true
}

/// Replay `ops` against an owned working copy of `stale`, then compare the
/// result with `latest`.
///
/// The verdict is exactly the model's: the first skip or delete that would
/// pass the current end of the buffer aborts the replay with its error
/// kind, and an exhausted operation list succeeds exactly when the buffer
/// equals `latest`.
pub fn validate(stale: &str, latest: &str, ops: &Vec<Operation>) -> (r: Result<
    (),
    ValidationError,
>)
    ensures
        r == validate_model(stale@, latest@, ops_model(ops@)),
{
    let mut buffer = char_vec_of_str(stale);
    let mut cursor: usize = 0;
    let ghost m = ops_model(ops@);
    let mut idx: usize = 0;
    proof {
        assert(m.skip(0) =~= m);
    }
    while idx < ops.len()
        invariant
            idx <= ops@.len(),
            m == ops_model(ops@),
            m.len() == ops@.len(),
            cursor <= buffer@.len(),
            replay_model(stale@, 0, m) == replay_model(buffer@, cursor as nat, m.skip(idx as int)),
        decreases ops@.len() - idx,
    {
        let ghost rest = m.skip(idx as int);
        proof {
            assert(rest[0] == m[idx as int]);
            assert(m[idx as int] == ops@[idx as int]@);
            assert(rest.skip(1) =~= m.skip(idx + 1));
        }
        let op = &ops[idx];
        match op {
            Operation::Skip { count } => {
                let count = *count;
                if count > buffer.len() - cursor {
                    proof {
                        assert(step_model(buffer@, cursor as nat, rest[0]) == Err::<
                            (Seq<char>, nat),
                            ValidationError,
                        >(ValidationError::SkipPastEnd));
                    }
                    return Err(ValidationError::SkipPastEnd);
                }
                cursor = cursor + count;
            },
            Operation::Delete { count } => {
                let count = *count;
                if count > buffer.len() - cursor {
                    proof {
                        assert(step_model(buffer@, cursor as nat, rest[0]) == Err::<
                            (Seq<char>, nat),
                            ValidationError,
                        >(ValidationError::DeletePastEnd));
                    }
                    return Err(ValidationError::DeletePastEnd);
                }
                apply_delete(&mut buffer, cursor, count);
            },
            Operation::Insert { chars } => {
                let text = chars.as_str();
                let tlen = text.unicode_len();
                apply_insert(&mut buffer, cursor, text);
                let here = buffer.len();
                proof {
                    assert(cursor + tlen <= here);
                }
                cursor = cursor + tlen;
            },
        }
        idx = idx + 1;
    }
    proof {
        assert(m.skip(idx as int) =~= Seq::<OpModel>::empty());
        assert(replay_model(stale@, 0, m) == Ok::<(Seq<char>, nat), ValidationError>(
            (buffer@, cursor as nat),
        ));
    }
    if buffer_matches(&buffer, latest) {
        Ok(())
    } else {
        Err(ValidationError::DoesNotMatch)
    }
}

} // verus!
