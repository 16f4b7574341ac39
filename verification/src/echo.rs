//! The echo that any caller may ask for: bytes are copied to the start of a
//! cell, and only over bytes that are still zero.

use vstd::prelude::*;
use crate::account_info::AccountInfo;
use crate::error::HandlerError;

verus! {

/// How many bytes of a payload a buffer takes: all of them, or as many as it
/// has room for.
pub open spec fn overlap(capacity: nat, payload_len: nat) -> nat {
    if capacity <= payload_len {
        capacity
    } else {
        payload_len
    }
}

/// Whether every byte is zero.
pub open spec fn all_zero(bytes: Seq<u8>) -> bool {
    forall|i: int| 0 <= i < bytes.len() ==> bytes[i] == 0
}

/// Whether a buffer may take a payload: it has bytes, and those that the
/// payload would cover are zero.
pub open spec fn echo_accepts(buffer: Seq<u8>, payload: Seq<u8>) -> bool {
    &&& buffer.len() > 0
    &&& forall|i: int| 0 <= i < overlap(buffer.len(), payload.len()) ==> buffer[i] == 0
}

/// The buffer after it took the payload: the payload, as far as there is
/// room, in place of the first bytes.
pub open spec fn echo_image(buffer: Seq<u8>, payload: Seq<u8>) -> Seq<u8> {
    let n = overlap(buffer.len(), payload.len()) as int;
    payload.take(n) + buffer.skip(n)
}

/// What an echo does to a buffer: the new bytes, or the reason for which it
/// leaves the buffer as it is.
pub open spec fn echo_outcome(buffer: Seq<u8>, payload: Seq<u8>) -> Result<Seq<u8>, HandlerError> {
    if echo_accepts(buffer, payload) {
        Ok(echo_image(buffer, payload))
    } else {
        Err(HandlerError::InvalidAccountData)
    }
}

/// Copies `payload` to the start of the cell, as far as the cell has room.
/// Fails with `InvalidAccountData`, and writes nothing, where the cell has no
/// bytes or one of the bytes to be covered is not zero.
pub fn echo(cell: &mut AccountInfo, payload: &[u8]) -> (r: Result<(), HandlerError>)
    ensures
        final(cell).same_cell_as(old(cell)),
        match echo_outcome(old(cell).data@, payload@) {
            Ok(image) => r is Ok && final(cell).data@ == image,
            Err(e) => r == Err::<(), HandlerError>(e) && *final(cell) == *old(cell),
        },
{
    let capacity = cell.data.len();
    if capacity == 0 {
        return Err(HandlerError::InvalidAccountData);
    }
    let n = if capacity <= payload.len() {
        capacity
    } else {
        payload.len()
    };
    let mut i: usize = 0;
    while i < n
        invariant
            i <= n <= cell.data@.len(),
            *cell == *old(cell),
            n == overlap(cell.data@.len(), payload@.len()),
            forall|k: int| 0 <= k < i ==> cell.data@[k] == 0,
        decreases n - i,
    {
        if cell.data[i] != 0 {
            return Err(HandlerError::InvalidAccountData);
        }
        i = i + 1;
    }
    let mut j: usize = 0;
    while j < n
        invariant
            j <= n <= payload@.len(),
            n <= old(cell).data@.len(),
            cell.same_cell_as(old(cell)),
            cell.data@ == payload@.take(j as int) + old(cell).data@.skip(j as int),
        decreases n - j,
    {
        cell.data[j] = payload[j];
        j = j + 1;
    }
    Ok(())
}

/// An echo into a buffer of zeros that is not empty succeeds, and leaves the
/// payload, as far as there is room, followed by zeros.
pub proof fn lemma_echo_into_zeros(buffer: Seq<u8>, payload: Seq<u8>)
    requires
        buffer.len() > 0,
        all_zero(buffer),
    ensures
        echo_outcome(buffer, payload) is Ok,
        echo_outcome(buffer, payload).unwrap().len() == buffer.len(),
        echo_outcome(buffer, payload).unwrap().take(overlap(buffer.len(), payload.len()) as int)
            == payload.take(overlap(buffer.len(), payload.len()) as int),
        all_zero(
            echo_outcome(buffer, payload).unwrap().skip(
                overlap(buffer.len(), payload.len()) as int,
            ),
        ),
        buffer.len() >= payload.len() ==> echo_outcome(buffer, payload).unwrap() == payload
            + buffer.skip(payload.len() as int),
{
}

/// A second echo fails where the first wrote a byte other than zero and the
/// second would cover it. An echo that fails leaves the cell as it was, so
/// the cell then still holds what the first echo left.
pub proof fn lemma_echo_writes_once(buffer: Seq<u8>, first: Seq<u8>, second: Seq<u8>, at: int)
    requires
        echo_outcome(buffer, first) is Ok,
        0 <= at < overlap(buffer.len(), first.len()),
        at < second.len(),
        first[at] != 0,
    ensures
        echo_outcome(echo_outcome(buffer, first).unwrap(), second) == Err::<Seq<u8>, HandlerError>(
            HandlerError::InvalidAccountData,
        ),
{
    let image = echo_image(buffer, first);
    assert(image[at] == first[at]);
}

} // verus!
