use vstd::prelude::*;

use crate::hex::{bytes_to_hex, hex_spaced};

verus! {

/// The value a characteristic-changed event carries: the event target's
/// `value` when present, else the event's own `value`, else the value under
/// its `detail`.
pub open spec fn spec_event_value<T>(
    target_value: Option<T>,
    own_value: Option<T>,
    detail_value: Option<T>,
) -> Option<T> {
    if target_value is Some {
        target_value
    } else if own_value is Some {
        own_value
    } else {
        detail_value
    }
}

/// Picks the value of a characteristic-changed event from the places a
/// browser may put it, in order of preference: `target.value`, `value`,
/// `detail.value`.
pub fn event_value<T>(target_value: Option<T>, own_value: Option<T>, detail_value: Option<T>) -> (v:
    Option<T>)
    ensures
        v == spec_event_value(target_value, own_value, detail_value),
        target_value is Some ==> v == target_value,
        target_value is None && own_value is Some ==> v == own_value,
        target_value is None && own_value is None ==> v == detail_value,
{
    match target_value {
        Some(v) => Some(v),
        None => match own_value {
            Some(v) => Some(v),
            None => detail_value,
        },
    }
}

/// Preference order of event values: the target's value whenever there is
/// one, the event's own value when the target has none, and the detail's
/// value only when neither has one.
pub proof fn lemma_event_value_preference<T>(
    target_value: Option<T>,
    own_value: Option<T>,
    detail_value: Option<T>,
)
    ensures
        target_value is Some ==> spec_event_value(target_value, own_value, detail_value)
            == target_value,
        target_value is None && own_value is Some ==> spec_event_value(
            target_value,
            own_value,
            detail_value,
        ) == own_value,
        target_value is None && own_value is None ==> spec_event_value(
            target_value,
            own_value,
            detail_value,
        ) == detail_value,
        spec_event_value(target_value, own_value, detail_value) is None <==> (
        target_value is None && own_value is None && detail_value is None),
{
}

/// `a` if it is the smaller, else `b`.
pub open spec fn min_int(a: int, b: int) -> int {
    if a <= b {
        a
    } else {
        b
    }
}

/// The bytes a data view selects from its buffer: `length` bytes from
/// `offset`, both clamped to the end of the buffer (the `subarray` rule).
pub open spec fn view_window(buffer: Seq<u8>, offset: int, length: int) -> Seq<u8> {
    buffer.subrange(
        min_int(offset, buffer.len() as int),
        min_int(offset + length, buffer.len() as int),
    )
}

/// What a data view selects: exactly `length` bytes from `offset` when the
/// view lies inside its buffer; the bytes from `offset` to the end when it
/// runs past the end; nothing when it starts at or past the end. The
/// selection is always a contiguous run of the buffer, never longer than
/// `length`.
pub proof fn lemma_view_window(buffer: Seq<u8>, offset: int, length: int)
    requires
        0 <= offset,
        0 <= length,
    ensures
        offset + length <= buffer.len() ==> view_window(buffer, offset, length) == buffer.subrange(
            offset,
            offset + length,
        ),
        offset + length <= buffer.len() ==> view_window(buffer, offset, length).len() == length,
        offset <= buffer.len() < offset + length ==> view_window(buffer, offset, length)
            == buffer.subrange(offset, buffer.len() as int),
        buffer.len() <= offset ==> view_window(buffer, offset, length).len() == 0,
        view_window(buffer, offset, length).len() <= length,
        forall|i: int|
            0 <= i < view_window(buffer, offset, length).len() ==> #[trigger] view_window(
                buffer,
                offset,
                length,
            )[i] == buffer[offset + i],
{
}

/// Hex rendering of the window `[offset, offset + length)` of a data view's
/// underlying buffer, clamped to the buffer.
pub fn data_view_hex(buffer: &[u8], byte_offset: u32, byte_length: u32) -> (hex: String)
    requires
        byte_offset + byte_length <= u32::MAX,
    ensures
        hex@ == hex_spaced(view_window(buffer@, byte_offset as int, byte_length as int)),
        byte_offset + byte_length <= buffer@.len() ==> hex@ == hex_spaced(
            buffer@.subrange(byte_offset as int, byte_offset + byte_length),
        ),
        byte_offset <= buffer@.len() < byte_offset + byte_length ==> hex@ == hex_spaced(
            buffer@.subrange(byte_offset as int, buffer@.len() as int),
        ),
        buffer@.len() <= byte_offset ==> hex@.len() == 0,
{
    let end_u32: u32 = byte_offset + byte_length;
    let len: usize = buffer.len();
    let begin: usize = if (byte_offset as usize) < len {
        byte_offset as usize
    } else {
        len
    };
    let end: usize = if (end_u32 as usize) < len {
        end_u32 as usize
    } else {
        len
    };
    let mut window: Vec<u8> = Vec::new();
    for i in begin..end
        invariant
            begin <= end <= len,
            len == buffer@.len(),
            window@ =~= buffer@.subrange(begin as int, i as int),
    {
        window.push(buffer[i]);
    }
    assert(window@ =~= view_window(buffer@, byte_offset as int, byte_length as int));
    bytes_to_hex(window.as_slice())
}

/// The rendering of a characteristic value: a value that views a buffer
/// renders the window of the buffer it covers; any other value renders its
/// own bytes whole.
pub open spec fn spec_value_hex(
    buffer: Option<Seq<u8>>,
    offset: int,
    length: int,
    own_bytes: Seq<u8>,
) -> Seq<char> {
    match buffer {
        Some(b) => hex_spaced(view_window(b, offset, length)),
        None => hex_spaced(own_bytes),
    }
}

/// Renders a characteristic value as hex. `buffer` is the underlying buffer
/// when the value is a view on one (a `DataView` or typed array), with the
/// view's `byte_offset` and `byte_length`; otherwise the value's `own_bytes`
/// (an `ArrayBuffer` or byte array) are rendered whole.
pub fn value_hex(buffer: Option<&[u8]>, byte_offset: u32, byte_length: u32, own_bytes: &[u8]) -> (hex:
    String)
    requires
        buffer is Some ==> byte_offset + byte_length <= u32::MAX,
    ensures
        hex@ == spec_value_hex(
            match buffer {
                Some(b) => Some(b@),
                None => None,
            },
            byte_offset as int,
            byte_length as int,
            own_bytes@,
        ),
        buffer is None ==> hex@ == hex_spaced(own_bytes@),
        buffer matches Some(b) ==> hex@ == hex_spaced(
            view_window(b@, byte_offset as int, byte_length as int),
        ),
{
    match buffer {
        Some(b) => data_view_hex(b, byte_offset, byte_length),
        None => bytes_to_hex(own_bytes),
    }
}

} // verus!
