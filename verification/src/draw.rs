//! The primitives (rectangles, circles, lines) a game draws in a frame go
//! to the GPU in a fixed block of slots; what does not fit is not drawn.
use vstd::prelude::*;

verus! {

/// The number of primitive slots the GPU block has.
pub const PRIMITIVE_SLOTS: usize = 256;

/// The slots for the primitives drawn in a frame: slot `i` holds the
/// `i`-th primitive, where there is one, and `empty` otherwise; primitives
/// past the last slot are left out.
pub fn fill_slots<T: Copy>(data: &[T], empty: T) -> (slots: Vec<T>)
    ensures
        slots@.len() == PRIMITIVE_SLOTS,
        forall|i: int|
            0 <= i < PRIMITIVE_SLOTS ==> #[trigger] slots@[i] == if i < data@.len() {
                data@[i]
            } else {
                empty
            },
{
    let mut slots: Vec<T> = Vec::new();
    let mut i: usize = 0;
    while i < PRIMITIVE_SLOTS
        invariant
            i <= PRIMITIVE_SLOTS,
            slots@.len() == i,
            forall|j: int|
                0 <= j < i ==> #[trigger] slots@[j] == if j < data@.len() {
                    data@[j]
                } else {
                    empty
                },
        decreases PRIMITIVE_SLOTS - i,
    {
        if i < data.len() {
            slots.push(data[i]);
        } else {
            slots.push(empty);
        }
        i = i + 1;
    }
    slots
}

} // verus!
