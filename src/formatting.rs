//! How a C string in a managed process's memory is shown in a syscall
//! trace: at most a fixed number of bytes, cut short at the terminating
//! zero or once too many bytes that are not printable ASCII have been seen.

use vstd::prelude::*;

verus! {

/// The most bytes of a string that are shown.
pub const DISPLAY_LEN: usize = 40;

/// How many non-printable bytes end the string shown.
pub const NON_GRAPHIC_BUDGET: usize = 13;

/// Printable ASCII other than space.
pub open spec fn is_graphic(b: u8) -> bool {
    0x21 <= b <= 0x7e
}

/// The bytes kept from `bytes` with `budget` non-printable bytes left to
/// spend, and the budget that remains: bytes are kept up to a zero byte, and
/// a non-printable byte that uses up the budget is not kept and ends the scan.
pub open spec fn scan(bytes: Seq<u8>, budget: nat) -> (Seq<u8>, nat)
    decreases bytes.len(),
{
    if bytes.len() == 0 || bytes[0] == 0 {
        (Seq::empty(), budget)
    } else {
        let left: nat = if is_graphic(bytes[0]) {
            budget
        } else if budget > 0 {
            (budget - 1) as nat
        } else {
            0
        };
        if left == 0 {
            (Seq::empty(), 0)
        } else {
            let rest = scan(bytes.drop_first(), left);
            (seq![bytes[0]] + rest.0, rest.1)
        }
    }
}

/// What is shown of the string that starts with `mem`: its first bytes,
/// and whether it was cut short and gets an ellipsis.
pub open spec fn preview(mem: Seq<u8>) -> (Seq<u8>, bool) {
    let s = scan(mem, NON_GRAPHIC_BUDGET as nat);
    (
        if s.0.len() > DISPLAY_LEN {
            s.0.take(DISPLAY_LEN as int)
        } else {
            s.0
        },
        s.0.len() > DISPLAY_LEN || s.1 == 0,
    )
}

/// Reads the string that starts with `mem` (the memory read at the pointer,
/// one byte more than is shown) and returns the bytes to show and whether
/// to mark the string as cut short.
pub fn c_string_preview(mem: &[u8]) -> (r: (Vec<u8>, bool))
    ensures
        r.0@ == preview(mem@).0,
        r.1 == preview(mem@).1,
{
    let mut kept: Vec<u8> = Vec::new();
    let mut budget: usize = NON_GRAPHIC_BUDGET;
    let mut i: usize = 0;
    let ghost whole = scan(mem@, NON_GRAPHIC_BUDGET as nat);
    let mut done = false;
    assert(mem@.skip(0) =~= mem@);
    assert(kept@ + whole.0 =~= whole.0);
    while i < mem.len() && !done
        invariant
            i <= mem@.len(),
            budget <= NON_GRAPHIC_BUDGET,
            kept@.len() == i,
            !done ==> kept@ + scan(mem@.skip(i as int), budget as nat).0 == whole.0,
            !done ==> scan(mem@.skip(i as int), budget as nat).1 == whole.1,
            done ==> kept@ == whole.0 && budget == whole.1,
        decreases mem@.len() - i + if done { 0int } else { 1int },
    {
        let b = mem[i];
        let ghost rest = mem@.skip(i as int);
        assert(rest[0] == b);
        assert(rest.drop_first() =~= mem@.skip(i as int + 1));
        if b == 0 {
            assert(kept@ =~= kept@ + Seq::<u8>::empty());
            done = true;
        } else {
            let left = if 0x21 <= b && b <= 0x7e {
                budget
            } else if budget > 0 {
                budget - 1
            } else {
                0
            };
            if left == 0 {
                assert(kept@ =~= kept@ + Seq::<u8>::empty());
                budget = 0;
                done = true;
            } else {
                let ghost k = kept@;
                kept.push(b);
                assert(kept@ + scan(mem@.skip(i as int + 1), left as nat).0 =~= k + (seq![b]
                    + scan(mem@.skip(i as int + 1), left as nat).0));
                budget = left;
                i = i + 1;
            }
        }
    }
    if !done {
        assert(mem@.skip(i as int).len() == 0);
        assert(kept@ =~= kept@ + Seq::<u8>::empty());
    }
    let len = kept.len();
    if len > DISPLAY_LEN {
        kept.truncate(DISPLAY_LEN);
    }
    (kept, len > DISPLAY_LEN || budget == 0)
}

} // verus!
