//! Small focus-cycling arithmetic shared by the user interface layer.

use vstd::prelude::*;

verus! {

/// Steps `val` by `add` (either `1` or `-1`) inside `0..max`, wrapping at both
/// ends. Returns `true` exactly when the step wrapped around.
pub fn cycle(val: &mut u16, add: i16, max: u16) -> (wrapped: bool)
    requires
        add == 1 || add == -1i16,
        0 < max <= 0x7fff,
        *old(val) < max,
    ensures
        *final(val) < max,
        add == 1 ==> (*final(val) == if *old(val) + 1 == max {
            0u16
        } else {
            (*old(val) + 1) as u16
        }),
        add == -1i16 ==> (*final(val) == if *old(val) == 0 {
            (max - 1) as u16
        } else {
            (*old(val) - 1) as u16
        }),
        wrapped == (if add == 1 {
            *old(val) + 1 == max
        } else {
            *old(val) == 0
        }),
{
    if (*val as i16) + add == (max as i16) {
        *val = 0;
        true
    } else if add == -1i16 && *val == 0 {
        *val = max - 1;
        true
    } else {
        *val = (((*val as i16) + add) as u16);
        false
    }
}

} // verus!
