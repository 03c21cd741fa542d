//! Measures of the screen layout that do not depend on the terminal.

use vstd::prelude::*;

verus! {

/// The three shares, in percent, that centre a band of `percent` of a
/// length: the margin before it, the band, and the margin after it.
pub fn centered_shares(percent: u16) -> (shares: (u16, u16, u16))
    requires
        percent <= 100,
    ensures
        shares.0 == (100 - percent) / 2,
        shares.1 == percent,
        shares.2 == (100 - percent) / 2,
{
    let margin: u16 = (100 - percent) / 2;
    (margin, percent, margin)
}

} // verus!
