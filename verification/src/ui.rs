//! The one computation the loading screen needs: progress events resize
//! the loading bar to the loaded share of the manifest, in percent.

use vstd::prelude::*;

verus! {

/// Width of the loading bar for `loaded` of `total` assets, in percent,
/// truncated; never above one hundred.
pub fn loading_bar_percent(loaded: usize, total: usize) -> (r: usize)
    requires
        0 < total,
        loaded <= total,
        total <= 0xFFFF_FFFF,
    ensures
        r == (loaded * 100) / (total as int),
        r <= 100,
{
    let wide: u64 = (loaded as u64) * 100 / (total as u64);
    proof {
        vstd::arithmetic::div_mod::lemma_div_is_ordered(
            loaded as int * 100,
            total as int * 100,
            total as int,
        );
        vstd::arithmetic::div_mod::lemma_div_by_multiple(100, total as int);
    }
    wide as usize
}

} // verus!
