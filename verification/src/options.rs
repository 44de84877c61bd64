//! The defaults applied when the user gives no template or separator.

use vstd::prelude::*;

verus! {

/// The default template: every field of a ticker record, comma-separated.
pub open spec fn spec_default_format() -> Seq<char> {
    "{name}, {symbol}, {rank}, {price_usd}, {price_btc}, {24h_volume_usd}, {market_cap_usd}, {available_supply}, {total_supply}, {percent_change_1h}, {percent_change_24h}, {percent_change_7d}, {last_updated}"@
}

/// The template used when the user gives none.
pub fn default_format() -> (r: String)
    ensures
        r@ == spec_default_format(),
{
    "{name}, {symbol}, {rank}, {price_usd}, {price_btc}, {24h_volume_usd}, {market_cap_usd}, {available_supply}, {total_supply}, {percent_change_1h}, {percent_change_24h}, {percent_change_7d}, {last_updated}".to_owned()
}

/// The default separator between successive records.
pub open spec fn spec_default_separator() -> Seq<char> {
    " | "@
}

/// The separator used when the user gives none.
pub fn default_separator() -> (r: String)
    ensures
        r@ == spec_default_separator(),
{
    " | ".to_owned()
}

} // verus!
