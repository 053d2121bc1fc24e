//! The verified core of a terminal system monitor: the snapshot data model,
//! the bounded history with its chart series, the grid that places widgets on
//! screen, and the page and selection state machine.

pub mod controller;
pub mod data;
pub mod history;
pub mod layout;
pub mod order;
pub mod packages;
pub mod pages;
pub mod text;

use crate::text::{decimal, to_decimal};
use vstd::prelude::*;
use vstd::string::*;

verus! {

/// A span of `seconds` as hours, minutes and seconds.
pub open spec fn time_text(seconds: nat) -> Seq<char> {
    decimal(seconds / 3600) + seq![':'] + decimal(seconds % 3600 / 60) + seq!['.'] + decimal(
        seconds % 60,
    )
}

/// Writes a span of `seconds` as hours, a colon, minutes, a full stop and
/// seconds, each in decimal without padding.
pub fn get_time(seconds: u64) -> (text: String)
    ensures
        text@ == time_text(seconds as nat),
{
    proof {
        reveal_strlit(":");
        reveal_strlit(".");
    }
    let hours = to_decimal(seconds / 3600);
    let minutes = to_decimal(seconds % 3600 / 60);
    let rest = to_decimal(seconds % 60);
    let text = hours.concat(":").concat(minutes.as_str()).concat(".").concat(rest.as_str());
    assert(":"@ =~= seq![':']);
    assert("."@ =~= seq!['.']);
    text
}

} // verus!
