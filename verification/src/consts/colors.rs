//! Colours of the messages the bot sends.

use vstd::prelude::*;

verus! {

pub const MENU_COLOR: u32 = 0xffbe98;

} // verus!
