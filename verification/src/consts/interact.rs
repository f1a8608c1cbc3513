//! Names of commands, of their subcommands, and of the components and
//! modals the bot sends out.

use vstd::prelude::*;

verus! {

pub const PIKABOO: &'static str = "pikaboo";

pub const PIKABOO_QUICK: &'static str = "pikaboo-quick";

pub const PIKABOO_MOD: &'static str = "pikaboo-mod";

pub const INVENTORY: &'static str = "inventory";

pub const SHOP: &'static str = "shop";

pub const ZONES: &'static str = "zones";

pub const GAMES: &'static str = "games";

pub const FAQS: &'static str = "faqs";

pub const ABOUT: &'static str = "about";

pub const CUSTOMROLE: &'static str = "customrole";

pub const NICKNAME: &'static str = "nickname";

pub const CONFIRM_OKAY: &'static str = "confirm-okay";

pub const SHOP_CUSTOMROLE: &'static str = "customrole-shop";

pub const SHOP_NICKNAME: &'static str = "nickname-shop";

pub const SHOP_ENERGYBOOST: &'static str = "energyboost-shop";

pub const SHOP_BLINDBOX: &'static str = "blindbox-shop";

pub const INVENTORY_NICKNAME: &'static str = "nickname-inventory";

pub const INVENTORY_CUSTOMROLE: &'static str = "customrole-inventory";

pub const CONFIRM_ORDER_CUSTOMROLE: &'static str = "customrole-order-confirm";

pub const CONFIRM_ORDER_NICKNAME: &'static str = "nickname-order-confirm";

pub const CONFIRM_ORDER_ENERGYBOOST: &'static str = "energyboost-order-confirm";

pub const CONFIRM_ORDER_BLINDBOX: &'static str = "blindbox-order-confirm";

pub const CHANGE_NICKNAME: &'static str = "nickname-change";

pub const CUSTOMROLE_SUBSCRIBE: &'static str = "customrole-subscribe";

pub const CUSTOMROLE_UNSUBSCRIBE: &'static str = "customrole-unsubscribe";

} // verus!
