//! Grants and balances in words, as they are shown to their owners.

use crate::events::{issued_at, timestamp};
use crate::roles::{CustomRole, IconHash, RoleIcon};
use crate::text::{decimal, hex, hex_len, padded, push_decimal, push_hex, push_padding};
use twilight_mention::{
    timestamp::{Timestamp, TimestampStyle},
    Mention,
};
use twilight_model::{
    id::{
        marker::{RoleMarker, UserMarker},
        Id,
    },
    util::ImageHash,
};
use vstd::prelude::*;
use vstd::string::*;

verus! {

/// The deadline that is shown for a grant without one.
pub const EXP_MAX: u64 = 8640000000000;

/// The text that `twilight_model::util::ImageHash` gives a hash of these
/// bytes, animated or not.
pub uninterp spec fn image_hash_text(animated: bool, bytes: Seq<u8>) -> Seq<char>;

/// `ImageHash::to_string`, of the hash that `ImageHash::new` makes of the
/// bytes and the flag.
#[verifier::external_body]
fn icon_hash_text(hash: &IconHash) -> (text: String)
    ensures
        text@ == image_hash_text(hash.animated, hash.bytes@),
{
    ImageHash::new(hash.bytes, hash.animated).to_string()
}

/// `Mention::mention` of a role id, as text: the id in decimal between `<@&`
/// and `>`.
#[verifier::external_body]
fn role_mention(role_id: u64) -> (text: String)
    requires
        role_id != 0,
    ensures
        text@ == role_mention_text(role_id),
{
    Id::<RoleMarker>::new(role_id).mention().to_string()
}

/// `Mention::mention` of a user id, as text: the id in decimal between `<@`
/// and `>`.
#[verifier::external_body]
fn user_mention(user_id: u64) -> (text: String)
    requires
        user_id != 0,
    ensures
        text@ == user_mention_text(user_id),
{
    Id::<UserMarker>::new(user_id).mention().to_string()
}

/// `Mention::mention` of a point in time in the style of a short date, as
/// text: the second in decimal between `<t:` and `:d>`.
#[verifier::external_body]
fn date_mention(unix: u64) -> (text: String)
    ensures
        text@ == date_mention_text(unix),
{
    Timestamp::new(unix, Some(TimestampStyle::ShortDate)).mention().to_string()
}

/// How a role is mentioned.
pub open spec fn role_mention_text(role_id: u64) -> Seq<char> {
    "<@&"@ + decimal(role_id as nat) + ">"@
}

/// How a user is mentioned.
pub open spec fn user_mention_text(user_id: u64) -> Seq<char> {
    "<@"@ + decimal(user_id as nat) + ">"@
}

/// How a day is mentioned, by one of its seconds.
pub open spec fn date_mention_text(unix: u64) -> Seq<char> {
    "<t:"@ + decimal(unix as nat) + ":d>"@
}

/// Yes or no in words.
pub open spec fn truth_text(yes: bool) -> Seq<char> {
    if yes {
        "true"@
    } else {
        "false"@
    }
}

/// An icon in words.
pub open spec fn icon_text(icon: RoleIcon) -> Seq<char> {
    match icon {
        RoleIcon::Custom(hash) => "Custom("@ + image_hash_text(hash.animated, hash.bytes@) + ")"@,
        RoleIcon::Unicode(emoji) => "Unicode("@ + emoji@ + ")"@,
        RoleIcon::Absent => "None"@,
    }
}

/// A grant in words: the role and its owner as mentions, the colour in six
/// or more hexadecimal digits, the icon, whether the role can be mentioned,
/// the day the role was made and the day the grant lapses as mentions, and
/// whether the grant is on renewal.
pub open spec fn role_text(role: CustomRole) -> Seq<char> {
    "**Role:** "@ + role_mention_text(role.role_id) + "\n**Owner:** "@ + user_mention_text(
        role.user_id,
    ) + "\n**Color:** `#"@ + padded(hex(role.color as nat), 6) + "`\n**Icon:** "@ + icon_text(
        role.icon,
    ) + "\n**Mentionable:** "@ + truth_text(role.mentionable) + "\n\n**Created on:** "@
        + date_mention_text(issued_at(role.role_id)) + "\n**Expires on:** "@ + date_mention_text(
        match role.expires_at {
            Some(deadline) => deadline,
            None => EXP_MAX,
        },
    ) + "\n**Auto-renewal:** `"@ + truth_text(role.auto_renewal) + "`"@
}

/// Yes or no in words.
fn truth(yes: bool) -> (text: &'static str)
    ensures
        text@ == truth_text(yes),
{
    if yes {
        "true"
    } else {
        "false"
    }
}

/// The words for an icon that is an image, given the text of its hash.
pub fn custom_icon(hash: &str) -> (text: String)
    ensures
        text@ == "Custom("@ + hash@ + ")"@,
{
    let mut text = String::from_str("Custom(");
    text.append(hash);
    text.append(")");
    text
}

impl RoleIcon {
    /// The icon in words.
    pub fn to_string(&self) -> (text: String)
        ensures
            text@ == icon_text(*self),
    {
        match self {
            RoleIcon::Custom(hash) => custom_icon(icon_hash_text(hash).as_str()),
            RoleIcon::Unicode(emoji) => {
                let mut text = String::from_str("Unicode(");
                text.append(emoji.as_str());
                text.append(")");
                text
            },
            RoleIcon::Absent => String::from_str("None"),
        }
    }
}

impl CustomRole {
    /// The grant in words.
    pub fn to_string(&self) -> (text: String)
        requires
            self.role_id != 0,
            self.user_id != 0,
        ensures
            text@ == role_text(*self),
    {
        let created_at = timestamp(self.role_id);
        let expires_at = match self.expires_at {
            Some(deadline) => deadline,
            None => EXP_MAX,
        };
        let mut text = String::from_str("**Role:** ");
        text.append(role_mention(self.role_id).as_str());
        text.append("\n**Owner:** ");
        text.append(user_mention(self.user_id).as_str());
        text.append("\n**Color:** `#");
        push_padding(&mut text, hex_len(self.color), 6);
        push_hex(&mut text, self.color);
        text.append("`\n**Icon:** ");
        text.append(self.icon.to_string().as_str());
        text.append("\n**Mentionable:** ");
        text.append(truth(self.mentionable));
        text.append("\n\n**Created on:** ");
        text.append(date_mention(created_at).as_str());
        text.append("\n**Expires on:** ");
        text.append(date_mention(expires_at).as_str());
        text.append("\n**Auto-renewal:** `");
        text.append(truth(self.auto_renewal));
        text.append("`");
        proof {
            assert(text@ =~= role_text(*self));
        }
        text
    }
}

/// What the inventory of a user says: the energy it holds, and its custom
/// role if it has one.
pub open spec fn inventory_text(energy: u64, role_id: Option<u64>) -> Seq<char> {
    "# Inventory\n**Energy:** "@ + decimal(energy as nat) + " ⚡\n"@ + match role_id {
        Some(role_id) => "**Custom Role:** "@ + role_mention_text(role_id) + "\n"@,
        None => Seq::<char>::empty(),
    }
}

/// What the inventory of a user says.
pub fn inventory(energy: u64, role_id: Option<u64>) -> (text: String)
    requires
        role_id != Some(0u64),
    ensures
        text@ == inventory_text(energy, role_id),
{
    let mut text = String::from_str("# Inventory\n**Energy:** ");
    push_decimal(&mut text, energy);
    text.append(" ⚡\n");
    if let Some(role_id) = role_id {
        text.append("**Custom Role:** ");
        text.append(role_mention(role_id).as_str());
        text.append("\n");
    }
    proof {
        assert(text@ =~= inventory_text(energy, role_id));
    }
    text
}

} // verus!
