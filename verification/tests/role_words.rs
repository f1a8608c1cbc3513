use pikaboo::words::{custom_icon, inventory};
use pikaboo::roles::{CustomRole, IconHash, RoleIcon};
use twilight_mention::{
    timestamp::{Timestamp, TimestampStyle},
    Mention,
};
use twilight_model::{
    id::{
        marker::{RoleMarker, UserMarker},
        Id,
    },
    util::ImageHash,
};

fn grant(color: u32, icon: RoleIcon, expires_at: Option<u64>) -> CustomRole {
    CustomRole {
        role_id: 175_928_847_299_117_063,
        user_id: 42,
        auto_renewal: true,
        expires_at,
        name: String::from("gold"),
        color,
        icon,
        mentionable: false,
    }
}

#[test]
fn grant_in_words() {
    let text = grant(0xffbe98, RoleIcon::Absent, Some(1_700_000_000)).to_string();
    assert_eq!(
        text,
        "**Role:** <@&175928847299117063>\n\
         **Owner:** <@42>\n\
         **Color:** `#FFBE98`\n\
         **Icon:** None\n\
         **Mentionable:** false\n\
         \n\
         **Created on:** <t:1462015105:d>\n\
         **Expires on:** <t:1700000000:d>\n\
         **Auto-renewal:** `true`"
    );
}

#[test]
fn grant_without_deadline_shows_the_far_future() {
    let text = grant(0, RoleIcon::Unicode(String::from("x")), None).to_string();
    assert!(text.contains("**Expires on:** <t:8640000000000:d>\n"));
    assert!(text.contains("**Color:** `#000000`\n"));
    assert!(text.contains("**Icon:** Unicode(x)\n"));
}

#[test]
fn colour_takes_six_digits_or_more() {
    let cases = [
        (0x0u32, "000000"),
        (0xa, "00000A"),
        (0x10, "000010"),
        (0xabcdef, "ABCDEF"),
        (0x1000000, "1000000"),
        (u32::MAX, "FFFFFFFF"),
    ];
    for (color, digits) in cases {
        let text = grant(color, RoleIcon::Absent, None).to_string();
        assert!(text.contains(&format!("**Color:** `#{digits}`\n")), "{color:#x}");
    }
}

#[test]
fn words_agree_with_the_mentions_of_the_platform() {
    let role = grant(0x12, RoleIcon::Absent, Some(77));
    let text = role.to_string();
    let role_id: Id<RoleMarker> = Id::new(role.role_id);
    let user_id: Id<UserMarker> = Id::new(role.user_id);
    assert!(text.starts_with(&format!("**Role:** {}\n**Owner:** {}\n", role_id.mention(), user_id.mention())));
    let day = Timestamp::new(77, Some(TimestampStyle::ShortDate));
    assert!(text.contains(&format!("**Expires on:** {}\n", day.mention())));
}

#[test]
fn icon_in_words() {
    assert_eq!(RoleIcon::Absent.to_string(), "None");
    assert_eq!(RoleIcon::Unicode(String::from("🎀")).to_string(), "Unicode(🎀)");

    let parsed = ImageHash::parse(b"a_b0e09d6697b11e9c79a89e5e3756ddee").unwrap();
    let hash = IconHash { animated: parsed.is_animated(), bytes: parsed.bytes() };
    assert_eq!(RoleIcon::Custom(hash).to_string(), "Custom(a_b0e09d6697b11e9c79a89e5e3756ddee)");

    let parsed = ImageHash::parse(b"b0e09d6697b11e9c79a89e5e3756ddee").unwrap();
    let hash = IconHash { animated: parsed.is_animated(), bytes: parsed.bytes() };
    assert_eq!(RoleIcon::Custom(hash).to_string(), "Custom(b0e09d6697b11e9c79a89e5e3756ddee)");
    let text = grant(1, RoleIcon::Custom(hash), None).to_string();
    assert!(text.contains("**Icon:** Custom(b0e09d6697b11e9c79a89e5e3756ddee)\n"));
}

#[test]
fn image_icon_is_worded_around_its_hash() {
    assert_eq!(custom_icon("abc"), "Custom(abc)");
    assert_eq!(custom_icon(""), "Custom()");
}

#[test]
fn inventory_in_words() {
    assert_eq!(inventory(0, None), "# Inventory\n**Energy:** 0 ⚡\n");
    assert_eq!(
        inventory(1_203, Some(900)),
        "# Inventory\n**Energy:** 1203 ⚡\n**Custom Role:** <@&900>\n"
    );
    assert_eq!(
        inventory(u64::MAX, None),
        "# Inventory\n**Energy:** 18446744073709551615 ⚡\n"
    );
}
