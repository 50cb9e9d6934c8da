//! Assembling the full notification payload for one lobby snapshot.
//!
//! The payload is one embed: the lobby's name as title, the host's identity
//! as author, a deep link for joining as description, and the rendered
//! fields — region, difficulty, class indicator, status, and one field per
//! mod category that has mods.

use vstd::prelude::*;

use crate::classes::{class_indicator, format_classes};
use crate::digits::{dec_str, u64_to_dec_string};
use crate::fields::{filtered_mods, format_mod_field, mod_field_value, ModRef};
use crate::webhook::{FieldView, WebhookAuthor, WebhookBody, WebhookEmbed, WebhookField};

verus! {

/// The public profile page of the host with identity `host`.
pub open spec fn profile_url_text(host: Seq<char>) -> Seq<char> {
    "https://steamcommunity.com/profiles/"@ + host
}

/// The join deep link for lobby `lobby` hosted by `host`.
pub open spec fn deep_link_text(lobby: Seq<char>, host: Seq<char>) -> Seq<char> {
    "steam://joinlobby/548430/"@ + lobby + "/"@ + host
}

/// The avatar every notification message is posted under.
pub open spec fn notification_avatar() -> Seq<char> {
    "https://cdn.discordapp.com/attachments/878318716801155236/968174640847523930/engo.png"@
}

/// The difficulty as displayed: tiers are stored zero-based and shown
/// one-based.
pub open spec fn difficulty_text(diff: i64) -> Seq<char>
    recommends
        0 <= diff,
{
    "Hazard "@ + dec_str((diff + 1) as nat)
}

/// The status line: a lobby whose mission-start marker is empty is still on
/// the space rig.
pub open spec fn status_text(start: Seq<char>) -> Seq<char> {
    if start.len() == 0 {
        "In Space Rig"@
    } else {
        "In Mission"@
    }
}

/// The field a mod category contributes: nothing when the category has no
/// mods, else one inline field with the category's rendered text.
pub open spec fn category_field(mods: Seq<ModRef>, category: i32, label: Seq<char>) -> Seq<
    FieldView,
> {
    if filtered_mods(mods, category).len() == 0 {
        Seq::empty()
    } else {
        seq![
            FieldView { name: label, value: mod_field_value(mods, category), inline: true },
        ]
    }
}

/// Every field of a notification, in order: region, difficulty, classes and
/// status, then one field per mod category that has mods.
pub open spec fn notification_fields(
    region: Seq<char>,
    diff: i64,
    classes: Seq<char>,
    start: Seq<char>,
    mods: Seq<ModRef>,
) -> Seq<FieldView>
    recommends
        0 <= diff,
{
    seq![
        FieldView { name: "Region"@, value: region, inline: true },
        FieldView { name: "Difficulty"@, value: difficulty_text(diff), inline: true },
        FieldView { name: "Classes"@, value: class_indicator(classes), inline: true },
        FieldView { name: "Status"@, value: status_text(start), inline: false },
    ] + category_field(mods, 0, "Verified Mods"@) + category_field(mods, 1, "Approved Mods"@)
        + category_field(mods, 2, "Sandboxed Mods"@)
}

/// Builds one field with the given texts.
fn make_field(name: &str, value: String, inline: bool) -> (r: WebhookField)
    ensures
        r@ == (FieldView { name: name@, value: value@, inline }),
{
    WebhookField { name: String::from_str(name), value, inline }
}

/// Renders the ordered field list for one snapshot.
pub fn build_fields(
    region: &str,
    diff: i64,
    classes: &str,
    start: &str,
    mods: &Vec<ModRef>,
) -> (r: Vec<WebhookField>)
    requires
        0 <= diff < i64::MAX,
    ensures
        r.deep_view() == notification_fields(region@, diff, classes@, start@, mods@),
{
    let mut fields: Vec<WebhookField> = Vec::new();
    fields.push(make_field("Region", String::from_str(region), true));
    let mut difficulty = String::from_str("Hazard ");
    let tier = u64_to_dec_string((diff + 1) as u64);
    difficulty.append(tier.as_str());
    fields.push(make_field("Difficulty", difficulty, true));
    fields.push(make_field("Classes", format_classes(classes), true));
    let status = if start.unicode_len() == 0 {
        String::from_str("In Space Rig")
    } else {
        String::from_str("In Mission")
    };
    fields.push(make_field("Status", status, false));
    let ghost base = fields.deep_view();
    proof {
        assert(base =~= seq![
            FieldView { name: "Region"@, value: region@, inline: true },
            FieldView { name: "Difficulty"@, value: difficulty_text(diff), inline: true },
            FieldView { name: "Classes"@, value: class_indicator(classes@), inline: true },
            FieldView { name: "Status"@, value: status_text(start@), inline: false },
        ]);
    }
    if let Some(f) = format_mod_field(mods, 0, "Verified Mods") {
        fields.push(f);
    }
    let ghost with_verified = fields.deep_view();
    proof {
        assert(with_verified =~= base + category_field(mods@, 0, "Verified Mods"@));
    }
    if let Some(f) = format_mod_field(mods, 1, "Approved Mods") {
        fields.push(f);
    }
    let ghost with_approved = fields.deep_view();
    proof {
        assert(with_approved =~= with_verified + category_field(mods@, 1, "Approved Mods"@));
    }
    if let Some(f) = format_mod_field(mods, 2, "Sandboxed Mods") {
        fields.push(f);
    }
    proof {
        assert(fields.deep_view() =~= with_approved + category_field(mods@, 2, "Sandboxed Mods"@));
        assert(fields.deep_view() =~= notification_fields(region@, diff, classes@, start@, mods@));
    }
    fields
}

/// Builds the host's public profile link.
pub fn profile_url(host_user_id: &str) -> (r: String)
    ensures
        r@ == profile_url_text(host_user_id@),
{
    let mut s = String::from_str("https://steamcommunity.com/profiles/");
    s.append(host_user_id);
    s
}

/// Builds the join deep link for a lobby.
pub fn deep_link(lobby_id: &str, host_user_id: &str) -> (r: String)
    ensures
        r@ == deep_link_text(lobby_id@, host_user_id@),
{
    let mut s = String::from_str("steam://joinlobby/548430/");
    s.append(lobby_id);
    s.append("/");
    s.append(host_user_id);
    proof {
        assert(s@ =~= deep_link_text(lobby_id@, host_user_id@));
    }
    s
}

/// Assembles the whole notification payload for one snapshot: the lobby's
/// name, the host's looked-up identity, the join link, and the rendered
/// fields.
pub fn build_payload(
    server_name: &str,
    lobby_id: &str,
    host_user_id: &str,
    player_name: &str,
    player_avatar: &str,
    region: &str,
    diff: i64,
    classes: &str,
    start: &str,
    mods: &Vec<ModRef>,
) -> (r: WebhookBody)
    requires
        0 <= diff < i64::MAX,
    ensures
        r@.avatar_url == Some(notification_avatar()),
        r@.embeds.len() == 1,
        r@.embeds[0].title == server_name@,
        r@.embeds[0].author.name == player_name@,
        r@.embeds[0].author.icon_url == player_avatar@,
        r@.embeds[0].author.url == profile_url_text(host_user_id@),
        r@.embeds[0].description == deep_link_text(lobby_id@, host_user_id@),
        r@.embeds[0].fields == notification_fields(region@, diff, classes@, start@, mods@),
{
    let fields = build_fields(region, diff, classes, start, mods);
    let embed = WebhookEmbed {
        title: String::from_str(server_name),
        author: WebhookAuthor {
            name: String::from_str(player_name),
            icon_url: String::from_str(player_avatar),
            url: profile_url(host_user_id),
        },
        description: deep_link(lobby_id, host_user_id),
        fields,
    };
    let mut embeds: Vec<WebhookEmbed> = Vec::new();
    embeds.push(embed);
    let body = WebhookBody {
        avatar_url: Some(
            String::from_str(
                "https://cdn.discordapp.com/attachments/878318716801155236/968174640847523930/engo.png",
            ),
        ),
        embeds,
    };
    proof {
        assert(body@.embeds =~= seq![body.embeds@[0]@]);
    }
    body
}

} // verus!
