use lobby_notify::fields::ModRef;
use lobby_notify::payload::{build_fields, build_payload, deep_link, profile_url};
use lobby_notify::steam::{first_player, DirectoryError, SteamPlayer, SteamPlayerResponse};
use lobby_notify::webhook::{create_url, delete_url, update_url};

const DRILLER: &str = "<:driller:964680901621612584>";
const SCOUT: &str = "<:scout:964680965521813524>";
const EMPTY: &str = "<:empty:964681045347823616>";

fn player(name: &str, avatar: &str) -> SteamPlayer {
    SteamPlayer {
        steamid: "76561198000000000".to_string(),
        communityvisibilitystate: 3,
        profilestate: Some(1),
        personaname: name.to_string(),
        profileurl: "https://steamcommunity.com/id/someone/".to_string(),
        avatar: String::new(),
        avatarmedium: String::new(),
        avatarfull: avatar.to_string(),
        avatarhash: String::new(),
        personastate: 1,
        primaryclanid: None,
        timecreated: None,
        personastateflags: None,
    }
}

#[test]
fn snapshot_renders_the_expected_fields() {
    let mods = vec![ModRef {
        id: 10,
        category: Some(0),
        name: Some("Sandbox Utilities".to_string()),
        url: Some("https://mod.io/g/drg/m/sandbox-utilities".to_string()),
    }];
    let fields = build_fields("EU", 3, "0;3;", "", &mods);
    assert_eq!(fields.len(), 5);
    assert_eq!(fields[0].name, "Region");
    assert_eq!(fields[0].value, "EU");
    assert!(fields[0].inline);
    assert_eq!(fields[1].name, "Difficulty");
    assert_eq!(fields[1].value, "Hazard 4");
    assert_eq!(fields[2].name, "Classes");
    assert_eq!(fields[2].value, format!("{}{}{}{}", DRILLER, SCOUT, EMPTY, EMPTY));
    assert_eq!(fields[3].name, "Status");
    assert_eq!(fields[3].value, "In Space Rig");
    assert!(!fields[3].inline);
    assert_eq!(fields[4].name, "Verified Mods");
    assert_eq!(
        fields[4].value,
        "[Sandbox Utilities](https://mod.io/g/drg/m/sandbox-utilities)\n"
    );
}

#[test]
fn started_mission_changes_the_status_field() {
    let fields = build_fields("NA", 0, "", "1700000000", &Vec::new());
    assert_eq!(fields.len(), 4);
    assert_eq!(fields[1].value, "Hazard 1");
    assert_eq!(fields[3].value, "In Mission");
}

#[test]
fn payload_carries_identity_links_and_deep_link() {
    let body = build_payload(
        "Rock and Stone",
        "abc123",
        "76561198000000000",
        "Hostname",
        "https://avatars.example/full.jpg",
        "EU",
        3,
        "0;3;",
        "",
        &Vec::new(),
    );
    assert!(body.avatar_url.is_some());
    assert_eq!(body.embeds.len(), 1);
    let embed = &body.embeds[0];
    assert_eq!(embed.title, "Rock and Stone");
    assert_eq!(embed.author.name, "Hostname");
    assert_eq!(embed.author.icon_url, "https://avatars.example/full.jpg");
    assert_eq!(
        embed.author.url,
        "https://steamcommunity.com/profiles/76561198000000000"
    );
    assert_eq!(
        embed.description,
        "steam://joinlobby/548430/abc123/76561198000000000"
    );
    assert_eq!(embed.fields.len(), 4);
}

#[test]
fn link_builders_follow_the_fixed_schemes() {
    assert_eq!(
        profile_url("76561198000000000"),
        "https://steamcommunity.com/profiles/76561198000000000"
    );
    assert_eq!(
        deep_link("lob", "host"),
        "steam://joinlobby/548430/lob/host"
    );
    assert_eq!(create_url("https://hook"), "https://hook?wait=true");
    assert_eq!(
        update_url("https://hook", "m1"),
        "https://hook/messages/m1?wait=true"
    );
    assert_eq!(delete_url("https://hook", "m1"), "https://hook/messages/m1");
}

#[test]
fn first_player_takes_the_first_profile() {
    let resp = SteamPlayerResponse {
        players: vec![player("One", "a1"), player("Two", "a2")],
    };
    let p = first_player(&resp).unwrap();
    assert_eq!(p.personaname, "One");
    assert_eq!(p.avatarfull, "a1");
}

#[test]
fn empty_player_list_is_not_found_rather_than_a_crash() {
    let resp = SteamPlayerResponse { players: Vec::new() };
    assert_eq!(first_player(&resp).unwrap_err(), DirectoryError::NotFound);
}
