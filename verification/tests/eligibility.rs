use lobby_notify::eligibility::{
    default_allowlist, default_excludelist, mods_for_snapshot, select_eligible, LobbySnapshot,
    ModMeta, ModSighting,
};

fn snapshot(lobby_id: &str, time: u64) -> LobbySnapshot {
    LobbySnapshot {
        time,
        lobby_id: lobby_id.to_string(),
        host_user_id: "7656119".to_string(),
        server_name: format!("lobby {}", lobby_id),
        region: "EU".to_string(),
        diff: 3,
        classes: "0;".to_string(),
        start: String::new(),
    }
}

fn sighting(lobby_id: &str, time: u64, mod_id: u64) -> ModSighting {
    ModSighting {
        time,
        lobby_id: lobby_id.to_string(),
        mod_id,
        category: Some(0),
    }
}

#[test]
fn selection_filters_and_orders_by_capture_time() {
    let now: u64 = 10_000;
    let snaps = vec![
        snapshot("c", 9800),
        snapshot("a", 9500),
        snapshot("b", 9700),
        snapshot("a", 9600),
        snapshot("old", 9000),
        snapshot("d", 9650),
        snapshot("e", 9550),
    ];
    let mems = vec![
        sighting("a", 9600, 1861561),
        sighting("a", 9500, 1861561),
        sighting("b", 9700, 1897251),
        sighting("b", 9700, 1034411),
        sighting("c", 9800, 1775635),
        sighting("c", 9000, 1034411),
        sighting("d", 9650, 999),
        sighting("e", 9550, 1143817),
        sighting("e", 9900, 1034683),
    ];
    let allow = default_allowlist();
    let excl = default_excludelist();
    let picked = select_eligible(&snaps, &mems, &allow, &excl, now);
    // "old" is outside the ten-minute window; the 9500 snapshot of "a" is
    // not the latest; "b" is barred because its latest excluded-mod
    // sighting is as new as its snapshot; "d" has no allowed mod; "c" only
    // saw its excluded mod in an older capture, so it passes; "e"'s
    // excluded-mod sighting is newer than its snapshot, so exclusion does
    // not stick to it
    assert_eq!(picked, vec![6, 3, 0]);
}

#[test]
fn selection_of_empty_tables_is_empty() {
    let picked = select_eligible(
        &Vec::new(),
        &Vec::new(),
        &default_allowlist(),
        &default_excludelist(),
        1_000,
    );
    assert!(picked.is_empty());
}

#[test]
fn join_pairs_sightings_with_metadata() {
    let snap = snapshot("c", 9800);
    let mems = vec![
        sighting("c", 9800, 1775635),
        sighting("c", 9800, 42),
        sighting("c", 9000, 1034411),
        sighting("b", 9800, 1897251),
    ];
    let table = vec![
        ModMeta {
            mod_id: 1897251,
            name: Some("Other".to_string()),
            url: Some("https://mod.io/other".to_string()),
        },
        ModMeta {
            mod_id: 1775635,
            name: Some("Mod C".to_string()),
            url: Some("https://mod.io/mod-c".to_string()),
        },
    ];
    let mods = mods_for_snapshot(&snap, &mems, &table);
    // only the sighting at this capture for this lobby, and only with a
    // metadata row
    assert_eq!(mods.len(), 1);
    assert_eq!(mods[0].id, 1775635);
    assert_eq!(mods[0].category, Some(0));
    assert_eq!(mods[0].name.as_deref(), Some("Mod C"));
    assert_eq!(mods[0].url.as_deref(), Some("https://mod.io/mod-c"));
}

#[test]
fn join_keeps_unresolved_metadata_fields_absent() {
    let snap = snapshot("a", 9600);
    let mems = vec![sighting("a", 9600, 1861561)];
    let table = vec![ModMeta {
        mod_id: 1861561,
        name: None,
        url: None,
    }];
    let mods = mods_for_snapshot(&snap, &mems, &table);
    assert_eq!(mods.len(), 1);
    assert!(mods[0].name.is_none());
    assert!(mods[0].url.is_none());
}

#[test]
fn configured_mod_lists_hold_the_known_ids() {
    let allow = default_allowlist();
    assert_eq!(allow.len(), 13);
    assert!(allow.contains(&1861561));
    assert!(allow.contains(&2093114));
    let excl = default_excludelist();
    assert_eq!(excl.len(), 5);
    assert!(excl.contains(&1034411));
    assert!(excl.contains(&1159061));
}
