use lobby_notify::classes::format_classes;
use lobby_notify::fields::{format_mod_field, ModRef};

const DRILLER: &str = "<:driller:964680901621612584>";
const ENGINEER: &str = "<:engineer:964680922920255548>";
const GUNNER: &str = "<:gunner:964680948530704404>";
const SCOUT: &str = "<:scout:964680965521813524>";
const UNKNOWN: &str = "<unknown>";
const EMPTY: &str = "<:empty:964681045347823616>";

fn named_mod(category: Option<i32>, name: &str, url: &str) -> ModRef {
    ModRef {
        id: 1,
        category,
        name: Some(name.to_string()),
        url: Some(url.to_string()),
    }
}

fn hidden_mod(category: Option<i32>) -> ModRef {
    ModRef {
        id: 2,
        category,
        name: None,
        url: None,
    }
}

#[test]
fn mod_field_renders_links() {
    let mods = vec![named_mod(Some(0), "Sandbox Utilities", "https://mod.io/g/drg/m/sandbox-utilities")];
    let field = format_mod_field(&mods, 0, "Verified Mods").unwrap();
    assert_eq!(field.name, "Verified Mods");
    assert_eq!(
        field.value,
        "[Sandbox Utilities](https://mod.io/g/drg/m/sandbox-utilities)\n"
    );
    assert!(field.inline);
}

#[test]
fn mod_field_renders_hidden_mods() {
    let mods = vec![hidden_mod(Some(1)), named_mod(Some(1), "A", "u")];
    let field = format_mod_field(&mods, 1, "Approved Mods").unwrap();
    assert_eq!(field.value, "Hidden mod\n[A](u)\n");
}

#[test]
fn mod_field_filters_by_category() {
    let mods = vec![
        named_mod(Some(0), "Zero", "u0"),
        named_mod(Some(2), "Two", "u2"),
        hidden_mod(None),
    ];
    let field = format_mod_field(&mods, 2, "Sandboxed Mods").unwrap();
    assert_eq!(field.value, "[Two](u2)\n");
}

#[test]
fn mod_field_empty_category_yields_no_field() {
    let mods = vec![named_mod(Some(0), "Zero", "u0"), hidden_mod(None)];
    assert!(format_mod_field(&mods, 2, "Sandboxed Mods").is_none());
    assert!(format_mod_field(&Vec::new(), 0, "Verified Mods").is_none());
}

#[test]
fn mod_field_uncategorized_mods_are_in_no_field() {
    // a mod whose category is absent is a deliberate hidden state, but it
    // belongs to no category field
    let mods = vec![hidden_mod(None)];
    assert!(format_mod_field(&mods, 0, "Verified Mods").is_none());
    assert!(format_mod_field(&mods, 1, "Approved Mods").is_none());
    assert!(format_mod_field(&mods, 2, "Sandboxed Mods").is_none());
}

#[test]
fn mod_field_truncates_with_summary_within_cap() {
    // each entry renders to 98 characters, 99 with its newline
    let name = "n".repeat(50);
    let url = "u".repeat(44);
    let mods: Vec<ModRef> = (0..20).map(|_| named_mod(Some(0), &name, &url)).collect();
    let field = format_mod_field(&mods, 0, "Verified Mods").unwrap();
    let count = field.value.chars().count();
    assert!(count <= 1000, "field value holds {} characters", count);
    // nine entries fit below the entry limit; the other eleven are summarized
    let entry = format!("[{}]({})\n", name, url);
    let expected = format!("{}...and 11 more", entry.repeat(9));
    assert_eq!(field.value, expected);
}

#[test]
fn mod_field_long_list_of_short_entries_is_not_truncated() {
    let mods: Vec<ModRef> = (0..5).map(|_| named_mod(Some(0), "a", "b")).collect();
    let field = format_mod_field(&mods, 0, "Verified Mods").unwrap();
    assert_eq!(field.value, "[a](b)\n".repeat(5));
}

#[test]
fn classes_render_in_token_order_padded_to_four() {
    let expected = format!("{}{}{}{}", DRILLER, SCOUT, EMPTY, EMPTY);
    assert_eq!(format_classes("0;3;"), expected);
}

#[test]
fn classes_empty_string_is_all_empty_slots() {
    assert_eq!(format_classes(""), EMPTY.repeat(4));
}

#[test]
fn classes_full_lobby_shows_all_four() {
    let expected = format!("{}{}{}{}", DRILLER, ENGINEER, GUNNER, SCOUT);
    assert_eq!(format_classes("0;1;2;3;"), expected);
}

#[test]
fn classes_unrecognized_tokens_map_to_placeholder() {
    let expected = format!("{}{}{}{}", UNKNOWN, UNKNOWN, EMPTY, EMPTY);
    assert_eq!(format_classes("9;12;"), expected);
}

#[test]
fn classes_digits_without_semicolon_are_skipped() {
    let expected = format!("{}{}{}{}", GUNNER, EMPTY, EMPTY, EMPTY);
    assert_eq!(format_classes("12a2;34"), expected);
}

#[test]
fn classes_beyond_four_tokens_show_only_four_glyphs() {
    let expected = format!("{}{}{}{}", DRILLER, DRILLER, DRILLER, DRILLER);
    assert_eq!(format_classes("0;0;0;0;1;2;"), expected);
}
