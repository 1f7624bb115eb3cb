use aviutl2_ndi_live_output::config::{
    default_queue_depth, default_source_name, default_true, PluginConfig, DEFAULT_QUEUE_DEPTH,
    MAX_GROUPS_LEN, MAX_QUEUE_DEPTH, MAX_SOURCE_NAME_LEN, MIN_QUEUE_DEPTH,
};

fn config(name: &str, groups: &str, video: bool, audio: bool, depth: usize) -> PluginConfig {
    PluginConfig {
        source_name: name.to_string(),
        groups: groups.to_string(),
        send_video: video,
        send_audio: audio,
        send_alpha: false,
        send_queue_depth: depth,
    }
}

#[test]
fn defaults() {
    assert_eq!(default_source_name(), "AviUtl2");
    assert!(default_true());
    assert_eq!(default_queue_depth(), 4);
    let c = PluginConfig::default();
    assert_eq!(c.source_name, "AviUtl2");
    assert_eq!(c.groups, "");
    assert!(c.send_video);
    assert!(c.send_audio);
    assert!(!c.send_alpha);
    assert_eq!(c.send_queue_depth, DEFAULT_QUEUE_DEPTH);
}

#[test]
fn clamped_bounds_queue_depth() {
    assert_eq!(config("a", "", true, true, 0).clamped().send_queue_depth, MIN_QUEUE_DEPTH);
    assert_eq!(config("a", "", true, true, 100).clamped().send_queue_depth, MAX_QUEUE_DEPTH);
    assert_eq!(config("a", "", true, true, 7).clamped().send_queue_depth, 7);
    assert_eq!(config("a", "", true, true, 16).clamped().send_queue_depth, 16);
}

#[test]
fn clamped_replaces_blank_name() {
    assert_eq!(config("", "", true, true, 4).clamped().source_name, "AviUtl2");
    assert_eq!(config(" \t\u{3000}\n", "", true, true, 4).clamped().source_name, "AviUtl2");
    assert_eq!(config(" Cam ", "", true, true, 4).clamped().source_name, " Cam ");
}

#[test]
fn clamped_cuts_long_strings_by_characters() {
    let long: String = "あ".repeat(70);
    let c = config(&long, &"g".repeat(300), true, true, 4).clamped();
    assert_eq!(c.source_name.chars().count(), MAX_SOURCE_NAME_LEN);
    assert_eq!(c.source_name, "あ".repeat(63));
    assert_eq!(c.groups.chars().count(), MAX_GROUPS_LEN);
    let exact = "x".repeat(63);
    assert_eq!(config(&exact, "", true, true, 4).clamped().source_name, exact);
}

#[test]
fn clamped_turns_video_on_when_nothing_is_sent() {
    let c = config("a", "", false, false, 4).clamped();
    assert!(c.send_video);
    assert!(!c.send_audio);
    let c = config("a", "", false, true, 4).clamped();
    assert!(!c.send_video);
    assert!(c.send_audio);
}

#[test]
fn clamped_twice_is_clamped_once() {
    let once = config("  ", &"g".repeat(400), false, false, 99).clamped();
    let twice = once.clone().clamped();
    assert_eq!(once.source_name, twice.source_name);
    assert_eq!(once.groups, twice.groups);
    assert_eq!(once.send_video, twice.send_video);
    assert_eq!(once.send_queue_depth, twice.send_queue_depth);
}

#[test]
fn name_cut_to_white_space_stays_blank_once() {
    let name = format!("{}x", " ".repeat(63));
    let once = config(&name, "", true, true, 4).clamped();
    assert_eq!(once.source_name, " ".repeat(63));
    let twice = once.clamped();
    assert_eq!(twice.source_name, "AviUtl2");
}

#[test]
fn groups_opt_trims() {
    assert_eq!(config("a", "", true, true, 4).groups_opt(), None);
    assert_eq!(config("a", "  \t ", true, true, 4).groups_opt(), None);
    assert_eq!(config("a", " studio,b ", true, true, 4).groups_opt(), Some("studio,b"));
    assert_eq!(config("a", "\u{3000}群\u{3000}", true, true, 4).groups_opt(), Some("群"));
}
