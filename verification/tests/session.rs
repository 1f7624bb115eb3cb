use aviutl2_ndi_live_output::config::PluginConfig;
use aviutl2_ndi_live_output::ndi::{
    drop_channel, first_with_runtime, observe_link, plan_session, runtime_search_order,
    LatestSlot, RuntimeLocation, TallyState,
};
use aviutl2_ndi_live_output::ui::{bool_jp, control_state, draft_sync, error_label, runtime_label};

#[test]
fn link_status_follows_connections_and_tally() {
    let mut video = LatestSlot::new();
    video.push(1u8);
    video.push(2u8);
    let mut audio = drop_channel::<u8>(2);
    let _ = audio.try_send(1);
    let _ = audio.try_send(2);
    let _ = audio.try_send(3);

    let s = observe_link(
        Some(2),
        Some(TallyState { on_program: true, on_preview: false }),
        true,
        false,
        &video,
        &audio,
    );
    assert_eq!(s.connections, 2);
    assert!(s.video_subscribed);
    assert!(!s.audio_subscribed);
    assert!(s.tally_program);
    assert!(!s.tally_preview);
    assert_eq!(s.video_drops, 1);
    assert_eq!(s.audio_drops, 1);
    assert_eq!(s.queue_depth, 2);
    assert_eq!(s.video_queued, 1);

    let s = observe_link(None, None, true, true, &video, &audio);
    assert_eq!(s.connections, 0);
    assert!(!s.video_subscribed);
    assert!(!s.audio_subscribed);
    assert!(!s.tally_program);
}

#[test]
fn session_plan_follows_config() {
    let mut c = PluginConfig::default();
    c.groups = "  public ".to_string();
    c.send_audio = false;
    let plan = plan_session(&c);
    assert_eq!(plan.source_name, "AviUtl2");
    assert_eq!(plan.groups.as_deref(), Some("public"));
    assert!(plan.clock_video);
    assert!(!plan.clock_audio);
    assert!(plan.video_worker);
    assert!(!plan.audio_worker);
    c.groups = " ".to_string();
    assert_eq!(plan_session(&c).groups, None);
}

#[test]
fn runtime_is_searched_beside_the_plugin_first() {
    assert_eq!(
        runtime_search_order(true, true, true),
        vec![RuntimeLocation::PluginDir, RuntimeLocation::PluginDataDir, RuntimeLocation::SdkBin, RuntimeLocation::RuntimeEnvDir, RuntimeLocation::DefaultSdkBin, RuntimeLocation::DefaultRuntime]
    );
    assert_eq!(runtime_search_order(false, false, false), vec![RuntimeLocation::DefaultSdkBin, RuntimeLocation::DefaultRuntime]);
    assert_eq!(
        runtime_search_order(false, true, false),
        vec![RuntimeLocation::SdkBin, RuntimeLocation::DefaultSdkBin, RuntimeLocation::DefaultRuntime]
    );
    assert_eq!(first_with_runtime(&vec![false, true, true]), Some(1));
    assert_eq!(first_with_runtime(&vec![false, false]), None);
    assert_eq!(first_with_runtime(&vec![]), None);
}

#[test]
fn ui_labels_and_controls() {
    assert_eq!(bool_jp(true), "はい");
    assert_eq!(bool_jp(false), "いいえ");
    let idle = control_state(false, false, false);
    assert!(idle.start_enabled && !idle.cancel_enabled && !idle.stop_enabled && idle.settings_editable);
    let baking = control_state(true, false, false);
    assert!(!baking.start_enabled && baking.cancel_enabled && baking.stop_enabled);
    assert!(!baking.settings_editable);
    let sending = control_state(false, true, true);
    assert!(sending.start_enabled && sending.cue_enabled && sending.stop_enabled);
    assert!(!sending.settings_editable);
}

#[test]
fn status_labels() {
    assert_eq!(runtime_label(""), "—");
    assert_eq!(runtime_label("6.1.1"), "6.1.1");
    assert_eq!(error_label(None), "なし");
    assert_eq!(error_label(Some("video frame: bad")), "video frame: bad");
}

#[test]
fn draft_follows_shared_settings_only_when_idle() {
    let idle = draft_sync(false, false, true);
    assert!(idle.refresh_draft && idle.refresh_scene && idle.store_draft);
    let unchanged = draft_sync(false, false, false);
    assert!(!unchanged.refresh_draft && unchanged.refresh_scene && unchanged.store_draft);
    let sending = draft_sync(true, false, true);
    assert!(!sending.refresh_draft && !sending.refresh_scene && !sending.store_draft);
    let baking = draft_sync(false, true, true);
    assert!(!baking.refresh_draft && !baking.refresh_scene && !baking.store_draft);
}
