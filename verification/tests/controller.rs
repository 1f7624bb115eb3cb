use aviutl2_ndi_live_output::ndi::{drop_channel, LatestSlot};

#[test]
fn video_latest_wins_and_audio_queue_overflow() {
    let mut video = LatestSlot::new();
    video.push(1u32);
    video.push(2u32);
    video.push(3u32);
    assert_eq!(video.drops(), 2);
    assert_eq!(video.take(), Some(3));

    let mut audio_tx = drop_channel::<&'static str>(1);
    assert!(audio_tx.try_send("a1"));
    assert!(!audio_tx.try_send("a2"));
    assert_eq!(audio_tx.drops(), 1);
    assert_eq!(audio_tx.try_recv(), Some("a1"));
    assert_eq!(audio_tx.drops(), 1);
}
