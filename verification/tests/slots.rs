use aviutl2_ndi_live_output::ndi::{drop_channel, LatestSlot};

#[test]
fn slot_starts_empty() {
    let slot: LatestSlot<u8> = LatestSlot::new();
    assert_eq!(slot.len(), 0);
    assert!(slot.is_empty());
    assert_eq!(slot.drops(), 0);
    let default_slot: LatestSlot<u8> = LatestSlot::default();
    assert!(default_slot.is_empty());
    assert_eq!(default_slot.drops(), 0);
}

#[test]
fn push_into_empty_slot_drops_nothing() {
    let mut slot = LatestSlot::new();
    slot.push(7u8);
    assert_eq!(slot.len(), 1);
    assert!(!slot.is_empty());
    assert_eq!(slot.drops(), 0);
    assert_eq!(slot.take(), Some(7));
    assert_eq!(slot.take(), None);
    assert_eq!(slot.drops(), 0);
}

#[test]
fn clear_empties_without_counting_a_drop() {
    let mut slot = LatestSlot::new();
    slot.push(1u8);
    slot.push(2u8);
    slot.clear();
    assert!(slot.is_empty());
    assert_eq!(slot.drops(), 1);
    slot.push(3u8);
    assert_eq!(slot.drops(), 1);
}

#[test]
fn latest_wins_over_many_pushes() {
    let mut slot = LatestSlot::new();
    for i in 0..10u32 {
        slot.push(i);
    }
    assert_eq!(slot.drops(), 9);
    assert_eq!(slot.take(), Some(9));
}

#[test]
fn channel_depth_zero_still_holds_one() {
    let mut tx = drop_channel::<u32>(0);
    assert!(tx.try_send(1));
    assert!(!tx.try_send(2));
    assert_eq!(tx.queued(), 1);
    assert_eq!(tx.drops(), 1);
}

#[test]
fn channel_is_first_in_first_out() {
    let mut tx = drop_channel::<u32>(3);
    for i in 0..5u32 {
        let _ = tx.try_send(i);
    }
    assert_eq!(tx.queued(), 3);
    assert_eq!(tx.len(), 3);
    assert_eq!(tx.drops(), 2);
    assert_eq!(tx.try_recv(), Some(0));
    assert_eq!(tx.try_recv(), Some(1));
    assert!(tx.try_send(9));
    assert_eq!(tx.try_recv(), Some(2));
    assert_eq!(tx.try_recv(), Some(9));
    assert_eq!(tx.try_recv(), None);
    assert_eq!(tx.len(), 0);
    assert_eq!(tx.queued(), 4);
    assert_eq!(tx.drops(), 2);
}

#[test]
fn channel_with_room_accepts_after_a_receive() {
    let mut tx = drop_channel::<&'static str>(1);
    assert!(tx.try_send("a"));
    assert!(!tx.try_send("b"));
    assert_eq!(tx.try_recv(), Some("a"));
    assert!(tx.try_send("c"));
    assert_eq!(tx.try_recv(), Some("c"));
    assert_eq!(tx.drops(), 1);
}

#[test]
fn depth_zero_is_raised_to_one_and_counts_accepted_sends() {
    let mut tx = drop_channel::<u8>(0);
    assert!(tx.try_send(1));
    assert!(!tx.try_send(2));
    assert_eq!(tx.try_recv(), Some(1));
    assert_eq!(tx.drops(), 1);
    assert_eq!(tx.queued(), 1);
    tx.note_received();
    assert_eq!(tx.queued(), 0);
}

#[test]
fn closed_channel_drops_every_send() {
    let mut tx = drop_channel::<u8>(4);
    assert!(tx.try_send(1));
    tx.close();
    assert!(tx.is_closed());
    assert_eq!(tx.len(), 0);
    assert!(!tx.try_send(2));
    assert!(!tx.try_send(3));
    assert_eq!(tx.drops(), 2);
    assert_eq!(tx.queued(), 1);
    assert_eq!(tx.try_recv(), None);
}

#[test]
fn accepted_count_wraps_below_zero() {
    let mut tx = drop_channel::<u8>(1);
    tx.note_received();
    assert_eq!(tx.queued(), usize::MAX);
    assert!(tx.try_send(5));
    assert_eq!(tx.queued(), 0);
}

#[test]
fn mixed_sends_and_receives_keep_order_and_counts() {
    let mut tx = drop_channel::<u32>(2);
    let mut received = Vec::new();
    let mut accepted = Vec::new();
    let mut refused = 0u64;
    for i in 0..20u32 {
        if tx.try_send(i) {
            accepted.push(i);
        } else {
            refused += 1;
        }
        if i % 3 == 0 {
            if let Some(x) = tx.try_recv() {
                received.push(x);
            }
        }
    }
    while let Some(x) = tx.try_recv() {
        received.push(x);
    }
    assert_eq!(received, accepted);
    assert_eq!(tx.drops(), refused);
    assert_eq!(tx.queued(), accepted.len());
    assert_eq!(accepted.len() as u64 + refused, 20);
}
