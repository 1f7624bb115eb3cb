use vstd::prelude::*;

verus! {

/// "はい" for `true`, "いいえ" for `false`.
pub fn bool_jp(value: bool) -> (r: &'static str)
    ensures
        r@ == (if value {
            "はい"@
        } else {
            "いいえ"@
        }),
{
    if value {
        "はい"
    } else {
        "いいえ"
    }
}

/// The runtime version as the status panel shows it: "—" while none is known.
pub fn runtime_label(version: &str) -> (r: &str)
    ensures
        r@ == (if version@.len() == 0 {
            "—"@
        } else {
            version@
        }),
{
    if version.is_empty() {
        "—"
    } else {
        version
    }
}

/// The last error as the status panel shows it: "なし" while there is none.
pub fn error_label(last_error: Option<&str>) -> (r: &str)
    ensures
        r@ == (match last_error {
            Some(e) => e@,
            None => "なし"@,
        }),
{
    match last_error {
        Some(e) => e,
        None => "なし",
    }
}

/// Which controls of the docking window take input.
#[derive(Debug, Clone, Copy, PartialEq, Eq, Structural)]
pub struct ControlState {
    pub start_enabled: bool,
    pub cancel_enabled: bool,
    pub cue_enabled: bool,
    pub stop_enabled: bool,
    pub settings_editable: bool,
}

/// The controls while a bake runs (`baking`), while frames go out (`sending`), and when the
/// player is ready to cue (`cue_ready`): start only when no bake runs, cancel only during one,
/// stop during either, and the settings only when neither.
pub fn control_state(baking: bool, sending: bool, cue_ready: bool) -> (r: ControlState)
    ensures
        r.start_enabled == !baking,
        r.cancel_enabled == baking,
        r.cue_enabled == cue_ready,
        r.stop_enabled == (sending || baking),
        r.settings_editable == (!sending && !baking),
{
    ControlState {
        start_enabled: !baking,
        cancel_enabled: baking,
        cue_enabled: cue_ready,
        stop_enabled: sending || baking,
        settings_editable: !sending && !baking,
    }
}

/// What the window does with the settings draft in one frame.
#[derive(Debug, Clone, Copy, PartialEq, Eq, Structural)]
pub struct DraftSync {
    /// Take the shared settings into the draft, replacing the edits.
    pub refresh_draft: bool,
    /// Read the current scene's name again.
    pub refresh_scene: bool,
    /// Hand the draft back to the shared state at the end of the frame.
    pub store_draft: bool,
}

/// The draft's handling in a frame: while nothing is baked or sent, the draft follows the
/// shared settings when they changed since it last took them (`epoch_changed`), the scene name
/// is read again and the draft is stored; during a bake or a send the draft is left alone.
pub fn draft_sync(sending: bool, baking: bool, epoch_changed: bool) -> (r: DraftSync)
    ensures
        r.refresh_draft == (!sending && !baking && epoch_changed),
        r.refresh_scene == (!sending && !baking),
        r.store_draft == (!sending && !baking),
{
    let idle: bool = !sending && !baking;
    DraftSync { refresh_draft: idle && epoch_changed, refresh_scene: idle, store_draft: idle }
}

} // verus!
