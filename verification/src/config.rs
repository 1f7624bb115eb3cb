use vstd::prelude::*;
use vstd::string::StrSliceExecFns;
use vstd::string::StringExecFns;

use crate::text::{trim, trim_bounds, trims_to_empty, chars_of};

verus! {

pub const PLUGIN_DISPLAY_NAME: &'static str = "AviUtl2 Network Video Output";
pub const PLUGIN_AUTHOR: &'static str = "未完成成果物研究所";
pub const PROJECT_CONFIG_KEY: &'static str = "ndi_live_config";
pub const DEFAULT_QUEUE_DEPTH: usize = 4;
pub const MIN_QUEUE_DEPTH: usize = 1;
pub const MAX_QUEUE_DEPTH: usize = 16;
pub const MAX_SOURCE_NAME_LEN: usize = 63;
pub const MAX_GROUPS_LEN: usize = 255;
pub const PREVIEW_MAX_WIDTH: u32 = 320;
pub const SCENE_HINT: &'static str = "出したいシーンを開いてから描画開始してください。描画中はそのシーンを編集しないでください。";
pub const NDI_SITE: &'static str = "https://ndi.video/";
pub const NDI_TRADEMARK: &'static str = "NDI® is a registered trademark of Vizrt NDI AB.";
pub const LICENSE_NOTICE: &'static str = "プラグイン本体は MIT ライセンスです。NDI® ランタイムは同梱の NDI_TERMS.txt に従います。";

/// The send settings that a project stores and the docking window edits.
#[derive(Debug, Clone)]
pub struct PluginConfig {
    pub source_name: String,
    pub groups: String,
    pub send_video: bool,
    pub send_audio: bool,
    pub send_alpha: bool,
    pub send_queue_depth: usize,
}

/// What a `PluginConfig` holds, with its strings as sequences of characters.
#[verifier::ext_equal]
pub struct ConfigView {
    pub source_name: Seq<char>,
    pub groups: Seq<char>,
    pub send_video: bool,
    pub send_audio: bool,
    pub send_alpha: bool,
    pub send_queue_depth: usize,
}

impl View for PluginConfig {
    type V = ConfigView;

    open spec fn view(&self) -> ConfigView {
        ConfigView {
            source_name: self.source_name@,
            groups: self.groups@,
            send_video: self.send_video,
            send_audio: self.send_audio,
            send_alpha: self.send_alpha,
            send_queue_depth: self.send_queue_depth,
        }
    }
}

/// The source name used when none is given: "AviUtl2".
pub open spec fn default_source_name_view() -> Seq<char> {
    seq!['A', 'v', 'i', 'U', 't', 'l', '2']
}

/// The settings of a fresh project.
pub open spec fn default_config_view() -> ConfigView {
    ConfigView {
        source_name: default_source_name_view(),
        groups: Seq::empty(),
        send_video: true,
        send_audio: true,
        send_alpha: false,
        send_queue_depth: DEFAULT_QUEUE_DEPTH,
    }
}

/// The first `max` characters of `s`, as `chars().take(max)` keeps them.
pub open spec fn truncate(s: Seq<char>, max: nat) -> Seq<char> {
    if s.len() > max {
        s.take(max as int)
    } else {
        s
    }
}

/// `d` brought into `MIN_QUEUE_DEPTH..=MAX_QUEUE_DEPTH`.
pub open spec fn clamp_depth(d: usize) -> usize {
    if d < MIN_QUEUE_DEPTH {
        MIN_QUEUE_DEPTH
    } else if d > MAX_QUEUE_DEPTH {
        MAX_QUEUE_DEPTH
    } else {
        d
    }
}

/// A blank source name becomes the default one; a long one is cut to its first characters.
pub open spec fn clamp_source_name(s: Seq<char>) -> Seq<char> {
    let named = if trim(s).len() == 0 {
        default_source_name_view()
    } else {
        s
    };
    truncate(named, MAX_SOURCE_NAME_LEN as nat)
}

/// What `clamped` makes of a configuration.
pub open spec fn clamp_view(c: ConfigView) -> ConfigView {
    ConfigView {
        source_name: clamp_source_name(c.source_name),
        groups: truncate(c.groups, MAX_GROUPS_LEN as nat),
        send_video: if !c.send_video && !c.send_audio {
            true
        } else {
            c.send_video
        },
        send_audio: c.send_audio,
        send_alpha: c.send_alpha,
        send_queue_depth: clamp_depth(c.send_queue_depth),
    }
}

/// The configuration that `clamped` keeps as it is.
pub open spec fn within_limits(c: ConfigView) -> bool {
    &&& MIN_QUEUE_DEPTH <= c.send_queue_depth <= MAX_QUEUE_DEPTH
    &&& c.source_name.len() <= MAX_SOURCE_NAME_LEN
    &&& trim(c.source_name).len() > 0
    &&& c.groups.len() <= MAX_GROUPS_LEN
    &&& (c.send_video || c.send_audio)
}

pub fn default_source_name() -> (r: String)
    ensures
        r@ == default_source_name_view(),
{
    proof {
        reveal_strlit("AviUtl2");
    }
    String::from_str("AviUtl2")
}

pub fn default_true() -> (r: bool)
    ensures
        r,
{
    true
}

pub fn default_queue_depth() -> (r: usize)
    ensures
        r == DEFAULT_QUEUE_DEPTH,
{
    DEFAULT_QUEUE_DEPTH
}

impl Default for PluginConfig {
    fn default() -> (r: Self)
        ensures
            r@ == default_config_view(),
    {
        PluginConfig {
            source_name: default_source_name(),
            groups: String::new(),
            send_video: true,
            send_audio: true,
            send_alpha: false,
            send_queue_depth: DEFAULT_QUEUE_DEPTH,
        }
    }
}

/// `s` cut to its first `max` characters.
fn truncate_chars(s: String, max: usize) -> (r: String)
    ensures
        r@ == truncate(s@, max as nat),
{
    if s.as_str().unicode_len() > max {
        String::from_str(s.as_str().substring_char(0, max))
    } else {
        s
    }
}

impl PluginConfig {
    /// Brings the settings into the ranges that a sender accepts.
    pub fn clamped(self) -> (r: Self)
        ensures
            r@ == clamp_view(self@),
            r.send_alpha == self.send_alpha,
            r.send_audio == self.send_audio,
            r.send_video == (self.send_video || !self.send_audio),
            r.send_queue_depth == (if self.send_queue_depth < 1 {
                1
            } else if self.send_queue_depth > 16 {
                16
            } else {
                self.send_queue_depth
            }),
            r.groups@ == self.groups@.take(
                if self.groups@.len() < 255 {
                    self.groups@.len() as int
                } else {
                    255
                },
            ),
            r.source_name@ == ({
                let named = if crate::text::is_blank(self.source_name@) {
                    seq!['A', 'v', 'i', 'U', 't', 'l', '2']
                } else {
                    self.source_name@
                };
                named.take(
                    if named.len() < 63 {
                        named.len() as int
                    } else {
                        63
                    },
                )
            }),
    {
        proof {
            lemma_clamped_fields(self@);
        }
        let mut c = self;
        if c.send_queue_depth < MIN_QUEUE_DEPTH {
            c.send_queue_depth = MIN_QUEUE_DEPTH;
        } else if c.send_queue_depth > MAX_QUEUE_DEPTH {
            c.send_queue_depth = MAX_QUEUE_DEPTH;
        }
        if trims_to_empty(c.source_name.as_str()) {
            c.source_name = default_source_name();
        }
        c.source_name = truncate_chars(c.source_name, MAX_SOURCE_NAME_LEN);
        c.groups = truncate_chars(c.groups, MAX_GROUPS_LEN);
        if !c.send_video && !c.send_audio {
            c.send_video = true;
        }
        c
    }

    /// The groups with their surrounding white space removed, or `None` where nothing is left.
    pub fn groups_opt(&self) -> (r: Option<&str>)
        ensures
            match r {
                None => trim(self.groups@).len() == 0,
                Some(t) => t@ == trim(self.groups@) && t@.len() > 0,
            },
    {
        let g = self.groups.as_str();
        let v = chars_of(g);
        let (start, end) = trim_bounds(&v);
        if start == end {
            None
        } else {
            Some(g.substring_char(start, end))
        }
    }
}

} // verus!

verus! {

/// The inputs on which cutting a source name to its first characters leaves only white space
/// though the whole name held more.
pub open spec fn name_cut_to_blank(s: Seq<char>) -> bool {
    trim(s).len() > 0 && trim(truncate(s, MAX_SOURCE_NAME_LEN as nat)).len() == 0
}

proof fn lemma_default_name_not_blank()
    ensures
        trim(default_source_name_view()).len() > 0,
{
    let d = default_source_name_view();
    crate::text::lemma_trim_empty_iff_blank(d);
    assert(!crate::text::is_white_space(d[0]));
}

/// A clamped configuration lies within every limit: a queue depth in `1..=16`, a source
/// name of at most 63 characters that is not blank, groups of at most 255 characters, and
/// at least one of video and audio sent. The name stays blank only where cutting it made it so.
pub proof fn lemma_clamped_within_limits(c: ConfigView)
    requires
        !name_cut_to_blank(c.source_name),
    ensures
        within_limits(clamp_view(c)),
{
    lemma_default_name_not_blank();
}

/// A configuration within the limits comes out of `clamped` unchanged.
pub proof fn lemma_clamped_keeps_valid(c: ConfigView)
    requires
        within_limits(c),
    ensures
        clamp_view(c) == c,
{
    assert(clamp_view(c) =~= c);
}

/// Clamping twice gives what clamping once gives.
pub proof fn lemma_clamped_idempotent(c: ConfigView)
    requires
        !name_cut_to_blank(c.source_name),
    ensures
        clamp_view(clamp_view(c)) == clamp_view(c),
{
    lemma_clamped_within_limits(c);
    lemma_clamped_keeps_valid(clamp_view(c));
}

/// A blank source name is replaced by the default one, whatever white space it held.
pub proof fn lemma_blank_name_becomes_default(c: ConfigView)
    requires
        crate::text::is_blank(c.source_name),
    ensures
        clamp_view(c).source_name == default_source_name_view(),
{
    crate::text::lemma_trim_empty_iff_blank(c.source_name);
}

/// What `clamped` does to each setting, whatever the source name holds: the depth is brought
/// into `1..=16`, the groups are cut to their first 255 characters, video is turned on only
/// when nothing would be sent, audio and alpha are kept, and the name alone depends on whether
/// it is blank: a blank one becomes "AviUtl2", and the name is then cut to its first 63
/// characters.
pub proof fn lemma_clamped_fields(c: ConfigView)
    ensures
        clamp_view(c).send_alpha == c.send_alpha,
        clamp_view(c).send_audio == c.send_audio,
        clamp_view(c).send_video == (c.send_video || !c.send_audio),
        clamp_view(c).send_queue_depth == (if c.send_queue_depth < 1 {
            1
        } else if c.send_queue_depth > 16 {
            16
        } else {
            c.send_queue_depth
        }),
        clamp_view(c).groups == c.groups.take(
            if c.groups.len() < 255 {
                c.groups.len() as int
            } else {
                255
            },
        ),
        clamp_view(c).source_name == ({
            let named = if crate::text::is_blank(c.source_name) {
                seq!['A', 'v', 'i', 'U', 't', 'l', '2']
            } else {
                c.source_name
            };
            named.take(
                if named.len() < 63 {
                    named.len() as int
                } else {
                    63
                },
            )
        }),
{
    crate::text::lemma_trim_empty_iff_blank(c.source_name);
    assert(c.groups.take(c.groups.len() as int) =~= c.groups);
    let d = default_source_name_view();
    assert(d.take(d.len() as int) =~= d);
    assert(c.source_name.take(c.source_name.len() as int) =~= c.source_name);
}

/// A blank source name changes the name alone: two configurations that differ only in their
/// names come out of `clamped` differing only in their names.
pub proof fn lemma_name_changes_name_alone(c: ConfigView, d: ConfigView)
    requires
        c.groups == d.groups,
        c.send_video == d.send_video,
        c.send_audio == d.send_audio,
        c.send_alpha == d.send_alpha,
        c.send_queue_depth == d.send_queue_depth,
    ensures
        clamp_view(c).groups == clamp_view(d).groups,
        clamp_view(c).send_video == clamp_view(d).send_video,
        clamp_view(c).send_audio == clamp_view(d).send_audio,
        clamp_view(c).send_alpha == clamp_view(d).send_alpha,
        clamp_view(c).send_queue_depth == clamp_view(d).send_queue_depth,
{
    lemma_clamped_fields(c);
    lemma_clamped_fields(d);
}

} // verus!
