//! Vixen 3 import: the wizard's data records and the rules that map Vixen's
//! colour-handling and direction vocabulary onto the timeline's.

use vstd::prelude::*;
use vstd::string::*;

use crate::text::str_eq;
use crate::timeline::{ColorMode, EffectKind, WipeDirection};

verus! {

// ── Shared Vixen format constants ──────────────────────────────────

/// Directory inside a Vixen 3 project containing system configuration.
pub const VIXEN_SYSTEM_DATA_DIR: &'static str = "SystemData";

/// Main Vixen system-config filename.
pub const VIXEN_SYSTEM_CONFIG_FILE: &'static str = "SystemConfig.xml";

/// Vixen sequence file extension.
pub const VIXEN_SEQUENCE_EXT: &'static str = "tim";

/// Vixen module-store filename (for preview data).
pub const VIXEN_MODULE_STORE_FILE: &'static str = "ModuleStore.xml";

// ── Wizard types ────────────────────────────────────────────────────

/// Discovery result from scanning a Vixen directory.
#[derive(Debug, Clone)]
pub struct VixenDiscovery {
    pub vixen_dir: String,
    pub fixtures_found: usize,
    pub groups_found: usize,
    pub controllers_found: usize,
    pub preview_available: bool,
    pub preview_item_count: usize,
    /// Path to the file containing preview data (if found).
    pub preview_file_path: Option<String>,
    pub sequences: Vec<VixenSequenceInfo>,
    pub media_files: Vec<VixenMediaInfo>,
}

/// Info about a discovered Vixen sequence file.
#[derive(Debug, Clone)]
pub struct VixenSequenceInfo {
    pub filename: String,
    pub path: String,
    pub size_bytes: u64,
}

/// Info about a discovered Vixen media file.
#[derive(Debug, Clone)]
pub struct VixenMediaInfo {
    pub filename: String,
    pub path: String,
    pub size_bytes: u64,
}

/// What the user selected for import (sent from frontend).
#[derive(Debug, Clone)]
pub struct VixenImportConfig {
    pub vixen_dir: String,
    pub profile_name: String,
    pub import_controllers: bool,
    pub import_layout: bool,
    /// Optional user-provided path to the file containing preview/layout data.
    pub preview_file_override: Option<String>,
    pub sequence_paths: Vec<String>,
    pub media_filenames: Vec<String>,
}

/// Result returned after full import.
#[derive(Debug, Clone)]
pub struct VixenImportResult {
    pub profile_slug: String,
    pub fixtures_imported: usize,
    pub groups_imported: usize,
    pub controllers_imported: usize,
    pub layout_items_imported: usize,
    pub sequences_imported: usize,
    pub media_imported: usize,
    pub warnings: Vec<String>,
}

// ── Colour handling ─────────────────────────────────────────────────

/// The timeline colour mode of a Vixen colour-handling name; `default` for
/// `StaticColor`, a missing name, or any other name.
pub open spec fn spec_color_handling(handling: Option<Seq<char>>, default: ColorMode) -> ColorMode {
    match handling {
        Some(h) => if h == "GradientThroughWholeEffect"@ {
            ColorMode::GradientThroughEffect
        } else if h == "GradientAcrossItems"@ || h == "ColorAcrossItems"@ {
            ColorMode::GradientAcrossItems
        } else if h == "GradientForEachPulse"@ || h == "GradientOverEachPulse"@ || h
            == "GradientPerPulse"@ {
            ColorMode::GradientPerPulse
        } else {
            default
        },
        None => default,
    }
}

/// The view of an optional string.
pub open spec fn opt_view(s: Option<&str>) -> Option<Seq<char>> {
    match s {
        Some(t) => Some(t@),
        None => None,
    }
}

/// Map Vixen color handling string to our `ColorMode` enum.
///
/// The `default` parameter controls the fallback for `StaticColor` and `None`,
/// which varies by effect type.
pub fn map_color_handling(handling: Option<&str>, default: ColorMode) -> (m: ColorMode)
    ensures
        m == spec_color_handling(opt_view(handling), default),
{
    match handling {
        Some(h) => {
            if str_eq(h, "GradientThroughWholeEffect") {
                ColorMode::GradientThroughEffect
            } else if str_eq(h, "GradientAcrossItems") || str_eq(h, "ColorAcrossItems") {
                ColorMode::GradientAcrossItems
            } else if str_eq(h, "GradientForEachPulse") || str_eq(h, "GradientOverEachPulse")
                || str_eq(h, "GradientPerPulse") {
                ColorMode::GradientPerPulse
            } else {
                default
            }
        },
        None => default,
    }
}

// ── Directions ──────────────────────────────────────────────────────

/// Vixen direction names that run an effect in reverse.
pub open spec fn spec_is_reverse(direction: Option<Seq<char>>) -> bool {
    match direction {
        Some(d) => d == "Reverse"@ || d == "Right"@ || d == "Down"@ || d == "Out"@ || d == "1"@,
        None => false,
    }
}

/// Helper: check if direction indicates reverse.
pub fn is_reverse_direction(direction: Option<&str>) -> (r: bool)
    ensures
        r == spec_is_reverse(opt_view(direction)),
{
    match direction {
        Some(d) => str_eq(d, "Reverse") || str_eq(d, "Right") || str_eq(d, "Down") || str_eq(
            d,
            "Out",
        ) || str_eq(d, "1"),
        None => false,
    }
}

/// The wipe direction and reverse flag of a Vixen direction name; a
/// horizontal forward wipe for `Horizontal`, `Left`, `0`, a missing name,
/// or any other name.
pub open spec fn spec_wipe_direction(direction: Option<Seq<char>>) -> (WipeDirection, bool) {
    match direction {
        Some(d) => if d == "Right"@ || d == "Reverse"@ || d == "1"@ {
            (WipeDirection::Horizontal, true)
        } else if d == "Vertical"@ || d == "Up"@ {
            (WipeDirection::Vertical, false)
        } else if d == "Down"@ {
            (WipeDirection::Vertical, true)
        } else if d == "DiagonalUp"@ {
            (WipeDirection::DiagonalUp, false)
        } else if d == "DiagonalDown"@ {
            (WipeDirection::DiagonalDown, false)
        } else if d == "Burst"@ || d == "BurstIn"@ {
            (WipeDirection::Burst, false)
        } else if d == "BurstOut"@ || d == "Out"@ {
            (WipeDirection::Burst, true)
        } else if d == "Circle"@ || d == "CircleIn"@ {
            (WipeDirection::Circle, false)
        } else if d == "CircleOut"@ {
            (WipeDirection::Circle, true)
        } else if d == "Diamond"@ || d == "DiamondIn"@ {
            (WipeDirection::Diamond, false)
        } else if d == "DiamondOut"@ {
            (WipeDirection::Diamond, true)
        } else {
            (WipeDirection::Horizontal, false)
        },
        None => (WipeDirection::Horizontal, false),
    }
}

/// Map a Vixen wipe direction string to a `WipeDirection` + reverse flag.
pub fn map_wipe_direction(direction: Option<&str>) -> (r: (WipeDirection, bool))
    ensures
        r == spec_wipe_direction(opt_view(direction)),
{
    match direction {
        Some(d) => {
            if str_eq(d, "Right") || str_eq(d, "Reverse") || str_eq(d, "1") {
                (WipeDirection::Horizontal, true)
            } else if str_eq(d, "Vertical") || str_eq(d, "Up") {
                (WipeDirection::Vertical, false)
            } else if str_eq(d, "Down") {
                (WipeDirection::Vertical, true)
            } else if str_eq(d, "DiagonalUp") {
                (WipeDirection::DiagonalUp, false)
            } else if str_eq(d, "DiagonalDown") {
                (WipeDirection::DiagonalDown, false)
            } else if str_eq(d, "Burst") || str_eq(d, "BurstIn") {
                (WipeDirection::Burst, false)
            } else if str_eq(d, "BurstOut") || str_eq(d, "Out") {
                (WipeDirection::Burst, true)
            } else if str_eq(d, "Circle") || str_eq(d, "CircleIn") {
                (WipeDirection::Circle, false)
            } else if str_eq(d, "CircleOut") {
                (WipeDirection::Circle, true)
            } else if str_eq(d, "Diamond") || str_eq(d, "DiamondIn") {
                (WipeDirection::Diamond, false)
            } else if str_eq(d, "DiamondOut") {
                (WipeDirection::Diamond, true)
            } else {
                (WipeDirection::Horizontal, false)
            }
        },
        None => (WipeDirection::Horizontal, false),
    }
}

// ── XML names ───────────────────────────────────────────────────────

/// The characters after the last colon of `s` (all of `s` without a colon).
pub open spec fn spec_strip_ns(s: Seq<char>) -> Seq<char>
    decreases s.len(),
{
    if s.len() == 0 {
        s
    } else if s.last() == ':' {
        Seq::empty()
    } else {
        spec_strip_ns(s.drop_last()).push(s.last())
    }
}

/// Strip XML namespace prefix: "a:Foo" → "Foo", "Foo" → "Foo"
pub fn strip_ns(name: &str) -> (r: &str)
    ensures
        r@ == spec_strip_ns(name@),
{
    let n = name.unicode_len();
    let mut start = n;
    assert(name@.take(n as int) =~= name@);
    assert(name@.subrange(n as int, n as int) =~= Seq::<char>::empty());
    while start > 0 && name.get_char(start - 1) != ':'
        invariant
            start <= n,
            n == name@.len(),
            spec_strip_ns(name@) == spec_strip_ns(name@.take(start as int)) + name@.subrange(
                start as int,
                n as int,
            ),
        decreases start,
    {
        assert(name@.take(start as int).drop_last() =~= name@.take(start - 1));
        assert(name@.subrange(start - 1, n as int) =~= seq![name@[start - 1]] + name@.subrange(
            start as int,
            n as int,
        ));
        start -= 1;
    }
    proof {
        assert(spec_strip_ns(name@.take(start as int)) =~= Seq::<char>::empty()) by {
            if start > 0 {
                assert(name@.take(start as int).last() == ':');
            }
        }
    }
    let r = name.substring_char(start, n);
    assert(r@ =~= spec_strip_ns(name@));
    r
}

// ── Effect types ────────────────────────────────────────────────────

/// Which mapping a Vixen effect type name gets: one per supported effect
/// (`Pulse` and `SetLevel` share one, as do `Snowflakes`, `Meteor` and
/// `Meteors`), effects with no light equivalent (`LipSync`, `CountDown`,
/// `Launcher`, `Video`, `NutcrackerModule`, `Audio`), masking effects
/// (`MaskAndFill`, `Mask`, `Fill`), and every other name.
#[derive(Debug, Clone, Copy, PartialEq, Eq, Structural)]
pub enum VixenEffectRule {
    PulseLevel,
    Chase,
    Spin,
    Wipe,
    Alternating,
    Shockwave,
    Garlands,
    PinWheel,
    Butterfly,
    Dissolve,
    ColorWash,
    Twinkle,
    Strobe,
    Rainbow,
    Fire,
    Fireworks,
    Particles,
    Candle,
    Unsupported,
    Masking,
    Unknown,
}

/// The mapping of an effect type name.
pub open spec fn spec_vixen_effect_rule(n: Seq<char>) -> VixenEffectRule {
    if n == "Pulse"@ || n == "SetLevel"@ {
        VixenEffectRule::PulseLevel
    } else if n == "Chase"@ {
        VixenEffectRule::Chase
    } else if n == "Spin"@ {
        VixenEffectRule::Spin
    } else if n == "Wipe"@ {
        VixenEffectRule::Wipe
    } else if n == "Alternating"@ {
        VixenEffectRule::Alternating
    } else if n == "Shockwave"@ {
        VixenEffectRule::Shockwave
    } else if n == "Garlands"@ {
        VixenEffectRule::Garlands
    } else if n == "PinWheel"@ {
        VixenEffectRule::PinWheel
    } else if n == "Butterfly"@ {
        VixenEffectRule::Butterfly
    } else if n == "Dissolve"@ {
        VixenEffectRule::Dissolve
    } else if n == "ColorWash"@ {
        VixenEffectRule::ColorWash
    } else if n == "Twinkle"@ {
        VixenEffectRule::Twinkle
    } else if n == "Strobe"@ {
        VixenEffectRule::Strobe
    } else if n == "Rainbow"@ {
        VixenEffectRule::Rainbow
    } else if n == "Fire"@ {
        VixenEffectRule::Fire
    } else if n == "Fireworks"@ {
        VixenEffectRule::Fireworks
    } else if n == "Snowflakes"@ || n == "Meteor"@ || n == "Meteors"@ {
        VixenEffectRule::Particles
    } else if n == "Candle"@ {
        VixenEffectRule::Candle
    } else if n == "LipSync"@ || n == "CountDown"@ || n == "Launcher"@ || n == "Video"@ || n == "NutcrackerModule"@ || n == "Audio"@ {
        VixenEffectRule::Unsupported
    } else if n == "MaskAndFill"@ || n == "Mask"@ || n == "Fill"@ {
        VixenEffectRule::Masking
    } else {
        VixenEffectRule::Unknown
    }
}

/// The mapping of a Vixen effect type name.
pub fn vixen_effect_rule(n: &str) -> (r: VixenEffectRule)
    ensures
        r == spec_vixen_effect_rule(n@),
{
    if str_eq(n, "Pulse") || str_eq(n, "SetLevel") {
        VixenEffectRule::PulseLevel
    } else if str_eq(n, "Chase") {
        VixenEffectRule::Chase
    } else if str_eq(n, "Spin") {
        VixenEffectRule::Spin
    } else if str_eq(n, "Wipe") {
        VixenEffectRule::Wipe
    } else if str_eq(n, "Alternating") {
        VixenEffectRule::Alternating
    } else if str_eq(n, "Shockwave") {
        VixenEffectRule::Shockwave
    } else if str_eq(n, "Garlands") {
        VixenEffectRule::Garlands
    } else if str_eq(n, "PinWheel") {
        VixenEffectRule::PinWheel
    } else if str_eq(n, "Butterfly") {
        VixenEffectRule::Butterfly
    } else if str_eq(n, "Dissolve") {
        VixenEffectRule::Dissolve
    } else if str_eq(n, "ColorWash") {
        VixenEffectRule::ColorWash
    } else if str_eq(n, "Twinkle") {
        VixenEffectRule::Twinkle
    } else if str_eq(n, "Strobe") {
        VixenEffectRule::Strobe
    } else if str_eq(n, "Rainbow") {
        VixenEffectRule::Rainbow
    } else if str_eq(n, "Fire") {
        VixenEffectRule::Fire
    } else if str_eq(n, "Fireworks") {
        VixenEffectRule::Fireworks
    } else if str_eq(n, "Snowflakes") || str_eq(n, "Meteor") || str_eq(n, "Meteors") {
        VixenEffectRule::Particles
    } else if str_eq(n, "Candle") {
        VixenEffectRule::Candle
    } else if str_eq(n, "LipSync") || str_eq(n, "CountDown") || str_eq(n, "Launcher") || str_eq(n, "Video") || str_eq(n, "NutcrackerModule") || str_eq(n, "Audio") {
        VixenEffectRule::Unsupported
    } else if str_eq(n, "MaskAndFill") || str_eq(n, "Mask") || str_eq(n, "Fill") {
        VixenEffectRule::Masking
    } else {
        VixenEffectRule::Unknown
    }
}

/// The effect kind a Vixen effect becomes: a mapped kind, or a solid colour
/// that is grey for unknown effects, black for effects with no light
/// equivalent, and the effect's own colour for masking effects.
#[derive(Debug, Clone)]
pub enum VixenKind {
    Mapped(EffectKind),
    SolidGray,
    SolidBlack,
    SolidColor,
}

/// The kind each mapping gives: Pulse, SetLevel, ColorWash, Fire and Candle
/// fade; Chase, Spin, Alternating, Shockwave, Garlands, PinWheel and
/// Butterfly chase; Wipe wipes; Dissolve, Twinkle, Fireworks and the
/// particle effects twinkle; Strobe strobes; Rainbow is a rainbow.
pub open spec fn rule_kind(r: VixenEffectRule) -> VixenKind {
    match r {
        VixenEffectRule::PulseLevel => VixenKind::Mapped(EffectKind::Fade),
        VixenEffectRule::Chase => VixenKind::Mapped(EffectKind::Chase),
        VixenEffectRule::Spin => VixenKind::Mapped(EffectKind::Chase),
        VixenEffectRule::Wipe => VixenKind::Mapped(EffectKind::Wipe),
        VixenEffectRule::Alternating => VixenKind::Mapped(EffectKind::Chase),
        VixenEffectRule::Shockwave => VixenKind::Mapped(EffectKind::Chase),
        VixenEffectRule::Garlands => VixenKind::Mapped(EffectKind::Chase),
        VixenEffectRule::PinWheel => VixenKind::Mapped(EffectKind::Chase),
        VixenEffectRule::Butterfly => VixenKind::Mapped(EffectKind::Chase),
        VixenEffectRule::Dissolve => VixenKind::Mapped(EffectKind::Twinkle),
        VixenEffectRule::ColorWash => VixenKind::Mapped(EffectKind::Fade),
        VixenEffectRule::Twinkle => VixenKind::Mapped(EffectKind::Twinkle),
        VixenEffectRule::Strobe => VixenKind::Mapped(EffectKind::Strobe),
        VixenEffectRule::Rainbow => VixenKind::Mapped(EffectKind::Rainbow),
        VixenEffectRule::Fire => VixenKind::Mapped(EffectKind::Fade),
        VixenEffectRule::Fireworks => VixenKind::Mapped(EffectKind::Twinkle),
        VixenEffectRule::Particles => VixenKind::Mapped(EffectKind::Twinkle),
        VixenEffectRule::Candle => VixenKind::Mapped(EffectKind::Fade),
        VixenEffectRule::Unsupported => VixenKind::SolidBlack,
        VixenEffectRule::Masking => VixenKind::SolidColor,
        VixenEffectRule::Unknown => VixenKind::SolidGray,
    }
}

/// The kind a Vixen effect type name gives.
pub open spec fn spec_vixen_effect_kind(n: Seq<char>) -> VixenKind {
    rule_kind(spec_vixen_effect_rule(n))
}

/// Map a Vixen effect type name to the kind of effect it becomes.
pub fn vixen_effect_kind(effect_name: &str) -> (r: VixenKind)
    ensures
        r == spec_vixen_effect_kind(effect_name@),
{
    match vixen_effect_rule(effect_name) {
        VixenEffectRule::PulseLevel => VixenKind::Mapped(EffectKind::Fade),
        VixenEffectRule::Chase => VixenKind::Mapped(EffectKind::Chase),
        VixenEffectRule::Spin => VixenKind::Mapped(EffectKind::Chase),
        VixenEffectRule::Wipe => VixenKind::Mapped(EffectKind::Wipe),
        VixenEffectRule::Alternating => VixenKind::Mapped(EffectKind::Chase),
        VixenEffectRule::Shockwave => VixenKind::Mapped(EffectKind::Chase),
        VixenEffectRule::Garlands => VixenKind::Mapped(EffectKind::Chase),
        VixenEffectRule::PinWheel => VixenKind::Mapped(EffectKind::Chase),
        VixenEffectRule::Butterfly => VixenKind::Mapped(EffectKind::Chase),
        VixenEffectRule::Dissolve => VixenKind::Mapped(EffectKind::Twinkle),
        VixenEffectRule::ColorWash => VixenKind::Mapped(EffectKind::Fade),
        VixenEffectRule::Twinkle => VixenKind::Mapped(EffectKind::Twinkle),
        VixenEffectRule::Strobe => VixenKind::Mapped(EffectKind::Strobe),
        VixenEffectRule::Rainbow => VixenKind::Mapped(EffectKind::Rainbow),
        VixenEffectRule::Fire => VixenKind::Mapped(EffectKind::Fade),
        VixenEffectRule::Fireworks => VixenKind::Mapped(EffectKind::Twinkle),
        VixenEffectRule::Particles => VixenKind::Mapped(EffectKind::Twinkle),
        VixenEffectRule::Candle => VixenKind::Mapped(EffectKind::Fade),
        VixenEffectRule::Unsupported => VixenKind::SolidBlack,
        VixenEffectRule::Masking => VixenKind::SolidColor,
        VixenEffectRule::Unknown => VixenKind::SolidGray,
    }
}

// ── Laws of the direction mapping ───────────────────────────────────

/// The name each wipe direction goes by in Vixen.
pub open spec fn wipe_direction_name(d: WipeDirection) -> Seq<char> {
    match d {
        WipeDirection::Horizontal => "Horizontal"@,
        WipeDirection::Vertical => "Vertical"@,
        WipeDirection::DiagonalUp => "DiagonalUp"@,
        WipeDirection::DiagonalDown => "DiagonalDown"@,
        WipeDirection::Burst => "Burst"@,
        WipeDirection::Circle => "Circle"@,
        WipeDirection::Diamond => "Diamond"@,
    }
}

/// Every wipe direction is read back from its own name, forward; the
/// directions that spread from a centre read as reversed from the name with
/// `Out` added and forward from the name with `In` added.
pub proof fn lemma_wipe_direction_names(d: WipeDirection)
    ensures
        spec_wipe_direction(Some(wipe_direction_name(d))) == (d, false),
        (d == WipeDirection::Burst || d == WipeDirection::Circle || d == WipeDirection::Diamond) ==> {
            &&& spec_wipe_direction(Some(wipe_direction_name(d) + "Out"@)) == (d, true)
            &&& spec_wipe_direction(Some(wipe_direction_name(d) + "In"@)) == (d, false)
        },
{
    reveal_strlit("Horizontal");
    reveal_strlit("Vertical");
    reveal_strlit("DiagonalUp");
    reveal_strlit("DiagonalDown");
    reveal_strlit("Burst");
    reveal_strlit("Circle");
    reveal_strlit("Diamond");
    reveal_strlit("Out");
    reveal_strlit("In");
    reveal_strlit("Right");
    reveal_strlit("Reverse");
    reveal_strlit("1");
    reveal_strlit("Up");
    reveal_strlit("Down");
    reveal_strlit("BurstIn");
    reveal_strlit("BurstOut");
    reveal_strlit("CircleIn");
    reveal_strlit("CircleOut");
    reveal_strlit("DiamondIn");
    reveal_strlit("DiamondOut");
    assert("Horizontal"@.len() == 10);
    assert("Vertical"@.len() == 8);
    assert("DiagonalUp"@.len() == 10);
    assert("DiagonalDown"@.len() == 12);
    assert("Burst"@.len() == 5);
    assert("Circle"@.len() == 6);
    assert("Diamond"@.len() == 7);
    assert("Out"@.len() == 3);
    assert("In"@.len() == 2);
    assert("Right"@.len() == 5);
    assert("Reverse"@.len() == 7);
    assert("1"@.len() == 1);
    assert("Up"@.len() == 2);
    assert("Down"@.len() == 4);
    assert("BurstIn"@.len() == 7);
    assert("BurstOut"@.len() == 8);
    assert("CircleIn"@.len() == 8);
    assert("CircleOut"@.len() == 9);
    assert("DiamondIn"@.len() == 9);
    assert("DiamondOut"@.len() == 10);
    assert("1"@[0] == '1');
    assert("Burst"@[0] == 'B');
    assert("BurstIn"@[0] == 'B');
    assert("BurstOut"@[0] == 'B');
    assert("Circle"@[0] == 'C');
    assert("CircleIn"@[0] == 'C');
    assert("CircleOut"@[0] == 'C');
    assert("DiagonalDown"@[0] == 'D');
    assert("DiagonalUp"@[0] == 'D');
    assert("DiagonalUp"@[3] == 'g');
    assert("Diamond"@[0] == 'D');
    assert("DiamondIn"@[0] == 'D');
    assert("DiamondOut"@[0] == 'D');
    assert("DiamondOut"@[3] == 'm');
    assert("Down"@[0] == 'D');
    assert("Horizontal"@[0] == 'H');
    assert("In"@[0] == 'I');
    assert("Out"@[0] == 'O');
    assert("Reverse"@[0] == 'R');
    assert("Right"@[0] == 'R');
    assert("Up"@[0] == 'U');
    assert("Vertical"@[0] == 'V');
    assert("Burst"@ + "Out"@ =~= "BurstOut"@);
    assert("Burst"@ + "In"@ =~= "BurstIn"@);
    assert("Circle"@ + "Out"@ =~= "CircleOut"@);
    assert("Circle"@ + "In"@ =~= "CircleIn"@);
    assert("Diamond"@ + "Out"@ =~= "DiamondOut"@);
    assert("Diamond"@ + "In"@ =~= "DiamondIn"@);
}

/// Distinct wipe directions have distinct names, so no two of them are read
/// from one name.
pub proof fn lemma_wipe_direction_names_distinct(d1: WipeDirection, d2: WipeDirection)
    requires
        d1 != d2,
    ensures
        wipe_direction_name(d1) != wipe_direction_name(d2),
        spec_wipe_direction(Some(wipe_direction_name(d1))).0 != spec_wipe_direction(Some(wipe_direction_name(d2))).0,
{
    lemma_wipe_direction_names(d1);
    lemma_wipe_direction_names(d2);
}

/// A direction name that runs an effect in reverse also reverses a wipe;
/// `Up` and `Down` wipe along the vertical in opposite senses, `Left` and
/// `Right` along the horizontal; a missing name is a forward horizontal
/// wipe.
pub proof fn lemma_wipe_reverse_agrees(d: Option<Seq<char>>)
    ensures
        spec_is_reverse(d) ==> spec_wipe_direction(d).1,
        spec_wipe_direction(Some("Up"@)) == (WipeDirection::Vertical, false),
        spec_wipe_direction(Some("Down"@)) == (WipeDirection::Vertical, true),
        spec_wipe_direction(Some("Left"@)) == (WipeDirection::Horizontal, false),
        spec_wipe_direction(Some("Right"@)) == (WipeDirection::Horizontal, true),
        spec_wipe_direction(None) == (WipeDirection::Horizontal, false),
{
    reveal_strlit("Horizontal");
    reveal_strlit("Vertical");
    reveal_strlit("DiagonalUp");
    reveal_strlit("DiagonalDown");
    reveal_strlit("Burst");
    reveal_strlit("Circle");
    reveal_strlit("Diamond");
    reveal_strlit("Out");
    reveal_strlit("In");
    reveal_strlit("Right");
    reveal_strlit("Reverse");
    reveal_strlit("1");
    reveal_strlit("Up");
    reveal_strlit("Down");
    reveal_strlit("BurstIn");
    reveal_strlit("BurstOut");
    reveal_strlit("CircleIn");
    reveal_strlit("CircleOut");
    reveal_strlit("DiamondIn");
    reveal_strlit("DiamondOut");
    assert("Horizontal"@.len() == 10);
    assert("Vertical"@.len() == 8);
    assert("DiagonalUp"@.len() == 10);
    assert("DiagonalDown"@.len() == 12);
    assert("Burst"@.len() == 5);
    assert("Circle"@.len() == 6);
    assert("Diamond"@.len() == 7);
    assert("Out"@.len() == 3);
    assert("In"@.len() == 2);
    assert("Right"@.len() == 5);
    assert("Reverse"@.len() == 7);
    assert("1"@.len() == 1);
    assert("Up"@.len() == 2);
    assert("Down"@.len() == 4);
    assert("BurstIn"@.len() == 7);
    assert("BurstOut"@.len() == 8);
    assert("CircleIn"@.len() == 8);
    assert("CircleOut"@.len() == 9);
    assert("DiamondIn"@.len() == 9);
    assert("DiamondOut"@.len() == 10);
    assert("1"@[0] == '1');
    assert("Burst"@[0] == 'B');
    assert("BurstIn"@[0] == 'B');
    assert("BurstOut"@[0] == 'B');
    assert("Circle"@[0] == 'C');
    assert("CircleIn"@[0] == 'C');
    assert("CircleOut"@[0] == 'C');
    assert("DiagonalDown"@[0] == 'D');
    assert("DiagonalUp"@[0] == 'D');
    assert("DiagonalUp"@[3] == 'g');
    assert("Diamond"@[0] == 'D');
    assert("DiamondIn"@[0] == 'D');
    assert("DiamondOut"@[0] == 'D');
    assert("DiamondOut"@[3] == 'm');
    assert("Down"@[0] == 'D');
    assert("Horizontal"@[0] == 'H');
    assert("In"@[0] == 'I');
    assert("Out"@[0] == 'O');
    assert("Reverse"@[0] == 'R');
    assert("Right"@[0] == 'R');
    assert("Up"@[0] == 'U');
    assert("Vertical"@[0] == 'V');
    reveal_strlit("Left");
    assert("Left"@.len() == 4);
    assert("Left"@[0] == 'L');
}

} // verus!
