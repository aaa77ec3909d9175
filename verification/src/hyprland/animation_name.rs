//! The names of Hyprland's animations, as the `animation` keyword takes them.
use vstd::prelude::*;
use crate::text::{eq_str, lemma_plain_word, string_from, trim, trimmed};

verus! {

#[derive(Debug, Clone, Copy, PartialEq, Eq)]
pub enum AnimationName {
    Global,
    Windows,
    WindowsIn,
    WindowsOut,
    WindowsMove,
    Layers,
    LayersIn,
    LayersOut,
    Fade,
    FadeIn,
    FadeOut,
    FadeSwitch,
    FadeShadow,
    FadeDim,
    FadeLayers,
    FadeLayersIn,
    FadeLayersOut,
    FadePopups,
    FadePopupsIn,
    FadePopupsOut,
    FadeDpms,
    Border,
    BorderAngle,
    Workspaces,
    WorkspacesIn,
    WorkspacesOut,
    SpecialWorkspace,
    SpecialWorkspaceIn,
    SpecialWorkspaceOut,
    ZoomFactor,
    MonitorAdded,
}

impl Default for AnimationName {
    fn default() -> (r: Self)
        ensures
            r == AnimationName::Global,
    {
        AnimationName::Global
    }
}

impl AnimationName {
    /// The animation at position `i` of the list that `get_list` gives.
    pub open spec fn spec_at(i: int) -> Self {
        if i == 1 {
            AnimationName::Windows
        } else if i == 2 {
            AnimationName::WindowsIn
        } else if i == 3 {
            AnimationName::WindowsOut
        } else if i == 4 {
            AnimationName::WindowsMove
        } else if i == 5 {
            AnimationName::Layers
        } else if i == 6 {
            AnimationName::LayersIn
        } else if i == 7 {
            AnimationName::LayersOut
        } else if i == 8 {
            AnimationName::Fade
        } else if i == 9 {
            AnimationName::FadeIn
        } else if i == 10 {
            AnimationName::FadeOut
        } else if i == 11 {
            AnimationName::FadeSwitch
        } else if i == 12 {
            AnimationName::FadeShadow
        } else if i == 13 {
            AnimationName::FadeDim
        } else if i == 14 {
            AnimationName::FadeLayers
        } else if i == 15 {
            AnimationName::FadeLayersIn
        } else if i == 16 {
            AnimationName::FadeLayersOut
        } else if i == 17 {
            AnimationName::FadePopups
        } else if i == 18 {
            AnimationName::FadePopupsIn
        } else if i == 19 {
            AnimationName::FadePopupsOut
        } else if i == 20 {
            AnimationName::FadeDpms
        } else if i == 21 {
            AnimationName::Border
        } else if i == 22 {
            AnimationName::BorderAngle
        } else if i == 23 {
            AnimationName::Workspaces
        } else if i == 24 {
            AnimationName::WorkspacesIn
        } else if i == 25 {
            AnimationName::WorkspacesOut
        } else if i == 26 {
            AnimationName::SpecialWorkspace
        } else if i == 27 {
            AnimationName::SpecialWorkspaceIn
        } else if i == 28 {
            AnimationName::SpecialWorkspaceOut
        } else if i == 29 {
            AnimationName::ZoomFactor
        } else if i == 30 {
            AnimationName::MonitorAdded
        } else {
            AnimationName::Global
        }
    }

    /// The position of the animation in the list that `get_list` gives.
    pub open spec fn spec_index(self) -> int {
        match self {
            AnimationName::Global => 0,
            AnimationName::Windows => 1,
            AnimationName::WindowsIn => 2,
            AnimationName::WindowsOut => 3,
            AnimationName::WindowsMove => 4,
            AnimationName::Layers => 5,
            AnimationName::LayersIn => 6,
            AnimationName::LayersOut => 7,
            AnimationName::Fade => 8,
            AnimationName::FadeIn => 9,
            AnimationName::FadeOut => 10,
            AnimationName::FadeSwitch => 11,
            AnimationName::FadeShadow => 12,
            AnimationName::FadeDim => 13,
            AnimationName::FadeLayers => 14,
            AnimationName::FadeLayersIn => 15,
            AnimationName::FadeLayersOut => 16,
            AnimationName::FadePopups => 17,
            AnimationName::FadePopupsIn => 18,
            AnimationName::FadePopupsOut => 19,
            AnimationName::FadeDpms => 20,
            AnimationName::Border => 21,
            AnimationName::BorderAngle => 22,
            AnimationName::Workspaces => 23,
            AnimationName::WorkspacesIn => 24,
            AnimationName::WorkspacesOut => 25,
            AnimationName::SpecialWorkspace => 26,
            AnimationName::SpecialWorkspaceIn => 27,
            AnimationName::SpecialWorkspaceOut => 28,
            AnimationName::ZoomFactor => 29,
            AnimationName::MonitorAdded => 30,
        }
    }

    /// The name that `to_string` writes.
    pub open spec fn spec_to_string(self) -> Seq<char> {
        match self {
            AnimationName::Global => "global"@,
            AnimationName::Windows => "windows"@,
            AnimationName::WindowsIn => "windowsIn"@,
            AnimationName::WindowsOut => "windowsOut"@,
            AnimationName::WindowsMove => "windowsMove"@,
            AnimationName::Layers => "layers"@,
            AnimationName::LayersIn => "layersIn"@,
            AnimationName::LayersOut => "layersOut"@,
            AnimationName::Fade => "fade"@,
            AnimationName::FadeIn => "fadeIn"@,
            AnimationName::FadeOut => "fadeOut"@,
            AnimationName::FadeSwitch => "fadeSwitch"@,
            AnimationName::FadeShadow => "fadeShadow"@,
            AnimationName::FadeDim => "fadeDim"@,
            AnimationName::FadeLayers => "fadeLayers"@,
            AnimationName::FadeLayersIn => "fadeLayersIn"@,
            AnimationName::FadeLayersOut => "fadeLayersOut"@,
            AnimationName::FadePopups => "fadePopups"@,
            AnimationName::FadePopupsIn => "fadePopupsIn"@,
            AnimationName::FadePopupsOut => "fadePopupsOut"@,
            AnimationName::FadeDpms => "fadeDpms"@,
            AnimationName::Border => "border"@,
            AnimationName::BorderAngle => "borderangle"@,
            AnimationName::Workspaces => "workspaces"@,
            AnimationName::WorkspacesIn => "workspacesIn"@,
            AnimationName::WorkspacesOut => "workspacesOut"@,
            AnimationName::SpecialWorkspace => "specialWorkspace"@,
            AnimationName::SpecialWorkspaceIn => "specialWorkspaceIn"@,
            AnimationName::SpecialWorkspaceOut => "specialWorkspaceOut"@,
            AnimationName::ZoomFactor => "zoomFactor"@,
            AnimationName::MonitorAdded => "monitorAdded"@,
        }
    }

    /// What `from_str` gives for `s`: the animation named by `s` trimmed (case
    /// matters); any other text means `Global`.
    pub open spec fn spec_from_str(s: Seq<char>) -> Result<Self, ()> {
        let t = trim(s);
        if t == "global"@ {
            Ok(AnimationName::Global)
        } else if t == "windows"@ {
            Ok(AnimationName::Windows)
        } else if t == "windowsIn"@ {
            Ok(AnimationName::WindowsIn)
        } else if t == "windowsOut"@ {
            Ok(AnimationName::WindowsOut)
        } else if t == "windowsMove"@ {
            Ok(AnimationName::WindowsMove)
        } else if t == "layers"@ {
            Ok(AnimationName::Layers)
        } else if t == "layersIn"@ {
            Ok(AnimationName::LayersIn)
        } else if t == "layersOut"@ {
            Ok(AnimationName::LayersOut)
        } else if t == "fade"@ {
            Ok(AnimationName::Fade)
        } else if t == "fadeIn"@ {
            Ok(AnimationName::FadeIn)
        } else if t == "fadeOut"@ {
            Ok(AnimationName::FadeOut)
        } else if t == "fadeSwitch"@ {
            Ok(AnimationName::FadeSwitch)
        } else if t == "fadeShadow"@ {
            Ok(AnimationName::FadeShadow)
        } else if t == "fadeDim"@ {
            Ok(AnimationName::FadeDim)
        } else if t == "fadeLayers"@ {
            Ok(AnimationName::FadeLayers)
        } else if t == "fadeLayersIn"@ {
            Ok(AnimationName::FadeLayersIn)
        } else if t == "fadeLayersOut"@ {
            Ok(AnimationName::FadeLayersOut)
        } else if t == "fadePopups"@ {
            Ok(AnimationName::FadePopups)
        } else if t == "fadePopupsIn"@ {
            Ok(AnimationName::FadePopupsIn)
        } else if t == "fadePopupsOut"@ {
            Ok(AnimationName::FadePopupsOut)
        } else if t == "fadeDpms"@ {
            Ok(AnimationName::FadeDpms)
        } else if t == "border"@ {
            Ok(AnimationName::Border)
        } else if t == "borderangle"@ {
            Ok(AnimationName::BorderAngle)
        } else if t == "workspaces"@ {
            Ok(AnimationName::Workspaces)
        } else if t == "workspacesIn"@ {
            Ok(AnimationName::WorkspacesIn)
        } else if t == "workspacesOut"@ {
            Ok(AnimationName::WorkspacesOut)
        } else if t == "specialWorkspace"@ {
            Ok(AnimationName::SpecialWorkspace)
        } else if t == "specialWorkspaceIn"@ {
            Ok(AnimationName::SpecialWorkspaceIn)
        } else if t == "specialWorkspaceOut"@ {
            Ok(AnimationName::SpecialWorkspaceOut)
        } else if t == "zoomFactor"@ {
            Ok(AnimationName::ZoomFactor)
        } else if t == "monitorAdded"@ {
            Ok(AnimationName::MonitorAdded)
        } else {
            Ok(AnimationName::Global)
        }
    }

    /// The names of all animations, in the order of the variants.
    pub fn get_list() -> (r: [&'static str; 31])
        ensures
            forall|i: int| 0 <= i < 31 ==> (#[trigger] r@[i])@ == Self::spec_at(i).spec_to_string(),
    {
        [
            "global",
            "windows",
            "windowsIn",
            "windowsOut",
            "windowsMove",
            "layers",
            "layersIn",
            "layersOut",
            "fade",
            "fadeIn",
            "fadeOut",
            "fadeSwitch",
            "fadeShadow",
            "fadeDim",
            "fadeLayers",
            "fadeLayersIn",
            "fadeLayersOut",
            "fadePopups",
            "fadePopupsIn",
            "fadePopupsOut",
            "fadeDpms",
            "border",
            "borderangle",
            "workspaces",
            "workspacesIn",
            "workspacesOut",
            "specialWorkspace",
            "specialWorkspaceIn",
            "specialWorkspaceOut",
            "zoomFactor",
            "monitorAdded",
        ]
    }

    pub fn from_str(s: &str) -> (r: Result<Self, ()>)
        ensures
            r == Self::spec_from_str(s@),
    {
        let t = trimmed(s);
        if eq_str(&t, "global") {
            Ok(AnimationName::Global)
        } else if eq_str(&t, "windows") {
            Ok(AnimationName::Windows)
        } else if eq_str(&t, "windowsIn") {
            Ok(AnimationName::WindowsIn)
        } else if eq_str(&t, "windowsOut") {
            Ok(AnimationName::WindowsOut)
        } else if eq_str(&t, "windowsMove") {
            Ok(AnimationName::WindowsMove)
        } else if eq_str(&t, "layers") {
            Ok(AnimationName::Layers)
        } else if eq_str(&t, "layersIn") {
            Ok(AnimationName::LayersIn)
        } else if eq_str(&t, "layersOut") {
            Ok(AnimationName::LayersOut)
        } else if eq_str(&t, "fade") {
            Ok(AnimationName::Fade)
        } else if eq_str(&t, "fadeIn") {
            Ok(AnimationName::FadeIn)
        } else if eq_str(&t, "fadeOut") {
            Ok(AnimationName::FadeOut)
        } else if eq_str(&t, "fadeSwitch") {
            Ok(AnimationName::FadeSwitch)
        } else if eq_str(&t, "fadeShadow") {
            Ok(AnimationName::FadeShadow)
        } else if eq_str(&t, "fadeDim") {
            Ok(AnimationName::FadeDim)
        } else if eq_str(&t, "fadeLayers") {
            Ok(AnimationName::FadeLayers)
        } else if eq_str(&t, "fadeLayersIn") {
            Ok(AnimationName::FadeLayersIn)
        } else if eq_str(&t, "fadeLayersOut") {
            Ok(AnimationName::FadeLayersOut)
        } else if eq_str(&t, "fadePopups") {
            Ok(AnimationName::FadePopups)
        } else if eq_str(&t, "fadePopupsIn") {
            Ok(AnimationName::FadePopupsIn)
        } else if eq_str(&t, "fadePopupsOut") {
            Ok(AnimationName::FadePopupsOut)
        } else if eq_str(&t, "fadeDpms") {
            Ok(AnimationName::FadeDpms)
        } else if eq_str(&t, "border") {
            Ok(AnimationName::Border)
        } else if eq_str(&t, "borderangle") {
            Ok(AnimationName::BorderAngle)
        } else if eq_str(&t, "workspaces") {
            Ok(AnimationName::Workspaces)
        } else if eq_str(&t, "workspacesIn") {
            Ok(AnimationName::WorkspacesIn)
        } else if eq_str(&t, "workspacesOut") {
            Ok(AnimationName::WorkspacesOut)
        } else if eq_str(&t, "specialWorkspace") {
            Ok(AnimationName::SpecialWorkspace)
        } else if eq_str(&t, "specialWorkspaceIn") {
            Ok(AnimationName::SpecialWorkspaceIn)
        } else if eq_str(&t, "specialWorkspaceOut") {
            Ok(AnimationName::SpecialWorkspaceOut)
        } else if eq_str(&t, "zoomFactor") {
            Ok(AnimationName::ZoomFactor)
        } else if eq_str(&t, "monitorAdded") {
            Ok(AnimationName::MonitorAdded)
        } else {
            Ok(AnimationName::Global)
        }
    }

    pub fn to_string(&self) -> (r: String)
        ensures
            r@ == self.spec_to_string(),
    {
        match self {
            AnimationName::Global => string_from("global"),
            AnimationName::Windows => string_from("windows"),
            AnimationName::WindowsIn => string_from("windowsIn"),
            AnimationName::WindowsOut => string_from("windowsOut"),
            AnimationName::WindowsMove => string_from("windowsMove"),
            AnimationName::Layers => string_from("layers"),
            AnimationName::LayersIn => string_from("layersIn"),
            AnimationName::LayersOut => string_from("layersOut"),
            AnimationName::Fade => string_from("fade"),
            AnimationName::FadeIn => string_from("fadeIn"),
            AnimationName::FadeOut => string_from("fadeOut"),
            AnimationName::FadeSwitch => string_from("fadeSwitch"),
            AnimationName::FadeShadow => string_from("fadeShadow"),
            AnimationName::FadeDim => string_from("fadeDim"),
            AnimationName::FadeLayers => string_from("fadeLayers"),
            AnimationName::FadeLayersIn => string_from("fadeLayersIn"),
            AnimationName::FadeLayersOut => string_from("fadeLayersOut"),
            AnimationName::FadePopups => string_from("fadePopups"),
            AnimationName::FadePopupsIn => string_from("fadePopupsIn"),
            AnimationName::FadePopupsOut => string_from("fadePopupsOut"),
            AnimationName::FadeDpms => string_from("fadeDpms"),
            AnimationName::Border => string_from("border"),
            AnimationName::BorderAngle => string_from("borderangle"),
            AnimationName::Workspaces => string_from("workspaces"),
            AnimationName::WorkspacesIn => string_from("workspacesIn"),
            AnimationName::WorkspacesOut => string_from("workspacesOut"),
            AnimationName::SpecialWorkspace => string_from("specialWorkspace"),
            AnimationName::SpecialWorkspaceIn => string_from("specialWorkspaceIn"),
            AnimationName::SpecialWorkspaceOut => string_from("specialWorkspaceOut"),
            AnimationName::ZoomFactor => string_from("zoomFactor"),
            AnimationName::MonitorAdded => string_from("monitorAdded"),
        }
    }


    /// Each animation's name, trimmed (case matters), reads as that animation;
    /// any other text reads as `global`. Each animation is written as its
    /// name.
    pub proof fn lemma_names(s: Seq<char>)
        ensures
            Self::spec_from_str(s) is Ok,
            Self::spec_from_str(s) == Ok::<Self, ()>(AnimationName::FadeSwitch) <==> trim(s) == "fadeSwitch"@,
            Self::spec_from_str(s) == Ok::<Self, ()>(AnimationName::Layers) <==> trim(s) == "layers"@,
            Self::spec_from_str(s) == Ok::<Self, ()>(AnimationName::FadeDim) <==> trim(s) == "fadeDim"@,
            Self::spec_from_str(s) == Ok::<Self, ()>(AnimationName::Border) <==> trim(s) == "border"@,
            Self::spec_from_str(s) == Ok::<Self, ()>(AnimationName::WindowsIn) <==> trim(s) == "windowsIn"@,
            Self::spec_from_str(s) == Ok::<Self, ()>(AnimationName::WindowsOut) <==> trim(s) == "windowsOut"@,
            Self::spec_from_str(s) == Ok::<Self, ()>(AnimationName::FadePopupsIn) <==> trim(s) == "fadePopupsIn"@,
            Self::spec_from_str(s) == Ok::<Self, ()>(AnimationName::WindowsMove) <==> trim(s) == "windowsMove"@,
            Self::spec_from_str(s) == Ok::<Self, ()>(AnimationName::FadeShadow) <==> trim(s) == "fadeShadow"@,
            Self::spec_from_str(s) == Ok::<Self, ()>(AnimationName::FadePopupsOut) <==> trim(s) == "fadePopupsOut"@,
            Self::spec_from_str(s) == Ok::<Self, ()>(AnimationName::SpecialWorkspace) <==> trim(s) == "specialWorkspace"@,
            Self::spec_from_str(s) == Ok::<Self, ()>(AnimationName::FadePopups) <==> trim(s) == "fadePopups"@,
            Self::spec_from_str(s) == Ok::<Self, ()>(AnimationName::LayersOut) <==> trim(s) == "layersOut"@,
            Self::spec_from_str(s) == Ok::<Self, ()>(AnimationName::FadeDpms) <==> trim(s) == "fadeDpms"@,
            Self::spec_from_str(s) == Ok::<Self, ()>(AnimationName::WorkspacesOut) <==> trim(s) == "workspacesOut"@,
            Self::spec_from_str(s) == Ok::<Self, ()>(AnimationName::WorkspacesIn) <==> trim(s) == "workspacesIn"@,
            Self::spec_from_str(s) == Ok::<Self, ()>(AnimationName::FadeLayersIn) <==> trim(s) == "fadeLayersIn"@,
            Self::spec_from_str(s) == Ok::<Self, ()>(AnimationName::SpecialWorkspaceIn) <==> trim(s) == "specialWorkspaceIn"@,
            Self::spec_from_str(s) == Ok::<Self, ()>(AnimationName::Workspaces) <==> trim(s) == "workspaces"@,
            Self::spec_from_str(s) == Ok::<Self, ()>(AnimationName::SpecialWorkspaceOut) <==> trim(s) == "specialWorkspaceOut"@,
            Self::spec_from_str(s) == Ok::<Self, ()>(AnimationName::FadeIn) <==> trim(s) == "fadeIn"@,
            Self::spec_from_str(s) == Ok::<Self, ()>(AnimationName::FadeLayers) <==> trim(s) == "fadeLayers"@,
            Self::spec_from_str(s) == Ok::<Self, ()>(AnimationName::Windows) <==> trim(s) == "windows"@,
            Self::spec_from_str(s) == Ok::<Self, ()>(AnimationName::FadeOut) <==> trim(s) == "fadeOut"@,
            Self::spec_from_str(s) == Ok::<Self, ()>(AnimationName::ZoomFactor) <==> trim(s) == "zoomFactor"@,
            Self::spec_from_str(s) == Ok::<Self, ()>(AnimationName::Fade) <==> trim(s) == "fade"@,
            Self::spec_from_str(s) == Ok::<Self, ()>(AnimationName::MonitorAdded) <==> trim(s) == "monitorAdded"@,
            Self::spec_from_str(s) == Ok::<Self, ()>(AnimationName::FadeLayersOut) <==> trim(s) == "fadeLayersOut"@,
            Self::spec_from_str(s) == Ok::<Self, ()>(AnimationName::LayersIn) <==> trim(s) == "layersIn"@,
            Self::spec_from_str(s) == Ok::<Self, ()>(AnimationName::BorderAngle) <==> trim(s) == "borderangle"@,
            Self::spec_from_str(s) == Ok::<Self, ()>(AnimationName::Global) <==> !(trim(s) == "specialWorkspaceIn"@ || trim(s) == "borderangle"@ || trim(s) == "fadeOut"@ || trim(s) == "fadeLayersIn"@ || trim(s) == "fadeSwitch"@ || trim(s) == "layersIn"@ || trim(s) == "windowsIn"@ || trim(s) == "workspaces"@ || trim(s) == "layersOut"@ || trim(s) == "fadeDim"@ || trim(s) == "fadeLayers"@ || trim(s) == "fadePopups"@ || trim(s) == "specialWorkspaceOut"@ || trim(s) == "specialWorkspace"@ || trim(s) == "windowsMove"@ || trim(s) == "monitorAdded"@ || trim(s) == "fadeIn"@ || trim(s) == "workspacesIn"@ || trim(s) == "windows"@ || trim(s) == "workspacesOut"@ || trim(s) == "windowsOut"@ || trim(s) == "zoomFactor"@ || trim(s) == "border"@ || trim(s) == "fadeLayersOut"@ || trim(s) == "fadeDpms"@ || trim(s) == "fadeShadow"@ || trim(s) == "layers"@ || trim(s) == "fadePopupsIn"@ || trim(s) == "fadePopupsOut"@ || trim(s) == "fade"@),
            AnimationName::MonitorAdded.spec_to_string() == "monitorAdded"@,
            AnimationName::SpecialWorkspace.spec_to_string() == "specialWorkspace"@,
            AnimationName::Fade.spec_to_string() == "fade"@,
            AnimationName::BorderAngle.spec_to_string() == "borderangle"@,
            AnimationName::WindowsMove.spec_to_string() == "windowsMove"@,
            AnimationName::FadeSwitch.spec_to_string() == "fadeSwitch"@,
            AnimationName::Global.spec_to_string() == "global"@,
            AnimationName::FadeDim.spec_to_string() == "fadeDim"@,
            AnimationName::SpecialWorkspaceIn.spec_to_string() == "specialWorkspaceIn"@,
            AnimationName::FadeIn.spec_to_string() == "fadeIn"@,
            AnimationName::WorkspacesIn.spec_to_string() == "workspacesIn"@,
            AnimationName::FadePopupsIn.spec_to_string() == "fadePopupsIn"@,
            AnimationName::FadeLayersIn.spec_to_string() == "fadeLayersIn"@,
            AnimationName::LayersIn.spec_to_string() == "layersIn"@,
            AnimationName::WindowsIn.spec_to_string() == "windowsIn"@,
            AnimationName::Border.spec_to_string() == "border"@,
            AnimationName::ZoomFactor.spec_to_string() == "zoomFactor"@,
            AnimationName::Workspaces.spec_to_string() == "workspaces"@,
            AnimationName::FadeDpms.spec_to_string() == "fadeDpms"@,
            AnimationName::FadePopups.spec_to_string() == "fadePopups"@,
            AnimationName::FadeLayers.spec_to_string() == "fadeLayers"@,
            AnimationName::Layers.spec_to_string() == "layers"@,
            AnimationName::Windows.spec_to_string() == "windows"@,
            AnimationName::SpecialWorkspaceOut.spec_to_string() == "specialWorkspaceOut"@,
            AnimationName::FadeOut.spec_to_string() == "fadeOut"@,
            AnimationName::WorkspacesOut.spec_to_string() == "workspacesOut"@,
            AnimationName::FadePopupsOut.spec_to_string() == "fadePopupsOut"@,
            AnimationName::FadeLayersOut.spec_to_string() == "fadeLayersOut"@,
            AnimationName::LayersOut.spec_to_string() == "layersOut"@,
            AnimationName::WindowsOut.spec_to_string() == "windowsOut"@,
            AnimationName::FadeShadow.spec_to_string() == "fadeShadow"@,
    {
        reveal_strlit("fadePopupsIn");
        reveal_strlit("monitorAdded");
        reveal_strlit("fadeShadow");
        reveal_strlit("windows");
        reveal_strlit("layersOut");
        reveal_strlit("specialWorkspaceIn");
        reveal_strlit("fadePopups");
        reveal_strlit("windowsMove");
        reveal_strlit("fadeIn");
        reveal_strlit("fadeDim");
        reveal_strlit("workspaces");
        reveal_strlit("workspacesIn");
        reveal_strlit("windowsOut");
        reveal_strlit("borderangle");
        reveal_strlit("layers");
        reveal_strlit("zoomFactor");
        reveal_strlit("fadePopupsOut");
        reveal_strlit("fadeLayers");
        reveal_strlit("fadeOut");
        reveal_strlit("fadeLayersIn");
        reveal_strlit("fadeLayersOut");
        reveal_strlit("workspacesOut");
        reveal_strlit("fade");
        reveal_strlit("border");
        reveal_strlit("fadeDpms");
        reveal_strlit("global");
        reveal_strlit("layersIn");
        reveal_strlit("specialWorkspace");
        reveal_strlit("fadeSwitch");
        reveal_strlit("windowsIn");
        reveal_strlit("specialWorkspaceOut");
        assert("fade"@.len() == 4);
        assert("global"@.len() == 6 && "global"@[0] == 'g');
        assert("fadeIn"@.len() == 6 && "fadeIn"@[0] == 'f');
        assert("border"@.len() == 6 && "border"@[0] == 'b');
        assert("layers"@.len() == 6 && "layers"@[0] == 'l');
        assert("fadeDim"@.len() == 7 && "fadeDim"@[0] == 'f' && "fadeDim"@[4] == 'D');
        assert("windows"@.len() == 7 && "windows"@[0] == 'w');
        assert("fadeOut"@.len() == 7 && "fadeOut"@[0] == 'f' && "fadeOut"@[4] == 'O');
        assert("layersIn"@.len() == 8 && "layersIn"@[0] == 'l');
        assert("fadeDpms"@.len() == 8 && "fadeDpms"@[0] == 'f');
        assert("windowsIn"@.len() == 9 && "windowsIn"@[0] == 'w');
        assert("layersOut"@.len() == 9 && "layersOut"@[0] == 'l');
        assert("fadeSwitch"@.len() == 10 && "fadeSwitch"@[0] == 'f' && "fadeSwitch"@[4] == 'S' && "fadeSwitch"@[5] == 'w');
        assert("zoomFactor"@.len() == 10 && "zoomFactor"@[0] == 'z');
        assert("workspaces"@.len() == 10 && "workspaces"@[0] == 'w' && "workspaces"@[1] == 'o');
        assert("fadePopups"@.len() == 10 && "fadePopups"@[0] == 'f' && "fadePopups"@[4] == 'P');
        assert("fadeLayers"@.len() == 10 && "fadeLayers"@[0] == 'f' && "fadeLayers"@[4] == 'L');
        assert("windowsOut"@.len() == 10 && "windowsOut"@[0] == 'w' && "windowsOut"@[1] == 'i');
        assert("fadeShadow"@.len() == 10 && "fadeShadow"@[0] == 'f' && "fadeShadow"@[4] == 'S' && "fadeShadow"@[5] == 'h');
        assert("borderangle"@.len() == 11 && "borderangle"@[0] == 'b');
        assert("windowsMove"@.len() == 11 && "windowsMove"@[0] == 'w');
        assert("monitorAdded"@.len() == 12 && "monitorAdded"@[0] == 'm');
        assert("workspacesIn"@.len() == 12 && "workspacesIn"@[0] == 'w');
        assert("fadePopupsIn"@.len() == 12 && "fadePopupsIn"@[0] == 'f' && "fadePopupsIn"@[4] == 'P');
        assert("fadeLayersIn"@.len() == 12 && "fadeLayersIn"@[0] == 'f' && "fadeLayersIn"@[4] == 'L');
        assert("workspacesOut"@.len() == 13 && "workspacesOut"@[0] == 'w');
        assert("fadePopupsOut"@.len() == 13 && "fadePopupsOut"@[0] == 'f' && "fadePopupsOut"@[4] == 'P');
        assert("fadeLayersOut"@.len() == 13 && "fadeLayersOut"@[0] == 'f' && "fadeLayersOut"@[4] == 'L');
        assert("specialWorkspace"@.len() == 16);
        assert("specialWorkspaceIn"@.len() == 18);
        assert("specialWorkspaceOut"@.len() == 19);
    }

    /// The list that `get_list` gives follows the order of the variants, so
    /// that with `lemma_at_index` position `i` holds the name of the `i`-th
    /// variant (`fadeIn` at 9, `monitorAdded` at 30).
    pub proof fn lemma_positions()
        ensures
            AnimationName::Global.spec_index() == 0,
            AnimationName::Windows.spec_index() == 1,
            AnimationName::WindowsIn.spec_index() == 2,
            AnimationName::WindowsOut.spec_index() == 3,
            AnimationName::WindowsMove.spec_index() == 4,
            AnimationName::Layers.spec_index() == 5,
            AnimationName::LayersIn.spec_index() == 6,
            AnimationName::LayersOut.spec_index() == 7,
            AnimationName::Fade.spec_index() == 8,
            AnimationName::FadeIn.spec_index() == 9,
            AnimationName::FadeOut.spec_index() == 10,
            AnimationName::FadeSwitch.spec_index() == 11,
            AnimationName::FadeShadow.spec_index() == 12,
            AnimationName::FadeDim.spec_index() == 13,
            AnimationName::FadeLayers.spec_index() == 14,
            AnimationName::FadeLayersIn.spec_index() == 15,
            AnimationName::FadeLayersOut.spec_index() == 16,
            AnimationName::FadePopups.spec_index() == 17,
            AnimationName::FadePopupsIn.spec_index() == 18,
            AnimationName::FadePopupsOut.spec_index() == 19,
            AnimationName::FadeDpms.spec_index() == 20,
            AnimationName::Border.spec_index() == 21,
            AnimationName::BorderAngle.spec_index() == 22,
            AnimationName::Workspaces.spec_index() == 23,
            AnimationName::WorkspacesIn.spec_index() == 24,
            AnimationName::WorkspacesOut.spec_index() == 25,
            AnimationName::SpecialWorkspace.spec_index() == 26,
            AnimationName::SpecialWorkspaceIn.spec_index() == 27,
            AnimationName::SpecialWorkspaceOut.spec_index() == 28,
            AnimationName::ZoomFactor.spec_index() == 29,
            AnimationName::MonitorAdded.spec_index() == 30,
    {
    }


    /// Reading back what `to_string` writes gives the same animation.
    #[verifier::rlimit(50)]
    pub proof fn lemma_from_str_to_string(x: AnimationName)
        ensures
            Self::spec_from_str(x.spec_to_string()) == Ok::<Self, ()>(x),
    {
        reveal_strlit("global");
        reveal_strlit("windows");
        reveal_strlit("windowsIn");
        reveal_strlit("windowsOut");
        reveal_strlit("windowsMove");
        reveal_strlit("layers");
        reveal_strlit("layersIn");
        reveal_strlit("layersOut");
        reveal_strlit("fade");
        reveal_strlit("fadeIn");
        reveal_strlit("fadeOut");
        reveal_strlit("fadeSwitch");
        reveal_strlit("fadeShadow");
        reveal_strlit("fadeDim");
        reveal_strlit("fadeLayers");
        reveal_strlit("fadeLayersIn");
        reveal_strlit("fadeLayersOut");
        reveal_strlit("fadePopups");
        reveal_strlit("fadePopupsIn");
        reveal_strlit("fadePopupsOut");
        reveal_strlit("fadeDpms");
        reveal_strlit("border");
        reveal_strlit("borderangle");
        reveal_strlit("workspaces");
        reveal_strlit("workspacesIn");
        reveal_strlit("workspacesOut");
        reveal_strlit("specialWorkspace");
        reveal_strlit("specialWorkspaceIn");
        reveal_strlit("specialWorkspaceOut");
        reveal_strlit("zoomFactor");
        reveal_strlit("monitorAdded");
        assert(trim(x.spec_to_string()) == x.spec_to_string()) by {
            assert forall|i: int| 0 <= i < x.spec_to_string().len() implies
                !crate::text::is_ws(#[trigger] x.spec_to_string()[i]) by {}
            crate::text::lemma_no_ws_trim(x.spec_to_string());
        }
        match x {
            AnimationName::Global => {},
            AnimationName::Windows => {},
            AnimationName::WindowsIn => {},
            AnimationName::WindowsOut => {},
            AnimationName::WindowsMove => {},
            AnimationName::Layers => {},
            AnimationName::LayersIn => {},
            AnimationName::LayersOut => {},
            AnimationName::Fade => {},
            AnimationName::FadeIn => {},
            AnimationName::FadeOut => {},
            AnimationName::FadeSwitch => {},
            AnimationName::FadeShadow => {},
            AnimationName::FadeDim => {},
            AnimationName::FadeLayers => {},
            AnimationName::FadeLayersIn => {},
            AnimationName::FadeLayersOut => {},
            AnimationName::FadePopups => {
                assert("fadePopups"@[4] != "fadeLayers"@[4]);
            },
            AnimationName::FadePopupsIn => {
                assert("fadePopupsIn"@[4] != "fadeLayersIn"@[4]);
            },
            AnimationName::FadePopupsOut => {
                assert("fadePopupsOut"@[4] != "fadeLayersOut"@[4]);
            },
            AnimationName::FadeDpms => {},
            AnimationName::Border => {},
            AnimationName::BorderAngle => {},
            AnimationName::Workspaces => {},
            AnimationName::WorkspacesIn => {},
            AnimationName::WorkspacesOut => {},
            AnimationName::SpecialWorkspace => {},
            AnimationName::SpecialWorkspaceIn => {},
            AnimationName::SpecialWorkspaceOut => {},
            AnimationName::ZoomFactor => {},
            AnimationName::MonitorAdded => {},
        }
    }

    /// The list holds every animation once, each at the position of its variant.
    pub proof fn lemma_at_index(x: AnimationName)
        ensures
            0 <= x.spec_index() < 31,
            Self::spec_at(x.spec_index()) == x,
    {
    }
}

} // verus!
