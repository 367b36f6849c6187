//! Command bridge: maps the engine commands the script VM emits to renderer
//! and audio-system calls, using the game context to resolve character
//! emotions to sprite files and the asset path conventions for audio.
use vstd::prelude::*;

use crate::game_context::{character_sprite, sprite_path, GameContext};
use crate::strings::{decimal, push_decimal, seq_contains, str_contains};
use crate::ui_command::UiCommand;

verus! {

/// A command emitted by the script VM.
#[derive(Debug, Clone, PartialEq, Eq)]
pub enum EngineCommand {
    SetBg { asset: String, trans_kind_idx: u16, dur_reg: u8 },
    ShowChar { char_id: String, pos_byte: u8, emotion: String, trans_kind_idx: u16, dur_reg: u8 },
    HideChar { char_id: String, trans_kind_idx: u16, dur_reg: u8 },
    MoveChar { char_id: String, pos_byte: u8, dur_reg: u8 },
    Emotion { char_id: String, emotion: String },
    ShowSprite { asset: String, trans_kind_idx: u16, dur_reg: u8 },
    HideSprite { asset: String, trans_kind_idx: u16, dur_reg: u8 },
    SetDialogue { speaker: String, text: String, voice: String },
    SetNarration { text: String },
    PlayBgm { asset: String, fade_reg: u8, looping: bool },
    StopBgm { fade_reg: u8 },
    PlaySe { asset: String, fade_reg: u8 },
    PlayVoice { asset: String },
    Wait { dur_reg: u8 },
    Effect { effect_type: String, params: Vec<(String, u16)> },
    Goto { scene: String, label: String },
    Error { message: String },
}

/// A call on the renderer.  `ShowSprite` is made at the screen centre
/// (0.5, 0.5) with scale 1 and full opacity.
#[derive(Debug, Clone, PartialEq, Eq)]
pub enum RendererCall {
    SetBackground { path: String },
    ShowCharacter { char_id: String, sprite_path: String, position: u8 },
    HideCharacter { char_id: String },
    MoveCharacter { char_id: String, position: u8 },
    SetEmotion { char_id: String, sprite_path: String },
    ShowSprite { path: String },
    HideSprite { path: String },
    SetDialogue { speaker: String, text: String },
    SetNarration { text: String },
    Wait { duration_ms: u64 },
    Effect { effect_type: String, params: Vec<(String, u16)> },
}

/// A call on the audio system; the fade register selects the fade duration.
#[derive(Debug, Clone, PartialEq, Eq)]
pub enum AudioCall {
    PlayBgm { path: String, looping: bool, fade_reg: u8 },
    StopBgm { fade_reg: u8 },
    PlaySe { path: String, fade_reg: u8 },
}

/// What one engine command asks for.
#[derive(Debug, Clone, PartialEq, Eq)]
pub enum BridgeCall {
    /// A renderer call (skipped when there is no renderer).
    Renderer(RendererCall),
    /// An audio call (skipped, with a warning, when there is no audio system).
    Audio(AudioCall),
    /// Jump to `label` of `scene`; this is what the dispatcher returns.
    Goto { scene: String, label: String },
    /// Voice playback is not supported yet; the command is only reported.
    VoiceUnsupported { asset: String },
    /// The VM reported an error; it is only reported.
    VmError { message: String },
}

/// `assets/{prefix}/{asset}`
pub open spec fn audio_path(asset: Seq<char>, prefix: Seq<char>) -> Seq<char> {
    "assets/"@ + prefix + "/"@ + asset
}

/// The emotion actually looked up: `default` when none is given.
pub open spec fn effective_emotion(emotion: Seq<char>) -> Seq<char> {
    if emotion.len() == 0 {
        "default"@
    } else {
        emotion
    }
}

/// Sprite file of a character's emotion, or the empty path when the character
/// or the emotion is unknown.
pub open spec fn emotion_path(ctx_chars: Seq<crate::game_manifest::Character>, char_id: Seq<char>, emotion: Seq<char>) -> Seq<char> {
    if character_sprite(ctx_chars, char_id, effective_emotion(emotion)) is Some {
        sprite_path(char_id, effective_emotion(emotion))
    } else {
        Seq::empty()
    }
}

/// The call `dispatch` decides on for `cmd`.
pub open spec fn dispatch_spec<S>(cmd: EngineCommand, ctx: GameContext<S>, call: BridgeCall) -> bool {
    match cmd {
        EngineCommand::SetBg { asset, .. } => call matches BridgeCall::Renderer(
            RendererCall::SetBackground { path },
        ) && path@ == "assets/bg/"@ + asset@ + ".png"@,
        EngineCommand::ShowChar { char_id, pos_byte, emotion, .. } => call matches BridgeCall::Renderer(
            RendererCall::ShowCharacter { char_id: c, sprite_path: p, position },
        ) && c@ == char_id@ && position == pos_byte && p@ == emotion_path(
            ctx.characters@,
            char_id@,
            emotion@,
        ),
        EngineCommand::HideChar { char_id, .. } => call matches BridgeCall::Renderer(
            RendererCall::HideCharacter { char_id: c },
        ) && c@ == char_id@,
        EngineCommand::MoveChar { char_id, pos_byte, .. } => call matches BridgeCall::Renderer(
            RendererCall::MoveCharacter { char_id: c, position },
        ) && c@ == char_id@ && position == pos_byte,
        EngineCommand::Emotion { char_id, emotion } => call matches BridgeCall::Renderer(
            RendererCall::SetEmotion { char_id: c, sprite_path: p },
        ) && c@ == char_id@ && p@ == emotion_path(ctx.characters@, char_id@, emotion@),
        EngineCommand::ShowSprite { asset, .. } => call matches BridgeCall::Renderer(
            RendererCall::ShowSprite { path },
        ) && path@ == asset@,
        EngineCommand::HideSprite { asset, .. } => call matches BridgeCall::Renderer(
            RendererCall::HideSprite { path },
        ) && path@ == asset@,
        EngineCommand::SetDialogue { speaker, text, .. } => call matches BridgeCall::Renderer(
            RendererCall::SetDialogue { speaker: s, text: t },
        ) && s@ == speaker@ && t@ == text@,
        EngineCommand::SetNarration { text } => call matches BridgeCall::Renderer(
            RendererCall::SetNarration { text: t },
        ) && t@ == text@,
        EngineCommand::PlayBgm { asset, fade_reg, looping } => call matches BridgeCall::Audio(
            AudioCall::PlayBgm { path, looping: l, fade_reg: f },
        ) && path@ == audio_path(asset@, "bgm"@) && l == looping && f == fade_reg,
        EngineCommand::StopBgm { fade_reg } => call == BridgeCall::Audio(AudioCall::StopBgm { fade_reg }),
        EngineCommand::PlaySe { asset, fade_reg } => call matches BridgeCall::Audio(
            AudioCall::PlaySe { path, fade_reg: f },
        ) && path@ == audio_path(asset@, "se"@) && f == fade_reg,
        EngineCommand::PlayVoice { asset } => call matches BridgeCall::VoiceUnsupported { asset: a }
            && a@ == asset@,
        EngineCommand::Wait { .. } => call == BridgeCall::Renderer(RendererCall::Wait { duration_ms: 0 }),
        EngineCommand::Effect { effect_type, params } => call matches BridgeCall::Renderer(
            RendererCall::Effect { effect_type: t, params: p },
        ) && t@ == effect_type@ && p@ == params@,
        EngineCommand::Goto { scene, label } => call matches BridgeCall::Goto { scene: s, label: l }
            && s@ == scene@ && l@ == label@,
        EngineCommand::Error { message } => call matches BridgeCall::VmError { message: m }
            && m@ == message@,
    }
}

/// Maps a bare audio asset name to its file path: `assets/{prefix}/{asset}`.
/// No extension is added; the audio system tries the known extensions.
pub fn resolve_audio_path(asset: &str, prefix: &str) -> (p: String)
    ensures
        p@ == audio_path(asset@, prefix@),
{
    let mut p = String::from_str("assets/");
    p.append(prefix);
    p.append("/");
    p.append(asset);
    p
}

fn resolve_emotion_path<S>(ctx: &GameContext<S>, char_id: &str, emotion: &str) -> (p: String)
    requires
        ctx.wf(),
    ensures
        p@ == emotion_path(ctx.characters@, char_id@, emotion@),
{
    proof {
        reveal_strlit("default");
    }
    let effective = if emotion.is_empty() {
        "default"
    } else {
        emotion
    };
    match ctx.resolve_sprite_path(char_id, effective) {
        Some(p) => p,
        None => String::new(),
    }
}

/// Decides which renderer or audio call an engine command turns into:
/// backgrounds map to `assets/bg/{name}.png`, character emotions to their
/// sprite files (empty emotion means `default`; unknown ones give an empty
/// path), audio assets to `assets/bgm/…` and `assets/se/…`, `Goto` to a jump.
pub fn dispatch<S>(cmd: &EngineCommand, ctx: &GameContext<S>) -> (call: BridgeCall)
    requires
        ctx.wf(),
    ensures
        dispatch_spec(*cmd, *ctx, call),
{
    match cmd {
        EngineCommand::SetBg { asset, .. } => {
            let mut path = String::from_str("assets/bg/");
            path.append(asset.as_str());
            path.append(".png");
            BridgeCall::Renderer(RendererCall::SetBackground { path })
        },
        EngineCommand::ShowChar { char_id, pos_byte, emotion, .. } => {
            let sprite_path = resolve_emotion_path(ctx, char_id.as_str(), emotion.as_str());
            BridgeCall::Renderer(
                RendererCall::ShowCharacter {
                    char_id: char_id.clone(),
                    sprite_path,
                    position: *pos_byte,
                },
            )
        },
        EngineCommand::HideChar { char_id, .. } => {
            BridgeCall::Renderer(RendererCall::HideCharacter { char_id: char_id.clone() })
        },
        EngineCommand::MoveChar { char_id, pos_byte, .. } => {
            BridgeCall::Renderer(
                RendererCall::MoveCharacter { char_id: char_id.clone(), position: *pos_byte },
            )
        },
        EngineCommand::Emotion { char_id, emotion } => {
            let sprite_path = resolve_emotion_path(ctx, char_id.as_str(), emotion.as_str());
            BridgeCall::Renderer(RendererCall::SetEmotion { char_id: char_id.clone(), sprite_path })
        },
        EngineCommand::ShowSprite { asset, .. } => {
            BridgeCall::Renderer(RendererCall::ShowSprite { path: asset.clone() })
        },
        EngineCommand::HideSprite { asset, .. } => {
            BridgeCall::Renderer(RendererCall::HideSprite { path: asset.clone() })
        },
        EngineCommand::SetDialogue { speaker, text, .. } => {
            BridgeCall::Renderer(
                RendererCall::SetDialogue { speaker: speaker.clone(), text: text.clone() },
            )
        },
        EngineCommand::SetNarration { text } => {
            BridgeCall::Renderer(RendererCall::SetNarration { text: text.clone() })
        },
        EngineCommand::PlayBgm { asset, fade_reg, looping } => {
            let path = resolve_audio_path(asset.as_str(), "bgm");
            BridgeCall::Audio(AudioCall::PlayBgm { path, looping: *looping, fade_reg: *fade_reg })
        },
        EngineCommand::StopBgm { fade_reg } => {
            BridgeCall::Audio(AudioCall::StopBgm { fade_reg: *fade_reg })
        },
        EngineCommand::PlaySe { asset, fade_reg } => {
            let path = resolve_audio_path(asset.as_str(), "se");
            BridgeCall::Audio(AudioCall::PlaySe { path, fade_reg: *fade_reg })
        },
        EngineCommand::PlayVoice { asset } => {
            BridgeCall::VoiceUnsupported { asset: asset.clone() }
        },
        EngineCommand::Wait { .. } => { BridgeCall::Renderer(RendererCall::Wait { duration_ms: 0 }) },
        EngineCommand::Effect { effect_type, params } => {
            BridgeCall::Renderer(
                RendererCall::Effect { effect_type: effect_type.clone(), params: clone_params(params) },
            )
        },
        EngineCommand::Goto { scene, label } => {
            BridgeCall::Goto { scene: scene.clone(), label: label.clone() }
        },
        EngineCommand::Error { message } => { BridgeCall::VmError { message: message.clone() } },
    }
}

/// A sound effect plays from the `se` directory: whatever the context, the
/// call dispatched for `PlaySe { asset, fade_reg }` is an audio `PlaySe` of the
/// file `assets/se/{asset}` with the same fade register, never a file under
/// `assets/bgm/`.
pub proof fn law_sound_effects_play_from_se<S>(asset: String, fade_reg: u8, ctx: GameContext<S>, call: BridgeCall)
    requires
        dispatch_spec(EngineCommand::PlaySe { asset, fade_reg }, ctx, call),
    ensures
        call matches BridgeCall::Audio(AudioCall::PlaySe { path, fade_reg: f }) && path@ == "assets/se/"@
            + asset@ && f == fade_reg,
        call matches BridgeCall::Audio(AudioCall::PlaySe { path, .. }) && !"assets/bgm/"@.is_prefix_of(
            path@,
        ),
{
    reveal_strlit("assets/");
    reveal_strlit("se");
    reveal_strlit("/");
    reveal_strlit("assets/se/");
    reveal_strlit("assets/bgm/");
    if let BridgeCall::Audio(AudioCall::PlaySe { path, .. }) = call {
        assert(path@ =~= "assets/se/"@ + asset@);
        assert(path@[7] == 's');
        assert("assets/bgm/"@[7] == 'b');
    }
}

/// Music plays from the `bgm` directory: the call dispatched for
/// `PlayBgm { asset, fade_reg, looping }` is an audio `PlayBgm` of the file
/// `assets/bgm/{asset}` that keeps the looping flag and the fade register.
pub proof fn law_music_plays_from_bgm<S>(asset: String, fade_reg: u8, looping: bool, ctx: GameContext<S>, call: BridgeCall)
    requires
        dispatch_spec(EngineCommand::PlayBgm { asset, fade_reg, looping }, ctx, call),
    ensures
        call matches BridgeCall::Audio(AudioCall::PlayBgm { path, looping: l, fade_reg: f }) && path@
            == "assets/bgm/"@ + asset@ && l == looping && f == fade_reg,
{
    reveal_strlit("assets/");
    reveal_strlit("bgm");
    reveal_strlit("/");
    reveal_strlit("assets/bgm/");
    if let BridgeCall::Audio(AudioCall::PlayBgm { path, .. }) = call {
        assert(path@ =~= "assets/bgm/"@ + asset@);
    }
}

/// Showing a character puts it at the position code of the command: the call
/// dispatched for `ShowChar { char_id, pos_byte, .. }` shows that character at
/// `pos_byte`.
pub proof fn law_show_keeps_position<S>(
    char_id: String,
    pos_byte: u8,
    emotion: String,
    trans_kind_idx: u16,
    dur_reg: u8,
    ctx: GameContext<S>,
    call: BridgeCall,
)
    requires
        dispatch_spec(EngineCommand::ShowChar { char_id, pos_byte, emotion, trans_kind_idx, dur_reg }, ctx, call),
    ensures
        call matches BridgeCall::Renderer(RendererCall::ShowCharacter { char_id: c, position, .. }) && c@
            == char_id@ && position == pos_byte,
{
}

/// Moving a character keeps the position code of the command: the call
/// dispatched for `MoveChar { char_id, pos_byte, .. }` moves that character to
/// `pos_byte`, so two moves of a character to different positions give
/// different calls.
pub proof fn law_move_keeps_position<S>(
    char_id: String,
    pos1: u8,
    pos2: u8,
    dur_reg: u8,
    ctx: GameContext<S>,
    call1: BridgeCall,
    call2: BridgeCall,
)
    requires
        dispatch_spec(EngineCommand::MoveChar { char_id, pos_byte: pos1, dur_reg }, ctx, call1),
        dispatch_spec(EngineCommand::MoveChar { char_id, pos_byte: pos2, dur_reg }, ctx, call2),
    ensures
        call1 matches BridgeCall::Renderer(RendererCall::MoveCharacter { char_id: c, position }) && c@
            == char_id@ && position == pos1,
        pos1 != pos2 ==> call1 != call2,
{
}

fn clone_params(params: &Vec<(String, u16)>) -> (out: Vec<(String, u16)>)
    ensures
        out@ == params@,
{
    let mut out: Vec<(String, u16)> = Vec::new();
    let mut i: usize = 0;
    while i < params.len()
        invariant
            i <= params@.len(),
            out@ == params@.subrange(0, i as int),
        decreases params@.len() - i,
    {
        let (name, value) = (params[i].0.clone(), params[i].1);
        out.push((name, value));
        proof {
            assert(out@ =~= params@.subrange(0, i + 1));
        }
        i = i + 1;
    }
    proof {
        assert(params@.subrange(0, params@.len() as int) =~= params@);
    }
    out
}

/// `format!("{:?}", items)` of a list of strings: `["a", "b"]` with each
/// string in Rust debug notation.
pub uninterp spec fn debug_string_list(items: Seq<Seq<char>>) -> Seq<char>;

/// `format!("{:?}", items)` of a list of (name, value) pairs: `[("a", 1)]`.
pub uninterp spec fn debug_param_list(items: Seq<(Seq<char>, u16)>) -> Seq<char>;

/// Views of a list of strings.
pub open spec fn string_views(items: Seq<String>) -> Seq<Seq<char>> {
    items.map_values(|s: String| s@)
}

/// Views of a list of (name, value) pairs.
pub open spec fn param_views(items: Seq<(String, u16)>) -> Seq<(Seq<char>, u16)> {
    items.map_values(|p: (String, u16)| (p.0@, p.1))
}

/// Debug rendering of a string list (std's `Debug` for `[String]`).
#[verifier::external_body]
fn debug_strings(items: &[String]) -> (s: String)
    ensures
        s@ == debug_string_list(string_views(items@)),
{
    format!("{:?}", items)
}

/// Debug rendering of a parameter list (std's `Debug` for `[(String, u16)]`).
#[verifier::external_body]
fn debug_params(items: &[(String, u16)]) -> (s: String)
    ensures
        s@ == debug_param_list(param_views(items@)),
{
    format!("{:?}", items)
}

/// Number of pixels of the mock screenshot: 320 × 180 RGBA.
pub const MOCK_SCREENSHOT_BYTES: usize = 230_400;

/// A renderer that records each call as a line of text, for tests.
pub struct MockRenderer {
    calls: Vec<String>,
}

impl View for MockRenderer {
    type V = Seq<Seq<char>>;

    closed spec fn view(&self) -> Seq<Seq<char>> {
        string_views(self.calls@)
    }
}

/// `"`, a string, and `"` again.
pub open spec fn quoted(s: Seq<char>) -> Seq<char> {
    "\""@ + s + "\""@
}

impl MockRenderer {
    /// No calls recorded.
    pub fn new() -> (m: Self)
        ensures
            m@ == Seq::<Seq<char>>::empty(),
    {
        MockRenderer { calls: Vec::new() }
    }

    /// Number of recorded calls.
    pub fn call_count(&self) -> (n: usize)
        ensures
            n as nat == self@.len(),
    {
        self.calls.len()
    }

    /// The last recorded call, or the empty string.
    pub fn last_call(&self) -> (s: &str)
        ensures
            s@ == (if self@.len() > 0 {
                self@.last()
            } else {
                Seq::<char>::empty()
            }),
    {
        proof {
            reveal_strlit("");
            assert(""@ =~= Seq::<char>::empty());
        }
        let n = self.calls.len();
        if n > 0 {
            self.calls[n - 1].as_str()
        } else {
            ""
        }
    }

    /// All recorded calls, oldest first.
    pub fn calls(&self) -> (c: &[String])
        ensures
            string_views(c@) == self@,
    {
        self.calls.as_slice()
    }

    /// Forgets all recorded calls.
    pub fn clear(&mut self)
        ensures
            final(self)@ == Seq::<Seq<char>>::empty(),
    {
        self.calls.clear();
    }

    /// Whether some recorded call contains `text`.
    pub fn has_call_containing(&self, text: &str) -> (b: bool)
        ensures
            b == (exists|i: int| 0 <= i < self@.len() && seq_contains(#[trigger] self@[i], text@)),
    {
        let mut i: usize = 0;
        while i < self.calls.len()
            invariant
                i <= self.calls@.len(),
                self@ == string_views(self.calls@),
                forall|j: int| 0 <= j < i ==> !seq_contains(#[trigger] self@[j], text@),
            decreases self.calls@.len() - i,
        {
            if str_contains(self.calls[i].as_str(), text) {
                assert(self@[i as int] == self.calls@[i as int]@);
                return true;
            }
            i = i + 1;
        }
        false
    }

    /// Records a call already rendered as text.
    pub fn record_call(&mut self, call: String)
        ensures
            final(self)@ == old(self)@.push(call@),
    {
        self.calls.push(call);
        proof {
            assert(string_views(self.calls@) =~= old(self)@.push(call@));
        }
    }

    /// Records `set_background("{path}")`.
    pub fn set_background(&mut self, path: &str)
        ensures
            final(self)@ == old(self)@.push("set_background("@ + quoted(path@) + ")"@),
    {
        let mut s = String::from_str("set_background(\"");
        s.append(path);
        s.append("\")");
        proof {
            reveal_strlit("set_background(\"");
            reveal_strlit("\")");
            reveal_strlit("set_background(");
            reveal_strlit("\"");
            reveal_strlit(")");
            assert(s@ =~= "set_background("@ + quoted(path@) + ")"@);
        }
        self.record_call(s);
    }

    /// Records `show_character("{c}", "{p}", pos={pos})`.
    pub fn show_character(&mut self, c: &str, p: &str, pos: u8)
        ensures
            final(self)@ == old(self)@.push(
                "show_character("@ + quoted(c@) + ", "@ + quoted(p@) + ", pos="@ + decimal(pos as nat)
                    + ")"@,
            ),
    {
        let mut s = String::from_str("show_character(\"");
        s.append(c);
        s.append("\", \"");
        s.append(p);
        s.append("\", pos=");
        push_decimal(&mut s, pos as u64);
        s.append(")");
        proof {
            reveal_strlit("show_character(\"");
            reveal_strlit("\", \"");
            reveal_strlit("\", pos=");
            reveal_strlit("show_character(");
            reveal_strlit("\"");
            reveal_strlit(", ");
            reveal_strlit(", pos=");
            reveal_strlit(")");
            assert(s@ =~= "show_character("@ + quoted(c@) + ", "@ + quoted(p@) + ", pos="@ + decimal(
                pos as nat,
            ) + ")"@);
        }
        self.record_call(s);
    }

    /// Records `hide_character("{c}")`.
    pub fn hide_character(&mut self, c: &str)
        ensures
            final(self)@ == old(self)@.push("hide_character("@ + quoted(c@) + ")"@),
    {
        let mut s = String::from_str("hide_character(\"");
        s.append(c);
        s.append("\")");
        proof {
            reveal_strlit("hide_character(\"");
            reveal_strlit("\")");
            reveal_strlit("hide_character(");
            reveal_strlit("\"");
            reveal_strlit(")");
            assert(s@ =~= "hide_character("@ + quoted(c@) + ")"@);
        }
        self.record_call(s);
    }

    /// Records `move_character("{c}", pos={pos})`.
    pub fn move_character(&mut self, c: &str, pos: u8)
        ensures
            final(self)@ == old(self)@.push(
                "move_character("@ + quoted(c@) + ", pos="@ + decimal(pos as nat) + ")"@,
            ),
    {
        let mut s = String::from_str("move_character(\"");
        s.append(c);
        s.append("\", pos=");
        push_decimal(&mut s, pos as u64);
        s.append(")");
        proof {
            reveal_strlit("move_character(\"");
            reveal_strlit("\", pos=");
            reveal_strlit("move_character(");
            reveal_strlit("\"");
            reveal_strlit(", pos=");
            reveal_strlit(")");
            assert(s@ =~= "move_character("@ + quoted(c@) + ", pos="@ + decimal(pos as nat) + ")"@);
        }
        self.record_call(s);
    }

    /// Records `set_emotion("{c}", "{p}")`.
    pub fn set_emotion(&mut self, c: &str, p: &str)
        ensures
            final(self)@ == old(self)@.push(
                "set_emotion("@ + quoted(c@) + ", "@ + quoted(p@) + ")"@,
            ),
    {
        let mut s = String::from_str("set_emotion(\"");
        s.append(c);
        s.append("\", \"");
        s.append(p);
        s.append("\")");
        proof {
            reveal_strlit("set_emotion(\"");
            reveal_strlit("\", \"");
            reveal_strlit("\")");
            reveal_strlit("set_emotion(");
            reveal_strlit("\"");
            reveal_strlit(", ");
            reveal_strlit(")");
            assert(s@ =~= "set_emotion("@ + quoted(c@) + ", "@ + quoted(p@) + ")"@);
        }
        self.record_call(s);
    }

    /// Records `hide_sprite("{p}")`.
    pub fn hide_sprite(&mut self, p: &str)
        ensures
            final(self)@ == old(self)@.push("hide_sprite("@ + quoted(p@) + ")"@),
    {
        let mut s = String::from_str("hide_sprite(\"");
        s.append(p);
        s.append("\")");
        proof {
            reveal_strlit("hide_sprite(\"");
            reveal_strlit("\")");
            reveal_strlit("hide_sprite(");
            reveal_strlit("\"");
            reveal_strlit(")");
            assert(s@ =~= "hide_sprite("@ + quoted(p@) + ")"@);
        }
        self.record_call(s);
    }

    /// Records `set_dialogue(speaker="{s}", text="{t}")`.
    pub fn set_dialogue(&mut self, speaker: &str, text: &str)
        ensures
            final(self)@ == old(self)@.push(
                "set_dialogue(speaker="@ + quoted(speaker@) + ", text="@ + quoted(text@) + ")"@,
            ),
    {
        let mut s = String::from_str("set_dialogue(speaker=\"");
        s.append(speaker);
        s.append("\", text=\"");
        s.append(text);
        s.append("\")");
        proof {
            reveal_strlit("set_dialogue(speaker=\"");
            reveal_strlit("\", text=\"");
            reveal_strlit("\")");
            reveal_strlit("set_dialogue(speaker=");
            reveal_strlit("\"");
            reveal_strlit(", text=");
            reveal_strlit(")");
            assert(s@ =~= "set_dialogue(speaker="@ + quoted(speaker@) + ", text="@ + quoted(text@)
                + ")"@);
        }
        self.record_call(s);
    }

    /// Records `set_narration(text="{t}")`.
    pub fn set_narration(&mut self, text: &str)
        ensures
            final(self)@ == old(self)@.push("set_narration(text="@ + quoted(text@) + ")"@),
    {
        let mut s = String::from_str("set_narration(text=\"");
        s.append(text);
        s.append("\")");
        proof {
            reveal_strlit("set_narration(text=\"");
            reveal_strlit("\")");
            reveal_strlit("set_narration(text=");
            reveal_strlit("\"");
            reveal_strlit(")");
            assert(s@ =~= "set_narration(text="@ + quoted(text@) + ")"@);
        }
        self.record_call(s);
    }

    /// Records `show_menu(prompt="{p}", choices={choices:?})`.
    pub fn show_menu(&mut self, prompt: &str, choices: &[String])
        ensures
            final(self)@ == old(self)@.push(
                "show_menu(prompt="@ + quoted(prompt@) + ", choices="@ + debug_string_list(
                    string_views(choices@),
                ) + ")"@,
            ),
    {
        let mut s = String::from_str("show_menu(prompt=\"");
        s.append(prompt);
        s.append("\", choices=");
        let list = debug_strings(choices);
        s.append(list.as_str());
        s.append(")");
        proof {
            reveal_strlit("show_menu(prompt=\"");
            reveal_strlit("\", choices=");
            reveal_strlit("show_menu(prompt=");
            reveal_strlit("\"");
            reveal_strlit(", choices=");
            reveal_strlit(")");
            assert(s@ =~= "show_menu(prompt="@ + quoted(prompt@) + ", choices="@ + debug_string_list(
                string_views(choices@),
            ) + ")"@);
        }
        self.record_call(s);
    }

    /// Records `clear_menu()`.
    pub fn clear_menu(&mut self)
        ensures
            final(self)@ == old(self)@.push("clear_menu()"@),
    {
        self.record_call(String::from_str("clear_menu()"));
    }

    /// Records `wait({d}ms)`.
    pub fn wait(&mut self, duration_ms: u64)
        ensures
            final(self)@ == old(self)@.push("wait("@ + decimal(duration_ms as nat) + "ms)"@),
    {
        let mut s = String::from_str("wait(");
        push_decimal(&mut s, duration_ms);
        s.append("ms)");
        self.record_call(s);
    }

    /// Records `effect(type="{t}", params={params:?})`.
    pub fn effect(&mut self, effect_type: &str, params: &[(String, u16)])
        ensures
            final(self)@ == old(self)@.push(
                "effect(type="@ + quoted(effect_type@) + ", params="@ + debug_param_list(
                    param_views(params@),
                ) + ")"@,
            ),
    {
        let mut s = String::from_str("effect(type=\"");
        s.append(effect_type);
        s.append("\", params=");
        let list = debug_params(params);
        s.append(list.as_str());
        s.append(")");
        proof {
            reveal_strlit("effect(type=\"");
            reveal_strlit("\", params=");
            reveal_strlit("effect(type=");
            reveal_strlit("\"");
            reveal_strlit(", params=");
            reveal_strlit(")");
            assert(s@ =~= "effect(type="@ + quoted(effect_type@) + ", params="@ + debug_param_list(
                param_views(params@),
            ) + ")"@);
        }
        self.record_call(s);
    }

    /// Records `set_visible_range(start={start}, end={end})`.
    pub fn set_visible_range(&mut self, start: usize, end: usize)
        ensures
            final(self)@ == old(self)@.push(
                "set_visible_range(start="@ + decimal(start as nat) + ", end="@ + decimal(end as nat)
                    + ")"@,
            ),
    {
        let mut s = String::from_str("set_visible_range(start=");
        push_decimal(&mut s, start as u64);
        s.append(", end=");
        push_decimal(&mut s, end as u64);
        s.append(")");
        self.record_call(s);
    }

    /// A fake 320×180 RGBA screenshot: every byte is 128.
    pub fn capture_screenshot(&self) -> (r: Result<Vec<u8>, String>)
        ensures
            r matches Ok(px) && px@.len() == MOCK_SCREENSHOT_BYTES && forall|i: int|
                0 <= i < px@.len() ==> px@[i] == 128u8,
    {
        let mut px: Vec<u8> = Vec::new();
        while px.len() < MOCK_SCREENSHOT_BYTES
            invariant
                px@.len() <= MOCK_SCREENSHOT_BYTES,
                forall|i: int| 0 <= i < px@.len() ==> px@[i] == 128u8,
            decreases MOCK_SCREENSHOT_BYTES - px@.len(),
        {
            px.push(128u8);
        }
        Ok(px)
    }

    /// Records `render_save_ui({n} commands)`.
    pub fn render_save_ui(&mut self, commands: &[UiCommand])
        ensures
            final(self)@ == old(self)@.push(
                "render_save_ui("@ + decimal(commands@.len()) + " commands)"@,
            ),
    {
        let mut s = String::from_str("render_save_ui(");
        push_decimal(&mut s, commands.len() as u64);
        s.append(" commands)");
        self.record_call(s);
    }

    /// Records `clear_save_ui()`.
    pub fn clear_save_ui(&mut self)
        ensures
            final(self)@ == old(self)@.push("clear_save_ui()"@),
    {
        self.record_call(String::from_str("clear_save_ui()"));
    }

    /// Records `render_pause_menu({n} commands)`.
    pub fn render_pause_menu(&mut self, commands: &[UiCommand])
        ensures
            final(self)@ == old(self)@.push(
                "render_pause_menu("@ + decimal(commands@.len()) + " commands)"@,
            ),
    {
        let mut s = String::from_str("render_pause_menu(");
        push_decimal(&mut s, commands.len() as u64);
        s.append(" commands)");
        self.record_call(s);
    }

    /// Records `clear_pause_menu()`.
    pub fn clear_pause_menu(&mut self)
        ensures
            final(self)@ == old(self)@.push("clear_pause_menu()"@),
    {
        self.record_call(String::from_str("clear_pause_menu()"));
    }
}

} // verus!
