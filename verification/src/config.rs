//! The configuration record, its distillation modes, and the edits that the
//! application writes back to `config.toml`.
use vstd::prelude::*;
use crate::text::{chars_of, same_chars};

verus! {

/// Name of the mode whose transcript is pasted without distillation.
pub const PASSTHROUGH_MODE_NAME: &'static str = "Verbatim";

/// Logical width of the settings dialog when the configuration names none.
pub const DEFAULT_SETTINGS_W: u32 = 480;

/// Logical height of the settings dialog when the configuration names none.
pub const DEFAULT_SETTINGS_H: u32 = 290;

/// A named distillation prompt.
#[derive(Clone, Debug, PartialEq)]
pub struct ModeConfig {
    pub name: String,
    pub prompt: String,
}

/// The application's configuration (`config.toml`).
pub struct Config {
    pub whisper_url: String,
    pub ollama_url: String,
    pub whisper_model: String,
    pub llm_model: String,
    pub hotkey: Option<String>,
    pub prompt: String,
    pub distill_mode: Option<String>,
    pub modes: Vec<ModeConfig>,
    pub settings_w: Option<u32>,
    pub settings_h: Option<u32>,
}

impl View for ModeConfig {
    type V = (Seq<char>, Seq<char>);

    open spec fn view(&self) -> (Seq<char>, Seq<char>) {
        (self.name@, self.prompt@)
    }
}

impl ModeConfig {
    /// A copy of this mode.
    pub fn duplicate(&self) -> (r: ModeConfig)
        ensures
            r@ == self@,
    {
        ModeConfig { name: self.name.clone(), prompt: self.prompt.clone() }
    }
}

/// The `(name, prompt)` view of each mode.
pub open spec fn modes_view(v: Seq<ModeConfig>) -> Seq<(Seq<char>, Seq<char>)> {
    v.map_values(|m: ModeConfig| m@)
}

/// The prompt of the built-in "Clean text" mode.
pub open spec fn clean_text_prompt() -> Seq<char> {
    "Remove all filler words, interjections, and hesitations. Fix punctuation. Output ONLY the cleaned text.\n\n---\n"@
}

/// The modes used when the configuration lists none: the legacy prompt, a
/// clean-up prompt, and the passthrough mode with an empty prompt.
pub open spec fn default_modes_spec(legacy_prompt: Seq<char>) -> Seq<(Seq<char>, Seq<char>)> {
    seq![
        ("Prompt"@, legacy_prompt),
        ("Clean text"@, clean_text_prompt()),
        (PASSTHROUGH_MODE_NAME@, Seq::<char>::empty()),
    ]
}

/// Some mode is the passthrough mode.
pub open spec fn has_passthrough(modes: Seq<(Seq<char>, Seq<char>)>) -> bool {
    exists|i: int| 0 <= i < modes.len() && (#[trigger] modes[i]).0 == PASSTHROUGH_MODE_NAME@
}

/// The modes a loaded configuration works with: the defaults where none are
/// listed, the listed ones with a passthrough mode appended where none is one.
pub open spec fn completed_modes(
    modes: Seq<(Seq<char>, Seq<char>)>,
    prompt: Seq<char>,
) -> Seq<(Seq<char>, Seq<char>)> {
    if modes.len() == 0 {
        default_modes_spec(prompt)
    } else if !has_passthrough(modes) {
        modes.push((PASSTHROUGH_MODE_NAME@, Seq::<char>::empty()))
    } else {
        modes
    }
}

/// The built-in modes, the first holding `legacy_prompt`.
pub fn default_modes(legacy_prompt: &str) -> (r: Vec<ModeConfig>)
    ensures
        modes_view(r@) == default_modes_spec(legacy_prompt@),
{
    let mut r: Vec<ModeConfig> = Vec::new();
    r.push(ModeConfig { name: "Prompt".to_owned(), prompt: legacy_prompt.to_owned() });
    r.push(
        ModeConfig {
            name: "Clean text".to_owned(),
            prompt: "Remove all filler words, interjections, and hesitations. Fix punctuation. Output ONLY the cleaned text.\n\n---\n".to_owned(),
        },
    );
    r.push(ModeConfig { name: PASSTHROUGH_MODE_NAME.to_owned(), prompt: String::new() });
    assert(modes_view(r@) =~= default_modes_spec(legacy_prompt@));
    r
}

/// Whether some mode is the passthrough mode.
pub fn contains_passthrough(modes: &[ModeConfig]) -> (r: bool)
    ensures
        r == has_passthrough(modes_view(modes@)),
{
    let pt = chars_of(PASSTHROUGH_MODE_NAME);
    let mut i: usize = 0;
    while i < modes.len()
        invariant
            pt@ == PASSTHROUGH_MODE_NAME@,
            i <= modes@.len(),
            forall|k: int| 0 <= k < i ==> modes@[k].name@ != PASSTHROUGH_MODE_NAME@,
        decreases modes.len() - i,
    {
        let name = chars_of(modes[i].name.as_str());
        if same_chars(name.as_slice(), pt.as_slice()) {
            assert(modes_view(modes@)[i as int].0 == PASSTHROUGH_MODE_NAME@);
            return true;
        }
        i = i + 1;
    }
    assert forall|k: int| 0 <= k < modes@.len() implies (#[trigger] modes_view(modes@)[k]).0
        != PASSTHROUGH_MODE_NAME@ by {
        assert(modes_view(modes@)[k].0 == modes@[k].name@);
    }
    false
}

/// Completes the modes of a freshly parsed configuration (see `completed_modes`).
pub fn complete_modes(cfg: &mut Config)
    ensures
        modes_view(final(cfg).modes@) == completed_modes(modes_view(old(cfg).modes@), old(cfg).prompt@),
        final(cfg).whisper_url == old(cfg).whisper_url,
        final(cfg).ollama_url == old(cfg).ollama_url,
        final(cfg).whisper_model == old(cfg).whisper_model,
        final(cfg).llm_model == old(cfg).llm_model,
        final(cfg).hotkey == old(cfg).hotkey,
        final(cfg).prompt == old(cfg).prompt,
        final(cfg).distill_mode == old(cfg).distill_mode,
        final(cfg).settings_w == old(cfg).settings_w,
        final(cfg).settings_h == old(cfg).settings_h,
{
    if cfg.modes.len() == 0 {
        let d = default_modes(cfg.prompt.as_str());
        cfg.modes = d;
    } else if !contains_passthrough(cfg.modes.as_slice()) {
        let ghost before = cfg.modes@;
        cfg.modes.push(ModeConfig { name: PASSTHROUGH_MODE_NAME.to_owned(), prompt: String::new() });
        assert(modes_view(cfg.modes@) =~= modes_view(before).push(
            (PASSTHROUGH_MODE_NAME@, Seq::<char>::empty()),
        ));
    }
}

/// Records `mode_name` as the active distillation mode; every other field is kept.
pub fn save_distill_mode_to_config(cfg: &mut Config, mode_name: &str)
    ensures
        final(cfg).distill_mode matches Some(m) && m@ == mode_name@,
        final(cfg).whisper_url == old(cfg).whisper_url,
        final(cfg).ollama_url == old(cfg).ollama_url,
        final(cfg).whisper_model == old(cfg).whisper_model,
        final(cfg).llm_model == old(cfg).llm_model,
        final(cfg).hotkey == old(cfg).hotkey,
        final(cfg).prompt == old(cfg).prompt,
        final(cfg).modes == old(cfg).modes,
        final(cfg).settings_w == old(cfg).settings_w,
        final(cfg).settings_h == old(cfg).settings_h,
{
    cfg.distill_mode = Some(mode_name.to_owned());
}

/// A copy of each mode.
pub fn copy_modes(modes: &[ModeConfig]) -> (r: Vec<ModeConfig>)
    ensures
        modes_view(r@) == modes_view(modes@),
{
    let mut r: Vec<ModeConfig> = Vec::new();
    let mut i: usize = 0;
    while i < modes.len()
        invariant
            i <= modes@.len(),
            modes_view(r@) =~= modes_view(modes@).take(i as int),
        decreases modes.len() - i,
    {
        let m = modes[i].duplicate();
        let ghost before = r@;
        r.push(m);
        assert(modes_view(r@) =~= modes_view(before).push(m@));
        i = i + 1;
    }
    assert(modes_view(modes@).take(modes@.len() as int) =~= modes_view(modes@));
    r
}

/// Replaces the list of modes; every other field is kept.
pub fn save_modes_to_config(cfg: &mut Config, modes: &[ModeConfig])
    ensures
        modes_view(final(cfg).modes@) == modes_view(modes@),
        final(cfg).whisper_url == old(cfg).whisper_url,
        final(cfg).ollama_url == old(cfg).ollama_url,
        final(cfg).whisper_model == old(cfg).whisper_model,
        final(cfg).llm_model == old(cfg).llm_model,
        final(cfg).hotkey == old(cfg).hotkey,
        final(cfg).prompt == old(cfg).prompt,
        final(cfg).distill_mode == old(cfg).distill_mode,
        final(cfg).settings_w == old(cfg).settings_w,
        final(cfg).settings_h == old(cfg).settings_h,
{
    cfg.modes = copy_modes(modes);
}

/// Records the LLM endpoint's URL; every other field is kept.
pub fn save_ollama_url_to_config(cfg: &mut Config, url: &str)
    ensures
        final(cfg).ollama_url@ == url@,
        final(cfg).whisper_url == old(cfg).whisper_url,
        final(cfg).whisper_model == old(cfg).whisper_model,
        final(cfg).llm_model == old(cfg).llm_model,
        final(cfg).hotkey == old(cfg).hotkey,
        final(cfg).prompt == old(cfg).prompt,
        final(cfg).distill_mode == old(cfg).distill_mode,
        final(cfg).modes == old(cfg).modes,
        final(cfg).settings_w == old(cfg).settings_w,
        final(cfg).settings_h == old(cfg).settings_h,
{
    cfg.ollama_url = url.to_owned();
}

/// Records the logical size of the settings dialog; every other field is kept.
pub fn save_settings_size_to_config(cfg: &mut Config, w: u32, h: u32)
    ensures
        final(cfg).settings_w == Some(w),
        final(cfg).settings_h == Some(h),
        final(cfg).whisper_url == old(cfg).whisper_url,
        final(cfg).ollama_url == old(cfg).ollama_url,
        final(cfg).whisper_model == old(cfg).whisper_model,
        final(cfg).llm_model == old(cfg).llm_model,
        final(cfg).hotkey == old(cfg).hotkey,
        final(cfg).prompt == old(cfg).prompt,
        final(cfg).distill_mode == old(cfg).distill_mode,
        final(cfg).modes == old(cfg).modes,
{
    cfg.settings_w = Some(w);
    cfg.settings_h = Some(h);
}

/// The logical settings-dialog size that a configuration records: each recorded
/// dimension, else its default; both defaults when the configuration could not be read.
pub open spec fn settings_size_spec(cfg: Option<(Option<u32>, Option<u32>)>) -> (u32, u32) {
    match cfg {
        None => (DEFAULT_SETTINGS_W, DEFAULT_SETTINGS_H),
        Some((w, h)) => (
            match w {
                Some(w) => w,
                None => DEFAULT_SETTINGS_W,
            },
            match h {
                Some(h) => h,
                None => DEFAULT_SETTINGS_H,
            },
        ),
    }
}

/// The size fields of a configuration, if one was read.
pub open spec fn size_fields(cfg: Option<&Config>) -> Option<(Option<u32>, Option<u32>)> {
    match cfg {
        None => None,
        Some(c) => Some((c.settings_w, c.settings_h)),
    }
}

/// The logical settings-dialog size recorded by `cfg` (`None`: the file could not
/// be read or parsed).
pub fn settings_size_of(cfg: Option<&Config>) -> (r: (u32, u32))
    ensures
        r == settings_size_spec(size_fields(cfg)),
{
    match cfg {
        None => (DEFAULT_SETTINGS_W, DEFAULT_SETTINGS_H),
        Some(c) => {
            let w = match c.settings_w {
                Some(w) => w,
                None => DEFAULT_SETTINGS_W,
            };
            let h = match c.settings_h {
                Some(h) => h,
                None => DEFAULT_SETTINGS_H,
            };
            (w, h)
        },
    }
}


/// The built-in modes begin with the legacy prompt and hold the passthrough mode,
/// whose prompt is empty.
pub proof fn law_default_modes_shape(legacy_prompt: Seq<char>)
    ensures
        default_modes_spec(legacy_prompt)[0].1 == legacy_prompt,
        has_passthrough(default_modes_spec(legacy_prompt)),
        forall|i: int|
            0 <= i < default_modes_spec(legacy_prompt).len() && (#[trigger] default_modes_spec(
                legacy_prompt,
            )[i]).0 == PASSTHROUGH_MODE_NAME@ ==> default_modes_spec(legacy_prompt)[i].1.len()
                == 0,
{
    let d = default_modes_spec(legacy_prompt);
    assert(d[2].0 == PASSTHROUGH_MODE_NAME@);
    assert forall|i: int|
        0 <= i < d.len() && (#[trigger] d[i]).0 == PASSTHROUGH_MODE_NAME@ implies d[i].1.len()
            == 0 by {
        reveal_strlit("Prompt");
        reveal_strlit("Clean text");
        reveal_strlit("Verbatim");
        if i == 0 {
            assert(d[0].0[0] == 'P');
            assert(PASSTHROUGH_MODE_NAME@[0] == 'V');
        } else if i == 1 {
            assert(d[1].0.len() != PASSTHROUGH_MODE_NAME@.len());
        }
    }
}

/// A loaded configuration always offers the passthrough mode.
pub proof fn law_completed_modes_have_passthrough(
    modes: Seq<(Seq<char>, Seq<char>)>,
    prompt: Seq<char>,
)
    ensures
        has_passthrough(completed_modes(modes, prompt)),
{
    if modes.len() == 0 {
        law_default_modes_shape(prompt);
    } else if !has_passthrough(modes) {
        let c = completed_modes(modes, prompt);
        assert(c[modes.len() as int].0 == PASSTHROUGH_MODE_NAME@);
    }
}

/// Completing the modes keeps the listed ones in order and adds at most the
/// passthrough mode; a list that already has it is left as it is.
pub proof fn law_completed_modes_keep_listed(modes: Seq<(Seq<char>, Seq<char>)>, prompt: Seq<char>)
    requires
        modes.len() > 0,
    ensures
        completed_modes(modes, prompt).take(modes.len() as int) == modes,
        completed_modes(modes, prompt).len() <= modes.len() + 1,
        has_passthrough(modes) ==> completed_modes(modes, prompt) == modes,
{
    let c = completed_modes(modes, prompt);
    if !has_passthrough(modes) {
        assert(c.take(modes.len() as int) =~= modes);
    } else {
        assert(c.take(modes.len() as int) =~= modes);
    }
}

/// Completing the modes a second time changes nothing.
pub proof fn law_completed_modes_idempotent(modes: Seq<(Seq<char>, Seq<char>)>, prompt: Seq<char>)
    ensures
        completed_modes(completed_modes(modes, prompt), prompt) == completed_modes(modes, prompt),
{
    law_completed_modes_have_passthrough(modes, prompt);
    law_default_modes_shape(prompt);
}

/// The size that the settings dialog saves is the size it next loads; a dimension
/// that was never saved, or a file that cannot be read, gives the default.
pub proof fn law_saved_size_is_loaded(w: u32, h: u32)
    ensures
        settings_size_spec(Some((Some(w), Some(h)))) == (w, h),
        settings_size_spec(Some((None, Some(h)))) == (DEFAULT_SETTINGS_W, h),
        settings_size_spec(Some((Some(w), None))) == (w, DEFAULT_SETTINGS_H),
        settings_size_spec(None) == (DEFAULT_SETTINGS_W, DEFAULT_SETTINGS_H),
{
}

} // verus!
