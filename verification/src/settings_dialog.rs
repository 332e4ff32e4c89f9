//! The settings dialog's arithmetic and state: DPI scaling, control layout,
//! message decoding, hotkey capture and the editing of distillation modes.
use vstd::prelude::*;
use crate::config::{ModeConfig, modes_view, copy_modes};
use crate::hotkey::{
    hotkey_parts, key_of, lemma_split_no_sep, lemma_split_prefix, modifier_of, names_modifier,
    parse_hotkey_spec, word_ignore_case, HotkeySpec, KeyCode, Modifier,
};
use crate::text::{split, trim, trim_end, trim_start};
use crate::text::{chars_of, crlf_to_lf, crlf_to_lf_str, lf_to_crlf, lf_to_crlf_str, push_all, same_chars, string_of};

verus! {

/// The hotkey that the dialog's "Default" button restores.
pub const DEFAULT_HOTKEY: &'static str = "Alt+R";

/// Integer division rounding toward zero, as Rust's `/` on signed integers.
pub open spec fn div_trunc(a: int, b: int) -> int {
    let q = abs(a) / abs(b);
    if (a < 0) == (b < 0) {
        q
    } else {
        -q
    }
}

/// The absolute value.
pub open spec fn abs(a: int) -> int {
    if a < 0 {
        -a
    } else {
        a
    }
}

/// `px * dpi / 96` as the dialog computes it in `i32` arithmetic.
pub open spec fn scale_spec(px: i32, dpi: u32) -> int {
    div_trunc(px * (dpi as i32), 96)
}

/// The product `px * dpi` fits in an `i32`.
pub open spec fn scale_fits(px: i32, dpi: u32) -> bool {
    i32::MIN <= px * (dpi as i32) <= i32::MAX
}

/// Whether `scale(px, dpi)` stays within `i32` (callers outside the verified code
/// test this first).
pub fn scale_in_range(px: i32, dpi: u32) -> (r: bool)
    ensures
        r == scale_fits(px, dpi),
{
    let d = dpi as i32;
    let a = px as i64;
    let b = d as i64;
    assert(-0x4000_0000_0000_0000 <= a * b <= 0x4000_0000_0000_0000) by (nonlinear_arith)
        requires
            -0x8000_0000 <= a <= 0x7FFF_FFFF,
            -0x8000_0000 <= b <= 0x7FFF_FFFF,
    ;
    let p = a * b;
    -0x8000_0000 <= p && p <= 0x7FFF_FFFF
}

/// Scales logical pixels `px` to physical pixels at `dpi` (96 is 100 %).
pub fn scale(px: i32, dpi: u32) -> (r: i32)
    requires
        scale_fits(px, dpi),
    ensures
        r == scale_spec(px, dpi),
{
    px * dpi as i32 / 96
}


/// `px * 96 / dpi` (physical to logical pixels) in `i32` arithmetic.
pub open spec fn unscale_spec(px: i32, dpi: u32) -> int {
    div_trunc(px * 96, (dpi as i32) as int)
}

/// `px * 96 / dpi` neither overflows nor divides by zero.
pub open spec fn unscale_fits(px: i32, dpi: u32) -> bool {
    &&& i32::MIN <= px * 96 <= i32::MAX
    &&& dpi as i32 != 0
    &&& !(px * 96 == i32::MIN && dpi as i32 == -1)
}

/// Whether `unscale(px, dpi)` neither overflows nor divides by zero.
pub fn unscale_in_range(px: i32, dpi: u32) -> (r: bool)
    ensures
        r == unscale_fits(px, dpi),
{
    let p = (px as i64) * 96;
    let d = dpi as i32;
    -0x8000_0000 <= p && p <= 0x7FFF_FFFF && d != 0 && !(p == -0x8000_0000 && d == -1)
}

/// Converts physical pixels `px` at `dpi` back to logical pixels.
pub fn unscale(px: i32, dpi: u32) -> (r: i32)
    requires
        unscale_fits(px, dpi),
    ensures
        r == unscale_spec(px, dpi),
{
    let d = dpi as i32;
    let p = px * 96;
    // Rust's `p / d`, worked out on non-negative operands.
    let pa: i64 = if p < 0 {
        -(p as i64)
    } else {
        p as i64
    };
    let da: i64 = if d < 0 {
        -(d as i64)
    } else {
        d as i64
    };
    let q: i64 = pa / da;
    let r: i64 = if (p < 0) == (d < 0) {
        q
    } else {
        -q
    };
    proof {
        assert(0 <= q <= pa) by (nonlinear_arith)
            requires
                pa >= 0,
                da >= 1,
                q == pa / da,
        ;
        assert(da == 1 ==> q == pa) by (nonlinear_arith)
            requires
                pa >= 0,
                q == pa / da,
        ;
        assert(da >= 2 ==> q < 0x8000_0000) by (nonlinear_arith)
            requires
                0 <= pa <= 0x8000_0000,
                da >= 1,
                q == pa / da,
        ;
    }
    r as i32
}

/// The logical size that the dialog records for a physical extent `px` at `dpi`
/// (a negative extent wraps, as `as u32` does).
pub fn logical_size(px: i32, dpi: u32) -> (r: u32)
    requires
        unscale_fits(px, dpi),
    ensures
        r == (unscale_spec(px, dpi) as i32) as u32,
{
    unscale(px, dpi) as u32
}

/// Scaling at 96 DPI changes nothing.
pub proof fn law_scale_at_96_is_identity(px: i32)
    requires
        scale_fits(px, 96),
    ensures
        scale_spec(px, 96) == px,
{
    assert(px * (96u32 as i32) == px * 96);
    let a = abs(px as int);
    assert(abs(px * 96) == a * 96);
    assert((a * 96) / 96 == a) by (nonlinear_arith);
}

/// Converting a logical size to physical pixels and back gives it again, where the
/// physical size is exact (`px * dpi` a multiple of 96).
pub proof fn law_unscale_undoes_scale(px: i32, dpi: u32)
    requires
        px >= 0,
        0 < dpi <= i32::MAX,
        scale_fits(px, dpi),
        (px * dpi) % 96 == 0,
    ensures
        unscale_fits(scale_spec(px, dpi) as i32, dpi),
        unscale_spec(scale_spec(px, dpi) as i32, dpi) == px,
{
    let d = dpi as int;
    assert(dpi as i32 == d);
    let t = px * d;
    let k = t / 96;
    assert(k * 96 == t) by (nonlinear_arith)
        requires
            t % 96 == 0,
            k == t / 96,
    ;
    assert(0 <= k <= px * d) by (nonlinear_arith)
        requires
            px >= 0,
            d > 0,
            k == (px * d) / 96,
    ;
    assert(scale_spec(px, dpi) == k);
    assert((k * 96) / d == px) by (nonlinear_arith)
        requires
            k * 96 == px * d,
            d > 0,
    ;
}

/// A control's position and size in client coordinates.
#[derive(Clone, Copy, Debug, PartialEq, Eq, Structural)]
pub struct Rect {
    pub x: i32,
    pub y: i32,
    pub w: i32,
    pub h: i32,
}

/// Where each control of the settings dialog goes.
#[derive(Clone, Copy, Debug, PartialEq, Eq, Structural)]
pub struct SettingsLayout {
    pub instruction: Rect,
    pub hotkey_label: Rect,
    pub display: Rect,
    pub mode_label: Rect,
    pub combo: Rect,
    pub edit_btn: Rect,
    pub add_btn: Rect,
    pub del_btn: Rect,
    pub endpoint_label: Rect,
    pub endpoint_edit: Rect,
    pub apply_btn: Rect,
    pub default_btn: Rect,
    pub cancel_btn: Rect,
}

/// The layout arithmetic stays within `i32` for this client area and DPI.
pub open spec fn layout_fits(client_w: i32, client_h: i32, dpi: u32) -> bool {
    let s = |px: int| div_trunc(px * (dpi as i32), 96);
    let m = s(12);
    &&& i32::MIN <= 184 * (dpi as i32) <= i32::MAX
    &&& i32::MIN <= client_w - 2 * m <= i32::MAX
    &&& i32::MIN <= client_w - 2 * m - s(100) <= i32::MAX
    &&& i32::MIN <= m + s(100) <= i32::MAX
    &&& i32::MIN <= m + s(180) <= i32::MAX
    &&& i32::MIN <= m + s(152) <= i32::MAX
    &&& i32::MIN <= client_h - m <= i32::MAX
    &&& i32::MIN <= client_h - m - s(26) <= i32::MAX
}

/// Whether `layout_settings(client_w, client_h, dpi)` stays within `i32`.
pub fn layout_in_range(client_w: i32, client_h: i32, dpi: u32) -> (r: bool)
    ensures
        r == layout_fits(client_w, client_h, dpi),
{
    let d = dpi as i32;
    let d64 = d as i64;
    if !(-0x8000_0000 <= 184 * d64 && 184 * d64 <= 0x7FFF_FFFF) {
        return false;
    }
    proof {
        lemma_scale_bounded(12, d as int);
        lemma_scale_bounded(26, d as int);
        lemma_scale_bounded(100, d as int);
        lemma_scale_bounded(152, d as int);
        lemma_scale_bounded(180, d as int);
    }
    let m = scale(12, dpi) as i64;
    let s100 = scale(100, dpi) as i64;
    let s152 = scale(152, dpi) as i64;
    let s180 = scale(180, dpi) as i64;
    let btn_h = scale(26, dpi) as i64;
    let cw = client_w as i64 - 2 * m;
    let lo: i64 = -0x8000_0000;
    let hi: i64 = 0x7FFF_FFFF;
    lo <= cw && cw <= hi && lo <= cw - s100 && cw - s100 <= hi && lo <= m + s100 && m + s100 <= hi
        && lo <= m + s180 && m + s180 <= hi && lo <= m + s152 && m + s152 <= hi
        && lo <= client_h as i64 - m && client_h as i64 - m <= hi && lo <= client_h as i64 - m
        - btn_h && client_h as i64 - m - btn_h <= hi
}

/// A rectangle from integers that are known to fit.
pub open spec fn rect(x: int, y: int, w: int, h: int) -> Rect {
    Rect { x: x as i32, y: y as i32, w: w as i32, h: h as i32 }
}

/// The settings dialog's layout for a client area of `client_w` by `client_h`
/// physical pixels at `dpi`: a 12-pixel margin, labels and the hotkey display
/// stacked at the top, the mode buttons in a row, the LLM endpoint's label and
/// edit box side by side below them, the Apply/Default/Cancel row at the bottom (all sizes in logical pixels, scaled).
pub open spec fn layout_spec(client_w: i32, client_h: i32, dpi: u32) -> SettingsLayout {
    let s = |px: int| div_trunc(px * (dpi as i32), 96);
    let m = s(12);
    let cw = client_w - 2 * m;
    let btn_h = s(26);
    let btn_y = client_h - m - btn_h;
    SettingsLayout {
        instruction: rect(m, s(12), cw, s(18)),
        hotkey_label: rect(m, s(36), cw, s(18)),
        display: rect(m, s(56), cw, s(26)),
        mode_label: rect(m, s(98), cw, s(18)),
        combo: rect(m, s(118), cw, s(120)),
        edit_btn: rect(m, s(148), s(68), btn_h),
        add_btn: rect(m + s(76), s(148), s(68), btn_h),
        del_btn: rect(m + s(152), s(148), s(68), btn_h),
        endpoint_label: rect(m, s(184), s(96), s(18)),
        endpoint_edit: rect(m + s(100), s(180), cw - s(100), s(24)),
        apply_btn: rect(m, btn_y, s(80), btn_h),
        default_btn: rect(m + s(90), btn_y, s(80), btn_h),
        cancel_btn: rect(m + s(180), btn_y, s(80), btn_h),
    }
}

proof fn lemma_scale_bounded(c: int, d: int)
    requires
        0 <= c <= 184,
        i32::MIN <= 184 * d <= i32::MAX,
    ensures
        i32::MIN <= c * d <= i32::MAX,
        i32::MIN <= div_trunc(c * d, 96) <= i32::MAX,
        (d >= 0 ==> 0 <= div_trunc(c * d, 96) <= div_trunc(184 * d, 96)),
        (d < 0 ==> div_trunc(184 * d, 96) <= div_trunc(c * d, 96) <= 0),
{
    if d >= 0 {
        assert(0 <= c * d <= 184 * d) by (nonlinear_arith)
            requires
                0 <= c <= 184,
                d >= 0,
        ;
        assert((c * d) / 96 <= (184 * d) / 96) by (nonlinear_arith)
            requires
                0 <= c * d <= 184 * d,
        ;
    } else {
        assert(184 * d <= c * d <= 0) by (nonlinear_arith)
            requires
                0 <= c <= 184,
                d < 0,
        ;
        assert((-(c * d)) / 96 <= (-(184 * d)) / 96) by (nonlinear_arith)
            requires
                0 <= -(c * d) <= -(184 * d),
        ;
    }
}

/// Places the settings dialog's controls (see `layout_spec`).
pub fn layout_settings(client_w: i32, client_h: i32, dpi: u32) -> (r: SettingsLayout)
    requires
        layout_fits(client_w, client_h, dpi),
    ensures
        r == layout_spec(client_w, client_h, dpi),
{
    let ghost d = dpi as i32;
    proof {
        lemma_scale_bounded(12, d as int);
        lemma_scale_bounded(18, d as int);
        lemma_scale_bounded(26, d as int);
        lemma_scale_bounded(36, d as int);
        lemma_scale_bounded(56, d as int);
        lemma_scale_bounded(68, d as int);
        lemma_scale_bounded(76, d as int);
        lemma_scale_bounded(80, d as int);
        lemma_scale_bounded(90, d as int);
        lemma_scale_bounded(98, d as int);
        lemma_scale_bounded(118, d as int);
        lemma_scale_bounded(120, d as int);
        lemma_scale_bounded(148, d as int);
        lemma_scale_bounded(152, d as int);
        lemma_scale_bounded(180, d as int);
        lemma_scale_bounded(184, d as int);
        lemma_scale_bounded(24, d as int);
        lemma_scale_bounded(96, d as int);
        lemma_scale_bounded(100, d as int);
    }
    let m = scale(12, dpi);
    let cw = client_w - 2 * m;
    let btn_h = scale(26, dpi);
    let btn_y = client_h - m - btn_h;
    let s18 = scale(18, dpi);
    let s68 = scale(68, dpi);
    let s80 = scale(80, dpi);
    let s148 = scale(148, dpi);
    let s100 = scale(100, dpi);
    let r = SettingsLayout {
        instruction: Rect { x: m, y: scale(12, dpi), w: cw, h: s18 },
        hotkey_label: Rect { x: m, y: scale(36, dpi), w: cw, h: s18 },
        display: Rect { x: m, y: scale(56, dpi), w: cw, h: scale(26, dpi) },
        mode_label: Rect { x: m, y: scale(98, dpi), w: cw, h: s18 },
        combo: Rect { x: m, y: scale(118, dpi), w: cw, h: scale(120, dpi) },
        edit_btn: Rect { x: m, y: s148, w: s68, h: btn_h },
        add_btn: Rect { x: m + scale(76, dpi), y: s148, w: s68, h: btn_h },
        del_btn: Rect { x: m + scale(152, dpi), y: s148, w: s68, h: btn_h },
        endpoint_label: Rect { x: m, y: scale(184, dpi), w: scale(96, dpi), h: s18 },
        endpoint_edit: Rect { x: m + s100, y: scale(180, dpi), w: cw - s100, h: scale(24, dpi) },
        apply_btn: Rect { x: m, y: btn_y, w: s80, h: btn_h },
        default_btn: Rect { x: m + scale(90, dpi), y: btn_y, w: s80, h: btn_h },
        cancel_btn: Rect { x: m + scale(180, dpi), y: btn_y, w: s80, h: btn_h },
    };
    r
}

/// The smallest physical size the dialog may be resized to at `dpi`.
pub fn min_track_size(dpi: u32) -> (r: (i32, i32))
    requires
        scale_fits(330, dpi),
    ensures
        r.0 == scale_spec(330, dpi),
        r.1 == scale_spec(270, dpi),
{
    let ghost d = (dpi as i32) as int;
    assert(i32::MIN <= 270 * d <= i32::MAX) by (nonlinear_arith)
        requires
            i32::MIN <= 330 * d <= i32::MAX,
    ;
    (scale(330, dpi), scale(270, dpi))
}



/// The control id and notification code of a `WM_COMMAND` word parameter.
pub fn command_parts(wp: usize) -> (r: (i32, u32))
    ensures
        r.0 == wp % 0x10000,
        r.1 == (wp / 0x10000) % 0x10000,
{
    let id = wp & 0xFFFF;
    let notif = (wp >> 16) & 0xFFFF;
    assert(wp & 0xFFFF == wp % 0x10000) by (bit_vector);
    assert((wp >> 16) & 0xFFFF == (wp / 0x10000) % 0x10000) by (bit_vector);
    (id as i32, notif as u32)
}

/// The client width and height packed into a `WM_SIZE` long parameter.
pub fn size_parts(lp: isize) -> (r: (i32, i32))
    ensures
        r.0 == (lp as usize) % 0x10000,
        r.1 == ((lp as usize) / 0x10000) % 0x10000,
{
    let u = lp as usize;
    let w = u & 0xFFFF;
    let h = (u >> 16) & 0xFFFF;
    assert(u & 0xFFFF == u % 0x10000) by (bit_vector);
    assert((u >> 16) & 0xFFFF == (u / 0x10000) % 0x10000) by (bit_vector);
    (w as i32, h as i32)
}

/// The new DPI carried by a `WM_DPICHANGED` word parameter.
pub fn dpi_from_wparam(wp: usize) -> (r: u32)
    ensures
        r == wp % 0x10000,
{
    assert(wp & 0xFFFF == wp % 0x10000) by (bit_vector);
    (wp & 0xFFFF) as u32
}

/// Virtual keys of the modifier keys themselves, which never complete a hotkey.
pub open spec fn is_modifier_vkey_spec(vk: usize) -> bool {
    vk == 0x10 || vk == 0x11 || vk == 0x12 || vk == 0x5B || vk == 0x5C
}

/// Whether `vk` is Shift, Ctrl, Alt or a Windows key.
pub fn is_modifier_vkey(vk: usize) -> (r: bool)
    ensures
        r == is_modifier_vkey_spec(vk),
{
    vk == 0x10 || vk == 0x11 || vk == 0x12 || vk == 0x5B || vk == 0x5C
}

/// The hotkey text for a key press: the held modifiers in the order
/// Ctrl, Alt, Shift, then the key's name, joined by `+`.
pub open spec fn captured_hotkey(ctrl: bool, alt: bool, shift: bool, key: Seq<char>) -> Seq<char> {
    (if ctrl {
        "Ctrl+"@
    } else {
        Seq::<char>::empty()
    }) + (if alt {
        "Alt+"@
    } else {
        Seq::<char>::empty()
    }) + (if shift {
        "Shift+"@
    } else {
        Seq::<char>::empty()
    }) + key
}

/// The index of the first mode named `name`, if any.
pub open spec fn first_mode(modes: Seq<(Seq<char>, Seq<char>)>, name: Seq<char>) -> Option<int> {
    if exists|i: int| 0 <= i < modes.len() && (#[trigger] modes[i]).0 == name {
        Some(
            choose|i: int|
                0 <= i < modes.len() && (#[trigger] modes[i]).0 == name && forall|j: int|
                    0 <= j < i ==> (#[trigger] modes[j]).0 != name,
        )
    } else {
        None
    }
}

/// Where some mode has the name, `first_mode` finds the first such mode.
pub proof fn lemma_first_mode_found(modes: Seq<(Seq<char>, Seq<char>)>, name: Seq<char>, k: int)
    requires
        0 <= k < modes.len(),
        modes[k].0 == name,
    ensures
        first_mode(modes, name) matches Some(c) && 0 <= c <= k && modes[c].0 == name && forall|
            j: int,
        |
            0 <= j < c ==> (#[trigger] modes[j]).0 != name,
    decreases k,
{
    if exists|j: int| 0 <= j < k && (#[trigger] modes[j]).0 == name {
        let j = choose|j: int| 0 <= j < k && (#[trigger] modes[j]).0 == name;
        lemma_first_mode_found(modes, name, j);
    } else {
        assert(forall|j: int| 0 <= j < k ==> (#[trigger] modes[j]).0 != name);
        let c = first_mode(modes, name).unwrap();
        if c > k {
            assert(modes[k].0 != name);
        }
    }
}

/// The first mode named `name`, or 0 where none is.
pub open spec fn mode_position(modes: Seq<(Seq<char>, Seq<char>)>, name: Seq<char>) -> int {
    match first_mode(modes, name) {
        Some(i) => i,
        None => 0,
    }
}

/// The index of the first mode named `name`, if any.
pub fn find_mode(modes: &[ModeConfig], name: &str) -> (r: Option<usize>)
    ensures
        match r {
            Some(i) => i < modes@.len() && modes@[i as int].name@ == name@ && first_mode(
                modes_view(modes@),
                name@,
            ) == Some(i as int),
            None => first_mode(modes_view(modes@), name@) is None,
        },
{
    let ghost mv = modes_view(modes@);
    let target = chars_of(name);
    let mut i: usize = 0;
    while i < modes.len()
        invariant
            mv == modes_view(modes@),
            target@ == name@,
            i <= modes@.len(),
            forall|j: int| 0 <= j < i ==> (#[trigger] mv[j]).0 != name@,
        decreases modes.len() - i,
    {
        let n = chars_of(modes[i].name.as_str());
        assert(mv[i as int].0 == modes@[i as int].name@);
        if same_chars(n.as_slice(), target.as_slice()) {
            proof {
                let k = i as int;
                assert(0 <= k < mv.len() && mv[k].0 == name@);
                let c = first_mode(mv, name@).unwrap();
                assert(0 <= c < mv.len() && mv[c].0 == name@ && forall|j: int|
                    0 <= j < c ==> (#[trigger] mv[j]).0 != name@);
                if c < k {
                } else if k < c {
                    assert(mv[k].0 != name@);
                }
            }
            return Some(i);
        }
        i = i + 1;
    }
    None
}

/// The index of the first mode named `name`, or 0.
pub fn position_of_mode(modes: &[ModeConfig], name: &str) -> (r: usize)
    ensures
        r == mode_position(modes_view(modes@), name@),
{
    match find_mode(modes, name) {
        Some(i) => i,
        None => 0,
    }
}

/// The dialog's working state: the hotkey text shown, the selected mode's name,
/// the list of modes being edited, and the LLM endpoint's URL.
pub struct SettingsState {
    pub pending_hotkey: String,
    pub pending_mode: String,
    pub modes: Vec<ModeConfig>,
    pub pending_url: String,
}

/// What the dialog hands back when the user applies it.
pub struct SettingsResult {
    pub hotkey: String,
    pub mode_name: String,
    pub modes: Vec<ModeConfig>,
    pub ollama_url: String,
}

impl View for SettingsState {
    type V = (Seq<char>, Seq<char>, Seq<(Seq<char>, Seq<char>)>, Seq<char>);

    open spec fn view(&self) -> Self::V {
        (self.pending_hotkey@, self.pending_mode@, modes_view(self.modes@), self.pending_url@)
    }
}

impl View for SettingsResult {
    type V = (Seq<char>, Seq<char>, Seq<(Seq<char>, Seq<char>)>, Seq<char>);

    open spec fn view(&self) -> Self::V {
        (self.hotkey@, self.mode_name@, modes_view(self.modes@), self.ollama_url@)
    }
}

/// Takes the result that an applied dialog left in `slot`, leaving it empty.
pub fn take_result(slot: &mut Option<SettingsResult>) -> (r: Option<SettingsResult>)
    ensures
        r == *old(slot),
        *final(slot) is None,
{
    slot.take()
}

impl SettingsState {
    /// The state of a freshly opened dialog.
    pub fn new(current_hotkey: &str, modes: Vec<ModeConfig>, active_mode: &str, ollama_url: &str) -> (r:
        Self)
        ensures
            r@ == (current_hotkey@, active_mode@, modes_view(modes@), ollama_url@),
    {
        SettingsState {
            pending_hotkey: current_hotkey.to_owned(),
            pending_mode: active_mode.to_owned(),
            modes,
            pending_url: ollama_url.to_owned(),
        }
    }

    /// Records the LLM endpoint's URL as typed into the dialog.
    pub fn set_ollama_url(&mut self, url: &str)
        ensures
            final(self)@ == (old(self)@.0, old(self)@.1, old(self)@.2, url@),
    {
        self.pending_url = url.to_owned();
    }

    /// The index to show as selected in the mode list: the first mode named as the
    /// selected mode, or the first mode.
    pub fn selection(&self) -> (r: usize)
        ensures
            r == mode_position(self@.2, self@.1),
    {
        position_of_mode(self.modes.as_slice(), self.pending_mode.as_str())
    }

    /// Records a key press with the given modifiers held; returns the new hotkey text.
    pub fn capture_hotkey(&mut self, ctrl: bool, alt: bool, shift: bool, key_name: &str) -> (r:
        String)
        ensures
            r@ == captured_hotkey(ctrl, alt, shift, key_name@),
            final(self)@ == (r@, old(self)@.1, old(self)@.2, old(self)@.3),
    {
        let mut v: Vec<char> = Vec::new();
        if ctrl {
            let p = chars_of("Ctrl+");
            push_all(&mut v, p.as_slice());
        }
        if alt {
            let p = chars_of("Alt+");
            push_all(&mut v, p.as_slice());
        }
        if shift {
            let p = chars_of("Shift+");
            push_all(&mut v, p.as_slice());
        }
        let k = chars_of(key_name);
        push_all(&mut v, k.as_slice());
        assert(v@ =~= captured_hotkey(ctrl, alt, shift, key_name@));
        let text = string_of(v.as_slice());
        self.pending_hotkey = text.clone();
        text
    }

    /// Restores the default hotkey text.
    pub fn reset_hotkey(&mut self)
        ensures
            final(self)@ == (DEFAULT_HOTKEY@, old(self)@.1, old(self)@.2, old(self)@.3),
    {
        self.pending_hotkey = DEFAULT_HOTKEY.to_owned();
    }

    /// Selects the mode at `sel` in the list; an index past the end (such as the
    /// list's "no selection") changes nothing.
    pub fn select_mode(&mut self, sel: usize)
        ensures
            final(self)@ == if sel < old(self)@.2.len() {
                (old(self)@.0, old(self)@.2[sel as int].0, old(self)@.2, old(self)@.3)
            } else {
                old(self)@
            },
    {
        if sel < self.modes.len() {
            let name = self.modes[sel].name.clone();
            self.pending_mode = name;
        }
    }

    /// Deletes the selected mode unless it is the only one, then selects the mode
    /// before it (or the first); returns the new selection.
    pub fn delete_mode(&mut self, sel: usize) -> (r: Option<usize>)
        requires
            old(self)@.2.len() > 1 ==> sel < old(self)@.2.len(),
        ensures
            old(self)@.2.len() <= 1 ==> r is None && final(self)@ == old(self)@,
            old(self)@.2.len() > 1 ==> {
                let modes = old(self)@.2.remove(sel as int);
                let new_sel = if sel > 0 {
                    sel - 1
                } else {
                    0
                };
                &&& r == Some(new_sel as usize)
                &&& final(self)@ == (old(self)@.0, modes[new_sel].0, modes, old(self)@.3)
            },
    {
        if self.modes.len() <= 1 {
            return None;
        }
        let ghost before = self.modes@;
        let _removed = self.modes.remove(sel);
        assert(modes_view(self.modes@) =~= modes_view(before).remove(sel as int));
        let new_sel = if sel > 0 {
            sel - 1
        } else {
            0
        };
        let name = self.modes[new_sel].name.clone();
        self.pending_mode = name;
        Some(new_sel)
    }

    /// The name and prompt to show when editing the mode at `idx` (the prompt with
    /// `\r\n` line breaks); empty texts for an index past the end.
    pub fn edit_fields(&self, idx: usize) -> (r: (String, String))
        ensures
            idx < self@.2.len() ==> r.0@ == self@.2[idx as int].0 && r.1@ == lf_to_crlf(
                self@.2[idx as int].1,
            ),
            idx >= self@.2.len() ==> r.0@ == Seq::<char>::empty() && r.1@ == Seq::<char>::empty(),
    {
        if idx < self.modes.len() {
            let name = self.modes[idx].name.clone();
            let prompt = lf_to_crlf_str(self.modes[idx].prompt.as_str());
            (name, prompt)
        } else {
            (String::new(), String::new())
        }
    }

    /// Saves the edit dialog's fields into the mode at `idx`, or into a new mode
    /// where `idx` is `usize::MAX`; the prompt's `\r\n` become `\n`. An empty name
    /// saves nothing (false). A saved name becomes the selected mode.
    pub fn save_edit(&mut self, idx: usize, name: &str, prompt_text: &str) -> (r: bool)
        ensures
            r == (name@.len() > 0),
            !r ==> final(self)@ == old(self)@,
            r ==> final(self)@ == (
                old(self)@.0,
                name@,
                if idx == usize::MAX {
                    old(self)@.2.push((name@, crlf_to_lf(prompt_text@)))
                } else if idx < old(self)@.2.len() {
                    old(self)@.2.update(idx as int, (name@, crlf_to_lf(prompt_text@)))
                } else {
                    old(self)@.2
                },
                old(self)@.3,
            ),
    {
        let prompt = crlf_to_lf_str(prompt_text);
        if name.is_empty() {
            return false;
        }
        let ghost before = self.modes@;
        let m = ModeConfig { name: name.to_owned(), prompt };
        if idx == usize::MAX {
            self.modes.push(m);
            assert(modes_view(self.modes@) =~= modes_view(before).push(
                (name@, crlf_to_lf(prompt_text@)),
            ));
        } else if idx < self.modes.len() {
            self.modes.set(idx, m);
            assert(modes_view(self.modes@) =~= modes_view(before).update(
                idx as int,
                (name@, crlf_to_lf(prompt_text@)),
            ));
        }
        self.pending_mode = name.to_owned();
        true
    }

    /// The result of applying the dialog: the pending hotkey, selected mode, modes
    /// and LLM endpoint.
    pub fn apply(&self) -> (r: SettingsResult)
        ensures
            r@ == self@,
    {
        SettingsResult {
            hotkey: self.pending_hotkey.clone(),
            mode_name: self.pending_mode.clone(),
            modes: copy_modes(self.modes.as_slice()),
            ollama_url: self.pending_url.clone(),
        }
    }
}


/// At 200 % (192 DPI) every logical size doubles.
pub proof fn law_scale_at_192_doubles(px: i32)
    requires
        scale_fits(px, 192),
    ensures
        scale_spec(px, 192) == 2 * px,
{
    assert(px * (192u32 as i32) == px * 192);
    let a = abs(px as int);
    assert(abs(px * 192) == a * 192);
    assert((a * 192) / 96 == 2 * a) by (nonlinear_arith);
}

/// Deleting a mode never leaves the dialog without one.
pub proof fn law_delete_keeps_a_mode(
    modes: Seq<(Seq<char>, Seq<char>)>,
    sel: int,
)
    requires
        modes.len() > 1,
        0 <= sel < modes.len(),
    ensures
        modes.remove(sel).len() >= 1,
        0 <= (if sel > 0 { sel - 1 } else { 0 }) < modes.remove(sel).len(),
{
}

/// After a mode is saved under a name, as a new mode or over an existing one, the
/// list selects a mode of that name.
pub proof fn law_saved_mode_is_selected(
    modes: Seq<(Seq<char>, Seq<char>)>,
    idx: int,
    name: Seq<char>,
    prompt: Seq<char>,
)
    requires
        idx == usize::MAX || 0 <= idx < modes.len(),
    ensures
        ({
            let after = if idx == usize::MAX {
                modes.push((name, prompt))
            } else {
                modes.update(idx, (name, prompt))
            };
            &&& 0 <= mode_position(after, name) < after.len()
            &&& after[mode_position(after, name)].0 == name
        }),
{
    let after = if idx == usize::MAX {
        modes.push((name, prompt))
    } else {
        modes.update(idx, (name, prompt))
    };
    let k = if idx == usize::MAX {
        modes.len() as int
    } else {
        idx
    };
    assert(after[k].0 == name);
    lemma_first_mode_found(after, name, k);
}


/// Opening a mode in the edit dialog (`edit_fields`) and saving the shown fields
/// unchanged (`save_edit`) leaves the list of modes as it was.
pub proof fn law_unchanged_edit_keeps_modes(modes: Seq<(Seq<char>, Seq<char>)>, idx: int)
    requires
        0 <= idx < modes.len(),
    ensures
        modes.update(idx, (modes[idx].0, crlf_to_lf(lf_to_crlf(modes[idx].1)))) == modes,
{
    crate::text::law_line_breaks_round_trip(modes[idx].1);
    assert(modes.update(idx, (modes[idx].0, crlf_to_lf(lf_to_crlf(modes[idx].1)))) =~= modes);
}

/// The text captured from a key press names exactly the held modifiers and the
/// pressed key: parsing it gives back Ctrl, Alt and Shift as they were held, no
/// Meta, and the key, for every key name that the hotkey grammar accepts.
pub proof fn law_captured_hotkey_parses(ctrl: bool, alt: bool, shift: bool, key: Seq<char>)
    requires
        key_of(key) is Some,
    ensures
        parse_hotkey_spec(captured_hotkey(ctrl, alt, shift, key)) == Some(
            HotkeySpec { ctrl, alt, shift, meta: false, key: key_of(key).unwrap() },
        ),
{
    reveal_strlit("Ctrl+");
    reveal_strlit("Alt+");
    reveal_strlit("Shift+");
    reveal_strlit("ctrl");
    reveal_strlit("control");
    reveal_strlit("alt");
    reveal_strlit("shift");
    reveal_strlit("meta");
    reveal_strlit("win");
    let c = seq!['C', 't', 'r', 'l'];
    let a = seq!['A', 'l', 't'];
    let sh = seq!['S', 'h', 'i', 'f', 't'];
    assert(trim(c) == c) by {
        assert(trim_start(c) == c);
        assert(trim_end(c) == c);
    }
    assert(trim(a) == a) by {
        assert(trim_start(a) == a);
        assert(trim_end(a) == a);
    }
    assert(trim(sh) == sh) by {
        assert(trim_start(sh) == sh);
        assert(trim_end(sh) == sh);
    }
    assert(modifier_of(c) == Some(Modifier::Ctrl)) by {
        assert(word_ignore_case(c, "ctrl"@));
    }
    assert(modifier_of(a) == Some(Modifier::Alt)) by {
        assert(!word_ignore_case(a, "ctrl"@));
        assert(!word_ignore_case(a, "control"@));
        assert(word_ignore_case(a, "alt"@));
    }
    assert(modifier_of(sh) == Some(Modifier::Shift)) by {
        assert(!word_ignore_case(sh, "ctrl"@));
        assert(!word_ignore_case(sh, "control"@));
        assert(!word_ignore_case(sh, "alt"@));
        assert(word_ignore_case(sh, "shift"@));
    }
    crate::hotkey::lemma_parse_key_alone(key);
    let t3 = if shift {
        sh + seq!['+'] + key
    } else {
        key
    };
    if shift {
        crate::hotkey::lemma_parse_after_modifier(sh, Modifier::Shift, key);
    }
    let t2 = if alt {
        a + seq!['+'] + t3
    } else {
        t3
    };
    if alt {
        crate::hotkey::lemma_parse_after_modifier(a, Modifier::Alt, t3);
    }
    let t1 = if ctrl {
        c + seq!['+'] + t2
    } else {
        t2
    };
    if ctrl {
        crate::hotkey::lemma_parse_after_modifier(c, Modifier::Ctrl, t2);
    }
    assert("Ctrl+"@ =~= c + seq!['+']);
    assert("Alt+"@ =~= a + seq!['+']);
    assert("Shift+"@ =~= sh + seq!['+']);
    assert(captured_hotkey(ctrl, alt, shift, key) =~= t1);
}

/// The bottom buttons Apply, Default and Cancel stand in one row, left to right,
/// without overlapping, and so do the mode buttons Edit, Add and Delete, at every
/// DPI for which the layout is computed.
pub proof fn law_buttons_in_order(client_w: i32, client_h: i32, dpi: u32)
    requires
        layout_fits(client_w, client_h, dpi),
        dpi <= i32::MAX,
    ensures
        ({
            let l = layout_spec(client_w, client_h, dpi);
            &&& l.apply_btn.x + l.apply_btn.w <= l.default_btn.x
            &&& l.default_btn.x + l.default_btn.w <= l.cancel_btn.x
            &&& l.apply_btn.y == l.default_btn.y && l.default_btn.y == l.cancel_btn.y
            &&& l.edit_btn.x + l.edit_btn.w <= l.add_btn.x
            &&& l.add_btn.x + l.add_btn.w <= l.del_btn.x
            &&& l.edit_btn.y == l.add_btn.y && l.add_btn.y == l.del_btn.y
        }),
{
    let d = (dpi as i32) as int;
    assert(d == dpi);
    lemma_scale_bounded(12, d);
    lemma_scale_bounded(26, d);
    lemma_scale_bounded(68, d);
    lemma_scale_bounded(76, d);
    lemma_scale_bounded(80, d);
    lemma_scale_bounded(90, d);
    lemma_scale_bounded(148, d);
    lemma_scale_bounded(152, d);
    lemma_scale_bounded(180, d);
    assert((80 * d) / 96 <= (90 * d) / 96 && (90 * d) / 96 + (80 * d) / 96 <= (180 * d) / 96
        && (68 * d) / 96 <= (76 * d) / 96 && (76 * d) / 96 + (68 * d) / 96 <= (152 * d) / 96)
        by (nonlinear_arith)
        requires
            d >= 0,
    {
        let q80 = (80 * d) / 96;
        let q90 = (90 * d) / 96;
        let q68 = (68 * d) / 96;
        let q76 = (76 * d) / 96;
        assert(q80 * 96 <= 80 * d && q90 * 96 <= 90 * d);
        assert(q68 * 96 <= 68 * d && q76 * 96 <= 76 * d);
        assert((q80 + q90) * 96 <= 180 * d);
        assert((q68 + q76) * 96 <= 152 * d);
    }
}

/// The default hotkey is Alt with the R key.
pub proof fn law_default_hotkey_parses()
    ensures
        parse_hotkey_spec(DEFAULT_HOTKEY@) == Some(
            HotkeySpec {
                ctrl: false,
                alt: true,
                shift: false,
                meta: false,
                key: KeyCode::Letter(17),
            },
        ),
{
    reveal_strlit("Alt+R");
    reveal_strlit("ctrl");
    reveal_strlit("control");
    reveal_strlit("alt");
    let a = seq!['A', 'l', 't'];
    let k = seq!['R'];
    assert(DEFAULT_HOTKEY@ =~= a + seq!['+'] + k);
    lemma_split_prefix(a, k, '+');
    lemma_split_no_sep(k, '+');
    let parts = hotkey_parts(DEFAULT_HOTKEY@);
    assert(split(DEFAULT_HOTKEY@, '+') =~= seq![a, k]);
    assert(trim(a) == a) by {
        assert(trim_start(a) == a);
        assert(trim_end(a) == a);
    }
    assert(trim(k) == k) by {
        assert(trim_start(k) == k);
        assert(trim_end(k) == k);
    }
    assert(parts =~= seq![a, k]);
    assert(modifier_of(a) == Some(Modifier::Alt)) by {
        assert(!word_ignore_case(a, "ctrl"@));
        assert(!word_ignore_case(a, "control"@));
        assert(word_ignore_case(a, "alt"@));
    }
    assert(key_of(k) == Some(KeyCode::Letter(17)));
    assert(names_modifier(parts, Modifier::Alt));
    assert(!names_modifier(parts, Modifier::Ctrl));
    assert(!names_modifier(parts, Modifier::Shift));
    assert(!names_modifier(parts, Modifier::Meta));
}

} // verus!
