//! UTF-16 text for the Windows shell: NUL-terminated strings and the fixed-size,
//! truncated text fields of a tray balloon.
use vstd::prelude::*;
use crate::text::chars_of;

verus! {

/// The UTF-16 code units of one character: itself below U+10000, else a
/// surrogate pair.
pub open spec fn utf16_units(c: char) -> Seq<u16> {
    let u = c as u32;
    if u < 0x10000 {
        seq![u as u16]
    } else {
        let v = u - 0x10000;
        seq![(0xD800 + v / 0x400) as u16, (0xDC00 + v % 0x400) as u16]
    }
}

/// The UTF-16 encoding of a text (`str::encode_utf16`).
pub open spec fn utf16(s: Seq<char>) -> Seq<u16>
    decreases s.len(),
{
    if s.len() == 0 {
        Seq::<u16>::empty()
    } else {
        utf16(s.drop_last()) + utf16_units(s.last())
    }
}

/// The UTF-16 encoding of `s`.
pub fn encode_utf16(s: &str) -> (r: Vec<u16>)
    ensures
        r@ == utf16(s@),
{
    let c = chars_of(s);
    let mut r: Vec<u16> = Vec::new();
    let mut i: usize = 0;
    assert(c@.take(0) =~= Seq::<char>::empty());
    while i < c.len()
        invariant
            i <= c@.len(),
            r@ == utf16(c@.take(i as int)),
        decreases c.len() - i,
    {
        let ch = c[i];
        let u = ch as u32;
        proof {
            assert(c@.take(i as int + 1).drop_last() =~= c@.take(i as int));
        }
        if u < 0x10000 {
            r.push(u as u16);
        } else {
            let v = u - 0x10000;
            r.push((0xD800 + v / 0x400) as u16);
            r.push((0xDC00 + v % 0x400) as u16);
        }
        assert(r@ =~= utf16(c@.take(i as int + 1)));
        i = i + 1;
    }
    assert(c@.take(c@.len() as int) =~= c@);
    r
}

/// `s` in UTF-16 followed by a NUL, as Windows API calls take text.
pub fn wide(s: &str) -> (r: Vec<u16>)
    ensures
        r@ == utf16(s@).push(0u16),
{
    let mut r = encode_utf16(s);
    r.push(0);
    r
}

/// A text field of `n` UTF-16 units holding as much of `s` as fits before a
/// terminating NUL, the rest zero.
pub open spec fn wide_truncated(s: Seq<char>, n: nat) -> Seq<u16> {
    let e = utf16(s);
    Seq::new(
        n,
        |i: int|
            if i < e.len() && i < n - 1 {
                e[i]
            } else {
                0u16
            },
    )
}

/// The first `n - 1` UTF-16 units of `s` (fewer if `s` is shorter), padded with
/// zeros to `n` units.
pub fn wide_truncate(s: &str, n: usize) -> (r: Vec<u16>)
    requires
        n >= 1,
    ensures
        r@ == wide_truncated(s@, n as nat),
{
    let e = encode_utf16(s);
    let len = if e.len() < n - 1 {
        e.len()
    } else {
        n - 1
    };
    let mut r: Vec<u16> = Vec::new();
    let mut i: usize = 0;
    while i < n
        invariant
            e@ == utf16(s@),
            len <= n - 1,
            len <= e@.len(),
            len == e@.len() || len == n - 1,
            i <= n,
            r@.len() == i,
            forall|k: int| 0 <= k < i ==> r@[k] == wide_truncated(s@, n as nat)[k],
        decreases n - i,
    {
        if i < len {
            r.push(e[i]);
        } else {
            r.push(0);
        }
        i = i + 1;
    }
    assert(r@ =~= wide_truncated(s@, n as nat));
    r
}


/// A truncated field always has its length and ends in a NUL; where the text fits,
/// it holds the whole text.
pub proof fn law_wide_truncated_terminated(s: Seq<char>, n: nat)
    requires
        n >= 1,
    ensures
        wide_truncated(s, n).len() == n,
        wide_truncated(s, n)[n - 1] == 0,
        utf16(s).len() < n ==> wide_truncated(s, n).take(utf16(s).len() as int) == utf16(s),
{
    if utf16(s).len() < n {
        assert(wide_truncated(s, n).take(utf16(s).len() as int) =~= utf16(s));
    }
}

/// Length of a tray balloon's text field, in UTF-16 units.
pub const BALLOON_INFO_LEN: usize = 256;

/// Length of a tray balloon's title field, in UTF-16 units.
pub const BALLOON_TITLE_LEN: usize = 64;

/// The text fields of a tray balloon notification.
pub struct BalloonText {
    pub info: Vec<u16>,
    pub title: Vec<u16>,
}

/// The balloon fields that show `text` under the fixed title.
pub open spec fn balloon_spec(text: Seq<char>) -> (Seq<u16>, Seq<u16>) {
    (wide_truncated(text, BALLOON_INFO_LEN as nat), wide_truncated("Partizan"@, BALLOON_TITLE_LEN as nat))
}

/// The balloon fields that show `text`.
pub fn balloon_fields(text: &str) -> (r: BalloonText)
    ensures
        (r.info@, r.title@) == balloon_spec(text@),
{
    BalloonText {
        info: wide_truncate(text, BALLOON_INFO_LEN),
        title: wide_truncate("Partizan", BALLOON_TITLE_LEN),
    }
}

/// `Shell_NotifyIconW` message that modifies the existing tray icon.
pub const NIM_MODIFY: u32 = 0x0000_0001;

/// Flag saying that the request's balloon fields are valid.
pub const NIF_INFO: u32 = 0x0000_0010;

/// Balloon flag that suppresses the notification sound.
pub const NIIF_NOSOUND: u32 = 0x0000_0010;

/// Id of the application's tray icon (the tray library numbers icons from 1).
pub const TRAY_ICON_ID: u32 = 1;

/// One `Shell_NotifyIconW` call on the tray icon: the message, the window that
/// owns the icon, the icon's id, the valid-field flags, the balloon flags, and the
/// balloon's text and title fields.
pub struct BalloonRequest {
    pub message: u32,
    pub hwnd: isize,
    pub id: u32,
    pub flags: u32,
    pub info_flags: u32,
    pub info: Vec<u16>,
    pub title: Vec<u16>,
}

/// The request is the one that shows `text`, silently, on the icon of `hwnd`.
pub open spec fn is_balloon_request(r: BalloonRequest, hwnd: isize, text: Seq<char>) -> bool {
    &&& r.message == NIM_MODIFY
    &&& r.hwnd == hwnd
    &&& r.id == TRAY_ICON_ID
    &&& r.flags == NIF_INFO
    &&& r.info_flags == NIIF_NOSOUND
    &&& (r.info@, r.title@) == balloon_spec(text)
}

/// The call that shows `text` in a balloon on the tray icon owned by `hwnd`; none
/// while no tray window is known (`hwnd == 0`).
pub fn balloon_request(hwnd: isize, text: &str) -> (r: Option<BalloonRequest>)
    ensures
        (r is None) == (hwnd == 0),
        r matches Some(q) ==> is_balloon_request(q, hwnd, text@),
{
    if hwnd == 0 {
        return None;
    }
    let fields = balloon_fields(text);
    Some(
        BalloonRequest {
            message: NIM_MODIFY,
            hwnd,
            id: TRAY_ICON_ID,
            flags: NIF_INFO,
            info_flags: NIIF_NOSOUND,
            info: fields.info,
            title: fields.title,
        },
    )
}

/// The call that shows `text` on the tray icon of `hwnd` (none without a window).
pub fn show(hwnd: isize, text: &str) -> (r: Option<BalloonRequest>)
    ensures
        (r is None) == (hwnd == 0),
        r matches Some(q) ==> is_balloon_request(q, hwnd, text@),
{
    balloon_request(hwnd, text)
}

/// The call that dismisses the current balloon on the tray icon of `hwnd`: an
/// empty, all-zero text field (none without a window).
pub fn clear(hwnd: isize) -> (r: Option<BalloonRequest>)
    ensures
        (r is None) == (hwnd == 0),
        r matches Some(q) ==> {
            &&& is_balloon_request(q, hwnd, Seq::<char>::empty())
            &&& forall|i: int| 0 <= i < q.info@.len() ==> q.info@[i] == 0
        },
{
    let r = balloon_request(hwnd, "");
    proof {
        reveal_strlit("");
        assert(""@ =~= Seq::<char>::empty());
        assert(utf16(Seq::<char>::empty()).len() == 0);
    }
    r
}

} // verus!
