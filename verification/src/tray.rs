//! The tray icon: a colour for each status, and the round icon's pixels.
use vstd::prelude::*;
use crate::text::{chars_of, same_chars};

verus! {

/// Side of the square tray icon in pixels.
pub const ICON_SIZE: u32 = 32;

/// Pixel `(x, y)` lies in the icon's disc: centre 16, radius 15.
pub open spec fn in_disc(x: int, y: int) -> bool {
    (x - 16) * (x - 16) + (y - 16) * (y - 16) <= 225
}

/// Byte `i` of the icon's RGBA image for colour `(r, g, b)`: pixel `i / 4` in
/// row-major order, opaque colour inside the disc, transparent black outside.
pub open spec fn icon_byte(i: int, r: u8, g: u8, b: u8) -> u8 {
    let p = i / 4;
    let x = p % 32;
    let y = p / 32;
    let c = i % 4;
    if in_disc(x, y) {
        if c == 0 {
            r
        } else if c == 1 {
            g
        } else if c == 2 {
            b
        } else {
            255u8
        }
    } else {
        0u8
    }
}

/// The icon's RGBA image: 32 by 32 pixels, four bytes each.
pub open spec fn icon_rgba_spec(r: u8, g: u8, b: u8) -> Seq<u8> {
    Seq::new(4096, |i: int| icon_byte(i, r, g, b))
}

/// The RGBA pixels of a round icon of colour `(r, g, b)`.
pub fn icon_rgba(r: u8, g: u8, b: u8) -> (v: Vec<u8>)
    ensures
        v@ == icon_rgba_spec(r, g, b),
{
    let mut v: Vec<u8> = Vec::new();
    let mut y: u32 = 0;
    while y < 32
        invariant
            y <= 32,
            v@.len() == 128 * y,
            forall|i: int| 0 <= i < v@.len() ==> v@[i] == icon_byte(i, r, g, b),
        decreases 32 - y,
    {
        let mut x: u32 = 0;
        while x < 32
            invariant
                y < 32,
                x <= 32,
                v@.len() == 128 * y + 4 * x,
                forall|i: int| 0 <= i < v@.len() ==> v@[i] == icon_byte(i, r, g, b),
            decreases 32 - x,
        {
            let dx: i32 = x as i32 - 16;
            let dy: i32 = y as i32 - 16;
            assert(0 <= dx * dx <= 256) by (nonlinear_arith)
                requires
                    -16 <= dx <= 16,
            ;
            assert(0 <= dy * dy <= 256) by (nonlinear_arith)
                requires
                    -16 <= dy <= 16,
            ;
            let inside = dx * dx + dy * dy <= 225;
            let base = v.len();
            let ghost pixel = (128 * y + 4 * x) as int;
            proof {
                assert forall|c: int| 0 <= c < 4 implies (#[trigger] ((pixel + c) / 4)) == 32 * y + x
                    && (pixel + c) % 4 == c by {
                    assert(pixel == 4 * (32 * y + x));
                }
                assert((32 * y + x) % 32 == x && (32 * y + x) / 32 == y) by (nonlinear_arith)
                    requires
                        x < 32,
                ;
            }
            if inside {
                v.push(r);
                v.push(g);
                v.push(b);
                v.push(255u8);
            } else {
                v.push(0u8);
                v.push(0u8);
                v.push(0u8);
                v.push(0u8);
            }
            assert forall|i: int| 0 <= i < v@.len() implies v@[i] == icon_byte(i, r, g, b) by {
                if i >= base {
                    let c = i - pixel;
                    assert(0 <= c < 4);
                    assert((pixel + c) / 4 == 32 * y + x);
                }
            }
            x = x + 1;
        }
        y = y + 1;
    }
    assert(v@ =~= icon_rgba_spec(r, g, b));
    v
}

/// The icon colour for a status: red while recording, orange while processing,
/// purple while distilling, green otherwise (idle or a message).
pub open spec fn status_color_spec(status: Option<Seq<char>>) -> (u8, u8, u8) {
    match status {
        Some(s) => if s == "Recording..."@ {
            (239u8, 68u8, 68u8)
        } else if s == "Processing..."@ {
            (251u8, 146u8, 60u8)
        } else if s == "Distilling..."@ {
            (168u8, 85u8, 247u8)
        } else {
            (34u8, 197u8, 94u8)
        },
        None => (34u8, 197u8, 94u8),
    }
}

/// Whether `s` is the text `lit`.
fn is_text(s: &str, lit: &str) -> (r: bool)
    ensures
        r == (s@ == lit@),
{
    let a = chars_of(s);
    let b = chars_of(lit);
    same_chars(a.as_slice(), b.as_slice())
}

/// The icon colour for a status (see `status_color_spec`).
pub fn status_color(status: Option<&str>) -> (r: (u8, u8, u8))
    ensures
        r == status_color_spec(
            match status {
                Some(s) => Some(s@),
                None => None,
            },
        ),
{
    match status {
        Some(s) => if is_text(s, "Recording...") {
            (239, 68, 68)
        } else if is_text(s, "Processing...") {
            (251, 146, 60)
        } else if is_text(s, "Distilling...") {
            (168, 85, 247)
        } else {
            (34, 197, 94)
        },
        None => (34, 197, 94),
    }
}

} // verus!
