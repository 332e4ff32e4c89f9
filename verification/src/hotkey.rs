//! The hotkey grammar (`"Ctrl+Alt+R"`) and the rewrite of the `hotkey` line of
//! the configuration text.
use vstd::prelude::*;
use crate::text::{
    chars_of, join, join_chars, lines, lines_chars, push_all, split, split_chars, starts_with,
    string_of, trim, trim_chars, trim_end, trim_end_chars, trim_start, trim_start_chars, views,
    has_prefix,
};
use global_hotkey::hotkey::{Code, HotKey, Modifiers};

verus! {

#[verifier::external_type_specification]
#[verifier::external_body]
pub struct ExHotKey(HotKey);

#[verifier::external_type_specification]
#[verifier::external_body]
pub struct ExCode(Code);

/// A modifier named in a hotkey string.
#[derive(Clone, Copy, Debug, PartialEq, Eq, Structural)]
pub enum Modifier {
    Ctrl,
    Alt,
    Shift,
    Meta,
}

/// The main key of a hotkey: a letter (`0` is `A`, `25` is `Z`) or a function key
/// (`1` to `12`).
#[derive(Clone, Copy, Debug, PartialEq, Eq, Structural)]
pub enum KeyCode {
    Letter(u8),
    Function(u8),
}

/// A parsed hotkey: which modifiers are held, and the main key.
#[derive(Clone, Copy, Debug, PartialEq, Eq, Structural)]
pub struct HotkeySpec {
    pub ctrl: bool,
    pub alt: bool,
    pub shift: bool,
    pub meta: bool,
    pub key: KeyCode,
}

/// `c` equals the lower-case ASCII letter or character `lower`, ignoring ASCII case.
pub open spec fn eq_ignore_case(c: char, lower: char) -> bool {
    c == lower || ('a' <= lower <= 'z' && c as u32 == lower as u32 - 32)
}

/// `s` spells the lower-case word `w`, ignoring ASCII case.
pub open spec fn word_ignore_case(s: Seq<char>, w: Seq<char>) -> bool {
    s.len() == w.len() && forall|i: int| 0 <= i < s.len() ==> eq_ignore_case(s[i], w[i])
}

/// The modifier that a (trimmed) part names. `str::to_lowercase` maps to an ASCII
/// letter only ASCII letters and the Kelvin sign (to `k`), and no modifier word holds
/// a `k`, so ASCII case folding decides exactly as lower-casing does.
pub open spec fn modifier_of(part: Seq<char>) -> Option<Modifier> {
    if word_ignore_case(part, "ctrl"@) || word_ignore_case(part, "control"@) {
        Some(Modifier::Ctrl)
    } else if word_ignore_case(part, "alt"@) {
        Some(Modifier::Alt)
    } else if word_ignore_case(part, "shift"@) {
        Some(Modifier::Shift)
    } else if word_ignore_case(part, "meta"@) || word_ignore_case(part, "win"@) {
        Some(Modifier::Meta)
    } else {
        None
    }
}

/// The letter that `c` upper-cases to, if it upper-cases to a single ASCII letter:
/// ASCII letters, dotless `ı` (to `I`) and long `ſ` (to `S`).
pub open spec fn letter_of(c: char) -> Option<u8> {
    let u = c as u32;
    if 0x41 <= u <= 0x5A {
        Some((u - 0x41) as u8)
    } else if 0x61 <= u <= 0x7A {
        Some((u - 0x61) as u8)
    } else if u == 0x131 {
        Some(8u8)
    } else if u == 0x17F {
        Some(18u8)
    } else {
        None
    }
}

/// The value of `d` if it is one of `"1"` to `"12"`.
pub open spec fn function_number(d: Seq<char>) -> Option<u8> {
    if d.len() == 1 && '1' <= d[0] <= '9' {
        Some((d[0] as u32 - 0x30) as u8)
    } else if d.len() == 2 && d[0] == '1' && '0' <= d[1] <= '2' {
        Some((d[1] as u32 - 0x30 + 10) as u8)
    } else {
        None
    }
}

/// The main key that a (trimmed) part names, after upper-casing: `A`..`Z`, `F1`..`F12`.
pub open spec fn key_of(part: Seq<char>) -> Option<KeyCode> {
    if part.len() == 1 && letter_of(part[0]) is Some {
        Some(KeyCode::Letter(letter_of(part[0]).unwrap()))
    } else if 2 <= part.len() <= 3 && (part[0] == 'f' || part[0] == 'F') && function_number(
        part.skip(1),
    ) is Some {
        Some(KeyCode::Function(function_number(part.skip(1)).unwrap()))
    } else {
        None
    }
}

/// The trimmed parts of a hotkey string split at `+`.
pub open spec fn hotkey_parts(s: Seq<char>) -> Seq<Seq<char>> {
    split(s, '+').map_values(|p: Seq<char>| trim(p))
}

/// Some modifier part (all parts but the last) names `m`.
pub open spec fn names_modifier(parts: Seq<Seq<char>>, m: Modifier) -> bool {
    exists|i: int| 0 <= i < parts.len() - 1 && modifier_of(#[trigger] parts[i]) == Some(m)
}

/// The hotkey that trimmed parts denote: the last part names the key, every other
/// part names a modifier.
pub open spec fn parse_parts(parts: Seq<Seq<char>>) -> Option<HotkeySpec> {
    let n = parts.len() - 1;
    if key_of(parts[n]) is None {
        None
    } else if exists|i: int| 0 <= i < n && modifier_of(#[trigger] parts[i]) is None {
        None
    } else {
        Some(
            HotkeySpec {
                ctrl: names_modifier(parts, Modifier::Ctrl),
                alt: names_modifier(parts, Modifier::Alt),
                shift: names_modifier(parts, Modifier::Shift),
                meta: names_modifier(parts, Modifier::Meta),
                key: key_of(parts[n]).unwrap(),
            },
        )
    }
}

/// The hotkey that `s` denotes: the last `+`-separated part names the key, every
/// other part names a modifier; parts are trimmed of whitespace and read without case.
pub open spec fn parse_hotkey_spec(s: Seq<char>) -> Option<HotkeySpec> {
    parse_parts(hotkey_parts(s))
}

/// The name of a key in `keyboard_types::Code`'s `FromStr`: `KeyA`..`KeyZ`, `F1`..`F12`.
pub open spec fn code_name_of(k: KeyCode) -> Seq<char> {
    match k {
        KeyCode::Letter(i) => seq!['K', 'e', 'y', (0x41 + i) as char],
        KeyCode::Function(n) => if n < 10 {
            seq!['F', (0x30 + n) as char]
        } else {
            seq!['F', '1', (0x30 + n - 10) as char]
        },
    }
}

/// A key that the grammar can produce.
pub open spec fn key_in_range(k: KeyCode) -> bool {
    match k {
        KeyCode::Letter(i) => i < 26,
        KeyCode::Function(n) => 1 <= n <= 12,
    }
}

/// The `Code` that `keyboard_types::Code::from_str` gives for a name, if it knows it.
pub uninterp spec fn code_named(name: Seq<char>) -> Option<Code>;

/// Calls `keyboard_types::Code::from_str` (re-exported by `global_hotkey`) on `name`,
/// keeping the code where it recognises the name. Its source recognises each of
/// `KeyA`..`KeyZ` and `F1`..`F12`.
#[verifier::external_body]
fn code_from_name(name: &str) -> (r: Option<Code>)
    ensures
        r == code_named(name@),
        (exists|k: KeyCode| key_in_range(k) && code_name_of(k) == name@) ==> r is Some,
{
    match name.parse::<Code>() {
        Ok(code) => Some(code),
        Err(_) => None,
    }
}

/// What `global_hotkey`'s `HotKey::new` builds from modifiers set from the flags
/// (with `Modifiers::set`) and a key code.
pub uninterp spec fn hotkey_built(ctrl: bool, alt: bool, shift: bool, meta: bool, code: Code) -> HotKey;

/// Calls `global_hotkey::hotkey::HotKey::new` with `Some` of the modifiers that the
/// flags select (Ctrl as `CONTROL`, Alt as `ALT`, Shift as `SHIFT`, Meta as `META`)
/// and `code`; the hotkey is named by `hotkey_built`.
#[verifier::external_body]
fn new_hotkey(ctrl: bool, alt: bool, shift: bool, meta: bool, code: Code) -> (r: HotKey)
    ensures
        r == hotkey_built(ctrl, alt, shift, meta, code),
{
    let mut mods = Modifiers::empty();
    mods.set(Modifiers::CONTROL, ctrl);
    mods.set(Modifiers::ALT, alt);
    mods.set(Modifiers::SHIFT, shift);
    mods.set(Modifiers::META, meta);
    HotKey::new(Some(mods), code)
}

/// The global hotkey for a parsed hotkey.
pub open spec fn hotkey_for(h: HotkeySpec) -> HotKey {
    hotkey_built(h.ctrl, h.alt, h.shift, h.meta, code_named(code_name_of(h.key)).unwrap())
}

fn eq_ignore_case_char(c: char, lower: char) -> (r: bool)
    ensures
        r == eq_ignore_case(c, lower),
{
    let a = c as u32;
    let b = lower as u32;
    a == b || (0x61 <= b && b <= 0x7A && a == b - 32)
}

/// Whether `s` spells the lower-case word `w` ignoring ASCII case.
fn word_is(s: &[char], w: &str) -> (r: bool)
    ensures
        r == word_ignore_case(s@, w@),
{
    let wc = chars_of(w);
    if s.len() != wc.len() {
        return false;
    }
    let mut i: usize = 0;
    while i < s.len()
        invariant
            s@.len() == wc@.len(),
            wc@ == w@,
            i <= s@.len(),
            forall|k: int| 0 <= k < i ==> eq_ignore_case(s@[k], wc@[k]),
        decreases s.len() - i,
    {
        if !eq_ignore_case_char(s[i], wc[i]) {
            return false;
        }
        i = i + 1;
    }
    true
}

/// The modifier that a trimmed part names.
pub fn modifier_of_part(part: &[char]) -> (r: Option<Modifier>)
    ensures
        r == modifier_of(part@),
{
    if word_is(part, "ctrl") || word_is(part, "control") {
        Some(Modifier::Ctrl)
    } else if word_is(part, "alt") {
        Some(Modifier::Alt)
    } else if word_is(part, "shift") {
        Some(Modifier::Shift)
    } else if word_is(part, "meta") || word_is(part, "win") {
        Some(Modifier::Meta)
    } else {
        None
    }
}

fn letter_of_char(c: char) -> (r: Option<u8>)
    ensures
        r == letter_of(c),
{
    let u = c as u32;
    if 0x41 <= u && u <= 0x5A {
        Some((u - 0x41) as u8)
    } else if 0x61 <= u && u <= 0x7A {
        Some((u - 0x61) as u8)
    } else if u == 0x131 {
        Some(8u8)
    } else if u == 0x17F {
        Some(18u8)
    } else {
        None
    }
}

/// The main key that a trimmed part names.
pub fn key_of_part(part: &[char]) -> (r: Option<KeyCode>)
    ensures
        r == key_of(part@),
{
    if part.len() == 1 {
        match letter_of_char(part[0]) {
            Some(i) => {
                return Some(KeyCode::Letter(i));
            },
            None => {},
        }
    }
    if 2 <= part.len() && part.len() <= 3 && (part[0] == 'f' || part[0] == 'F') {
        let ghost d = part@.skip(1);
        assert(d.len() == part@.len() - 1);
        assert(d[0] == part@[1]);
        let d0 = part[1];
        if part.len() == 2 && '1' <= d0 && d0 <= '9' {
            return Some(KeyCode::Function((d0 as u32 - 0x30) as u8));
        }
        if part.len() == 3 {
            assert(d[1] == part@[2]);
            let d1 = part[2];
            if d0 == '1' && '0' <= d1 && d1 <= '2' {
                return Some(KeyCode::Function((d1 as u32 - 0x30 + 10) as u8));
            }
        }
    }
    None
}

/// The hotkey that `s` denotes, as modifiers and key (see `parse_hotkey_spec`).
pub fn parse_hotkey_keys(s: &str) -> (r: Option<HotkeySpec>)
    ensures
        r == parse_hotkey_spec(s@),
        r matches Some(h) ==> key_in_range(h.key),
{
    let cs = chars_of(s);
    let raw = split_chars(cs.as_slice(), '+');
    let ghost sp = split(s@, '+');
    let ghost parts_spec = hotkey_parts(s@);
    proof {
        crate::text::lemma_split_nonempty(s@, '+');
    }
    let mut parts: Vec<Vec<char>> = Vec::new();
    let mut i: usize = 0;
    while i < raw.len()
        invariant
            views(raw@) == sp,
            parts_spec == sp.map_values(|p: Seq<char>| trim(p)),
            i <= raw@.len(),
            views(parts@) =~= parts_spec.take(i as int),
        decreases raw.len() - i,
    {
        let t = trim_chars(raw[i].as_slice());
        let ghost before = parts@;
        parts.push(t);
        assert(views(parts@) =~= views(before).push(t@));
        assert(parts_spec.take(i as int + 1) =~= parts_spec.take(i as int).push(parts_spec[i as int]));
        i = i + 1;
    }
    assert(parts_spec.take(raw@.len() as int) =~= parts_spec);
    let n = parts.len() - 1;
    assert(parts@[n as int]@ == parts_spec[n as int]);
    let key = match key_of_part(parts[n].as_slice()) {
        Some(k) => k,
        None => {
            return None;
        },
    };
    let mut ctrl = false;
    let mut alt = false;
    let mut shift = false;
    let mut meta = false;
    let mut j: usize = 0;
    while j < n
        invariant
            n + 1 == parts@.len() == parts_spec.len(),
            views(parts@) == parts_spec,
            key_of(parts_spec[n as int]) == Some(key),
            parts_spec == hotkey_parts(s@),
            j <= n,
            forall|k: int| 0 <= k < j ==> modifier_of(#[trigger] parts_spec[k]) is Some,
            ctrl == exists|k: int| 0 <= k < j && modifier_of(#[trigger] parts_spec[k]) == Some(
                Modifier::Ctrl,
            ),
            alt == exists|k: int| 0 <= k < j && modifier_of(#[trigger] parts_spec[k]) == Some(
                Modifier::Alt,
            ),
            shift == exists|k: int| 0 <= k < j && modifier_of(#[trigger] parts_spec[k]) == Some(
                Modifier::Shift,
            ),
            meta == exists|k: int| 0 <= k < j && modifier_of(#[trigger] parts_spec[k]) == Some(
                Modifier::Meta,
            ),
        decreases n - j,
    {
        assert(parts@[j as int]@ == parts_spec[j as int]);
        match modifier_of_part(parts[j].as_slice()) {
            None => {
                assert(modifier_of(parts_spec[j as int]) is None);
                assert(key_of(parts_spec[parts_spec.len() - 1]) is Some);
                return None;
            },
            Some(Modifier::Ctrl) => {
                ctrl = true;
            },
            Some(Modifier::Alt) => {
                alt = true;
            },
            Some(Modifier::Shift) => {
                shift = true;
            },
            Some(Modifier::Meta) => {
                meta = true;
            },
        }
        j = j + 1;
    }
    Some(HotkeySpec { ctrl, alt, shift, meta, key })
}

/// `code_name_of(k)` as a `String`.
pub fn code_name_string(k: KeyCode) -> (r: String)
    requires
        key_in_range(k),
    ensures
        r@ == code_name_of(k),
{
    let mut v: Vec<char> = Vec::new();
    match k {
        KeyCode::Letter(i) => {
            v.push('K');
            v.push('e');
            v.push('y');
            v.push((0x41u8 + i) as char);
        },
        KeyCode::Function(n) => {
            v.push('F');
            if n < 10 {
                v.push((0x30u8 + n) as char);
            } else {
                v.push('1');
                v.push((0x30u8 + n - 10) as char);
            }
        },
    }
    assert(v@ =~= code_name_of(k));
    string_of(v.as_slice())
}

/// The global hotkey that `s` denotes, or `None` where the grammar rejects `s`.
pub fn parse_hotkey(s: &str) -> (r: Option<HotKey>)
    ensures
        r == match parse_hotkey_spec(s@) {
            Some(h) => Some(hotkey_for(h)),
            None => None,
        },
{
    match parse_hotkey_keys(s) {
        None => None,
        Some(h) => {
            let name = code_name_string(h.key);
            match code_from_name(name.as_str()) {
                Some(code) => Some(new_hotkey(h.ctrl, h.alt, h.shift, h.meta, code)),
                None => None,
            }
        },
    }
}

/// A configuration line that sets the hotkey: it begins, after leading
/// whitespace, with `hotkey`.
pub open spec fn is_hotkey_line(l: Seq<char>) -> bool {
    starts_with(trim_start(l), "hotkey"@)
}

/// The configuration line `hotkey = "<hk>"`.
pub open spec fn hotkey_line(hk: Seq<char>) -> Seq<char> {
    "hotkey = \""@ + hk + "\""@
}

/// Each line of `ls`, with every hotkey line replaced by `line`.
pub open spec fn replace_hotkey_lines(ls: Seq<Seq<char>>, line: Seq<char>) -> Seq<Seq<char>> {
    ls.map_values(|l: Seq<char>| if is_hotkey_line(l) { line } else { l })
}

/// The configuration text with its hotkey set to `hk`: where some line sets the
/// hotkey, every such line is replaced and the lines are joined with `\r\n`;
/// otherwise the line is appended after the text with trailing whitespace removed.
pub open spec fn apply_hotkey_spec(content: Seq<char>, hk: Seq<char>) -> Seq<char> {
    let ls = lines(content);
    let line = hotkey_line(hk);
    if exists|i: int| 0 <= i < ls.len() && is_hotkey_line(#[trigger] ls[i]) {
        join(replace_hotkey_lines(ls, line), "\r\n"@)
    } else {
        trim_end(content) + "\n"@ + line + "\n"@
    }
}

/// Whether a line sets the hotkey.
fn is_hotkey_line_chars(l: &[char]) -> (r: bool)
    ensures
        r == is_hotkey_line(l@),
{
    let t = trim_start_chars(l);
    let key = chars_of("hotkey");
    has_prefix(t.as_slice(), key.as_slice())
}

/// Rewrites the configuration text `content` so that it sets the hotkey to
/// `hotkey_str`.
pub fn apply_hotkey(content: &str, hotkey_str: &str) -> (r: String)
    ensures
        r@ == apply_hotkey_spec(content@, hotkey_str@),
{
    let c = chars_of(content);
    let mut line = chars_of("hotkey = \"");
    let hk = chars_of(hotkey_str);
    push_all(&mut line, hk.as_slice());
    let quote = chars_of("\"");
    push_all(&mut line, quote.as_slice());
    let ls = lines_chars(c.as_slice());
    let ghost lsv = lines(content@);
    let mut found = false;
    let mut i: usize = 0;
    while i < ls.len()
        invariant
            views(ls@) == lsv,
            i <= ls@.len(),
            found == exists|k: int| 0 <= k < i && is_hotkey_line(#[trigger] lsv[k]),
        decreases ls.len() - i,
    {
        assert(ls@[i as int]@ == lsv[i as int]);
        if is_hotkey_line_chars(ls[i].as_slice()) {
            found = true;
        }
        i = i + 1;
    }
    if found {
        let mut mapped: Vec<Vec<char>> = Vec::new();
        let mut j: usize = 0;
        while j < ls.len()
            invariant
                views(ls@) == lsv,
                line@ == hotkey_line(hotkey_str@),
                j <= ls@.len(),
                views(mapped@) =~= replace_hotkey_lines(lsv, line@).take(j as int),
            decreases ls.len() - j,
        {
            assert(ls@[j as int]@ == lsv[j as int]);
            let ghost before = mapped@;
            if is_hotkey_line_chars(ls[j].as_slice()) {
                let copy = crate::text::slice_chars(line.as_slice(), 0, line.len());
                assert(line@.subrange(0, line@.len() as int) =~= line@);
                mapped.push(copy);
            } else {
                let copy = crate::text::slice_chars(ls[j].as_slice(), 0, ls[j].len());
                assert(lsv[j as int].subrange(0, lsv[j as int].len() as int) =~= lsv[j as int]);
                mapped.push(copy);
            }
            assert(views(mapped@) =~= views(before).push(views(mapped@).last()));
            assert(replace_hotkey_lines(lsv, line@).take(j as int + 1) =~= replace_hotkey_lines(
                lsv,
                line@,
            ).take(j as int).push(replace_hotkey_lines(lsv, line@)[j as int]));
            j = j + 1;
        }
        assert(replace_hotkey_lines(lsv, line@).take(ls@.len() as int) =~= replace_hotkey_lines(
            lsv,
            line@,
        ));
        let crlf = chars_of("\r\n");
        let joined = join_chars(&mapped, crlf.as_slice());
        string_of(joined.as_slice())
    } else {
        let mut out = trim_end_chars(c.as_slice());
        let nl = chars_of("\n");
        push_all(&mut out, nl.as_slice());
        push_all(&mut out, line.as_slice());
        push_all(&mut out, nl.as_slice());
        string_of(out.as_slice())
    }
}


/// ASCII lower-casing of one character.
pub open spec fn ascii_lower(c: char) -> char {
    if 'A' <= c <= 'Z' {
        ((c as u32) + 32) as char
    } else {
        c
    }
}

/// ASCII lower-casing of a text.
pub open spec fn lower_all(s: Seq<char>) -> Seq<char> {
    s.map_values(|c: char| ascii_lower(c))
}

/// Two part lists that name the same modifiers and the same key denote the same hotkey.
proof fn lemma_parts_equiv(a: Seq<Seq<char>>, b: Seq<Seq<char>>)
    requires
        a.len() == b.len() >= 1,
        key_of(a[a.len() - 1]) == key_of(b[b.len() - 1]),
        forall|i: int| 0 <= i < a.len() - 1 ==> modifier_of(#[trigger] a[i]) == modifier_of(b[i]),
    ensures
        parse_parts(a) == parse_parts(b),
{
    let n = a.len() - 1;
    assert forall|m: Modifier| names_modifier(a, m) == names_modifier(b, m) by {
        if names_modifier(a, m) {
            let i = choose|i: int| 0 <= i < a.len() - 1 && modifier_of(#[trigger] a[i]) == Some(m);
            assert(modifier_of(b[i]) == Some(m));
        }
        if names_modifier(b, m) {
            let i = choose|i: int| 0 <= i < b.len() - 1 && modifier_of(#[trigger] b[i]) == Some(m);
            assert(modifier_of(a[i]) == Some(m));
        }
    }
    if exists|i: int| 0 <= i < n && modifier_of(#[trigger] a[i]) is None {
        let i = choose|i: int| 0 <= i < n && modifier_of(#[trigger] a[i]) is None;
        assert(modifier_of(b[i]) is None);
    }
    if exists|i: int| 0 <= i < n && modifier_of(#[trigger] b[i]) is None {
        let i = choose|i: int| 0 <= i < n && modifier_of(#[trigger] b[i]) is None;
        assert(modifier_of(a[i]) is None);
    }
}

proof fn lemma_split_lower(s: Seq<char>)
    ensures
        split(lower_all(s), '+') == split(s, '+').map_values(|p: Seq<char>| lower_all(p)),
    decreases s.len(),
{
    crate::text::lemma_split_nonempty(s, '+');
    assert(lower_all(Seq::<char>::empty()) =~= Seq::<char>::empty());
    if s.len() == 0 {
        assert(lower_all(s) =~= Seq::<char>::empty());
        assert(split(s, '+').map_values(|p: Seq<char>| lower_all(p)) =~= seq![
            Seq::<char>::empty(),
        ]);
    } else {
        let t = s.drop_last();
        assert(lower_all(s).last() == ascii_lower(s.last()));
        assert(lower_all(s).len() > 0);
        lemma_split_lower(t);
        crate::text::lemma_split_nonempty(t, '+');
        assert(lower_all(s).drop_last() =~= lower_all(t));
        let prev = split(t, '+');
        let lp = prev.map_values(|p: Seq<char>| lower_all(p));
        if s.last() == '+' {
            assert(lp.push(Seq::<char>::empty()) =~= prev.push(Seq::<char>::empty()).map_values(
                |p: Seq<char>| lower_all(p),
            ));
        } else {
            let c = s.last();
            assert(lower_all(prev.last().push(c)) =~= lower_all(prev.last()).push(ascii_lower(c)));
            assert(lp.update(lp.len() - 1, lp.last().push(ascii_lower(c))) =~= prev.update(
                prev.len() - 1,
                prev.last().push(c),
            ).map_values(|p: Seq<char>| lower_all(p)));
        }
    }
}

proof fn lemma_trim_start_lower(s: Seq<char>)
    ensures
        trim_start(lower_all(s)) == lower_all(trim_start(s)),
    decreases s.len(),
{
    if s.len() > 0 {
        assert(lower_all(s).drop_first() =~= lower_all(s.drop_first()));
        lemma_trim_start_lower(s.drop_first());
    }
}

proof fn lemma_trim_end_lower(s: Seq<char>)
    ensures
        trim_end(lower_all(s)) == lower_all(trim_end(s)),
    decreases s.len(),
{
    if s.len() > 0 {
        assert(lower_all(s).drop_last() =~= lower_all(s.drop_last()));
        lemma_trim_end_lower(s.drop_last());
    }
}

proof fn lemma_word_lower(p: Seq<char>, w: Seq<char>)
    requires
        forall|i: int| 0 <= i < w.len() ==> !('A' <= #[trigger] w[i] <= 'Z'),
    ensures
        word_ignore_case(lower_all(p), w) == word_ignore_case(p, w),
{
    if p.len() == w.len() {
        assert forall|i: int| 0 <= i < p.len() implies eq_ignore_case(lower_all(p)[i], w[i])
            == eq_ignore_case(p[i], w[i]) by {
            assert(!('A' <= w[i] <= 'Z'));
        }
    }
}

proof fn lemma_modifier_lower(p: Seq<char>)
    ensures
        modifier_of(lower_all(p)) == modifier_of(p),
{
    reveal_strlit("ctrl");
    reveal_strlit("control");
    reveal_strlit("alt");
    reveal_strlit("shift");
    reveal_strlit("meta");
    reveal_strlit("win");
    lemma_word_lower(p, "ctrl"@);
    lemma_word_lower(p, "control"@);
    lemma_word_lower(p, "alt"@);
    lemma_word_lower(p, "shift"@);
    lemma_word_lower(p, "meta"@);
    lemma_word_lower(p, "win"@);
}

proof fn lemma_key_lower(p: Seq<char>)
    ensures
        key_of(lower_all(p)) == key_of(p),
{
    if p.len() >= 1 {
        assert(lower_all(p).skip(1) =~= lower_all(p.skip(1)));
    }
}

/// Parsing ignores ASCII case: a hotkey text and its lower-case spelling denote the
/// same hotkey (`parse_hotkey` builds it from what this denotes).
pub proof fn law_hotkey_case_insensitive(s: Seq<char>)
    ensures
        parse_hotkey_spec(lower_all(s)) == parse_hotkey_spec(s),
{
    lemma_split_lower(s);
    crate::text::lemma_split_nonempty(s, '+');
    let a = hotkey_parts(lower_all(s));
    let b = hotkey_parts(s);
    assert forall|i: int| 0 <= i < b.len() implies a[i] == lower_all(b[i]) by {
        let p = split(s, '+')[i];
        lemma_trim_start_lower(p);
        lemma_trim_end_lower(trim_start(p));
    }
    assert forall|i: int| 0 <= i < a.len() - 1 implies modifier_of(#[trigger] a[i]) == modifier_of(
        b[i],
    ) by {
        lemma_modifier_lower(b[i]);
    }
    lemma_key_lower(b[b.len() - 1]);
    lemma_parts_equiv(a, b);
}

pub proof fn lemma_split_no_sep(p: Seq<char>, sep: char)
    requires
        forall|i: int| 0 <= i < p.len() ==> p[i] != sep,
    ensures
        split(p, sep) == seq![p],
    decreases p.len(),
{
    if p.len() > 0 {
        lemma_split_no_sep(p.drop_last(), sep);
        assert(p.drop_last().push(p.last()) =~= p);
        assert(seq![p.drop_last()].update(0, p.drop_last().push(p.last())) =~= seq![p]);
    } else {
        assert(p =~= Seq::<char>::empty());
    }
}

pub proof fn lemma_split_prefix(p: Seq<char>, r: Seq<char>, sep: char)
    requires
        forall|i: int| 0 <= i < p.len() ==> p[i] != sep,
    ensures
        split(p + seq![sep] + r, sep) == seq![p] + split(r, sep),
    decreases r.len(),
{
    crate::text::lemma_split_nonempty(r, sep);
    if r.len() == 0 {
        lemma_split_no_sep(p, sep);
        assert((p + seq![sep] + r).drop_last() =~= p);
        assert(seq![p].push(Seq::<char>::empty()) =~= seq![p] + split(r, sep));
    } else {
        let t = r.drop_last();
        lemma_split_prefix(p, t, sep);
        crate::text::lemma_split_nonempty(t, sep);
        assert((p + seq![sep] + r).drop_last() =~= p + seq![sep] + t);
        let y = split(t, sep);
        let c = r.last();
        if c == sep {
            assert((seq![p] + y).push(Seq::<char>::empty()) =~= seq![p] + y.push(
                Seq::<char>::empty(),
            ));
        } else {
            let x = seq![p] + y;
            assert(x.update(x.len() - 1, x.last().push(c)) =~= seq![p] + y.update(
                y.len() - 1,
                y.last().push(c),
            ));
        }
    }
}

/// `Win` and `Meta` are two spellings of the same modifier.
pub proof fn law_win_is_meta(rest: Seq<char>)
    ensures
        parse_hotkey_spec("Win+"@ + rest) == parse_hotkey_spec("Meta+"@ + rest),
{
    reveal_strlit("Win+");
    reveal_strlit("Meta+");
    reveal_strlit("ctrl");
    reveal_strlit("control");
    reveal_strlit("alt");
    reveal_strlit("shift");
    reveal_strlit("meta");
    reveal_strlit("win");
    let w = seq!['W', 'i', 'n'];
    let m = seq!['M', 'e', 't', 'a'];
    assert("Win+"@ + rest =~= w + seq!['+'] + rest);
    assert("Meta+"@ + rest =~= m + seq!['+'] + rest);
    lemma_split_prefix(w, rest, '+');
    lemma_split_prefix(m, rest, '+');
    crate::text::lemma_split_nonempty(rest, '+');
    let a = hotkey_parts("Win+"@ + rest);
    let b = hotkey_parts("Meta+"@ + rest);
    assert(trim(w) == w) by {
        assert(trim_start(w) == w);
        assert(trim_end(w) == w);
    }
    assert(trim(m) == m) by {
        assert(trim_start(m) == m);
        assert(trim_end(m) == m);
    }
    assert(modifier_of(w) == Some(Modifier::Meta)) by {
        assert(!word_ignore_case(w, "ctrl"@));
        assert(!word_ignore_case(w, "control"@));
        assert(!word_ignore_case(w, "alt"@));
        assert(!word_ignore_case(w, "shift"@));
        assert(!word_ignore_case(w, "meta"@));
        assert(word_ignore_case(w, "win"@));
    }
    assert(modifier_of(m) == Some(Modifier::Meta)) by {
        assert(!word_ignore_case(m, "ctrl"@));
        assert(!word_ignore_case(m, "control"@));
        assert(!word_ignore_case(m, "alt"@));
        assert(!word_ignore_case(m, "shift"@));
        assert(word_ignore_case(m, "meta"@));
    }
    assert(a.len() == b.len());
    assert forall|i: int| 0 <= i < a.len() - 1 implies modifier_of(#[trigger] a[i]) == modifier_of(
        b[i],
    ) by {
        if i > 0 {
            assert(a[i] == b[i]);
        }
    }
    assert(a[a.len() - 1] == b[b.len() - 1]);
    lemma_parts_equiv(a, b);
}


/// Some part before the last (a modifier part) spells the word `w`, ignoring case.
pub open spec fn spells_modifier(parts: Seq<Seq<char>>, w: Seq<char>) -> bool {
    exists|i: int| 0 <= i < parts.len() - 1 && word_ignore_case(#[trigger] parts[i], w)
}

/// Two words whose first letters differ are never both spelled by one text.
proof fn lemma_first_letters_differ(p: Seq<char>, w1: Seq<char>, w2: Seq<char>)
    requires
        w1.len() > 0,
        w2.len() > 0,
        'a' <= w1[0] <= 'z',
        'a' <= w2[0] <= 'z',
        w1[0] != w2[0],
    ensures
        !(word_ignore_case(p, w1) && word_ignore_case(p, w2)),
{
    if word_ignore_case(p, w1) && word_ignore_case(p, w2) {
        assert(eq_ignore_case(p[0], w1[0]));
        assert(eq_ignore_case(p[0], w2[0]));
    }
}

/// Each modifier is named by exactly its own words.
proof fn lemma_modifier_words(p: Seq<char>)
    ensures
        (modifier_of(p) == Some(Modifier::Ctrl)) == (word_ignore_case(p, "ctrl"@)
            || word_ignore_case(p, "control"@)),
        (modifier_of(p) == Some(Modifier::Alt)) == word_ignore_case(p, "alt"@),
        (modifier_of(p) == Some(Modifier::Shift)) == word_ignore_case(p, "shift"@),
        (modifier_of(p) == Some(Modifier::Meta)) == (word_ignore_case(p, "meta"@)
            || word_ignore_case(p, "win"@)),
{
    reveal_strlit("ctrl");
    reveal_strlit("control");
    reveal_strlit("alt");
    reveal_strlit("shift");
    reveal_strlit("meta");
    reveal_strlit("win");
    lemma_first_letters_differ(p, "meta"@, "ctrl"@);
    lemma_first_letters_differ(p, "win"@, "alt"@);
}

/// A parsed hotkey holds a modifier exactly when some part before the key spells
/// one of that modifier's words (`Ctrl`/`Control`, `Alt`, `Shift`, `Meta`/`Win`,
/// in any case); every such part spells one of them, and the last part is the key.
pub proof fn law_parsed_modifiers_are_named(s: Seq<char>)
    requires
        parse_hotkey_spec(s) is Some,
    ensures
        ({
            let parts = hotkey_parts(s);
            let h = parse_hotkey_spec(s).unwrap();
            &&& h.ctrl == (spells_modifier(parts, "ctrl"@) || spells_modifier(parts, "control"@))
            &&& h.alt == spells_modifier(parts, "alt"@)
            &&& h.shift == spells_modifier(parts, "shift"@)
            &&& h.meta == (spells_modifier(parts, "meta"@) || spells_modifier(parts, "win"@))
            &&& forall|i: int|
                0 <= i < parts.len() - 1 ==> (word_ignore_case(#[trigger] parts[i], "ctrl"@)
                    || word_ignore_case(parts[i], "control"@) || word_ignore_case(parts[i], "alt"@)
                    || word_ignore_case(parts[i], "shift"@) || word_ignore_case(parts[i], "meta"@)
                    || word_ignore_case(parts[i], "win"@))
            &&& Some(h.key) == key_of(parts[parts.len() - 1])
            &&& match h.key {
                KeyCode::Letter(i) => {
                    let k = parts[parts.len() - 1];
                    &&& k.len() == 1
                    &&& i < 26
                    &&& (k[0] as u32 == 0x41 + i || k[0] as u32 == 0x61 + i || (i == 8 && k[0]
                        as u32 == 0x131) || (i == 18 && k[0] as u32 == 0x17F))
                },
                KeyCode::Function(n) => {
                    let k = parts[parts.len() - 1];
                    &&& 1 <= n <= 12
                    &&& (k[0] == 'F' || k[0] == 'f')
                    &&& (n < 10 ==> k.len() == 2 && k[1] as u32 == 0x30 + n)
                    &&& (n >= 10 ==> k.len() == 3 && k[1] == '1' && k[2] as u32 == 0x30 + n - 10)
                },
            }
        }),
{
    let last = hotkey_parts(s)[hotkey_parts(s).len() - 1];
    if last.len() > 1 {
        assert(last.skip(1)[0] == last[1]);
        if last.len() == 3 {
            assert(last.skip(1)[1] == last[2]);
        }
    }
    let parts = hotkey_parts(s);
    let n = parts.len() - 1;
    assert forall|i: int| 0 <= i < n implies {
        &&& (modifier_of(#[trigger] parts[i]) == Some(Modifier::Ctrl)) == (word_ignore_case(
            parts[i],
            "ctrl"@,
        ) || word_ignore_case(parts[i], "control"@))
        &&& (modifier_of(parts[i]) == Some(Modifier::Alt)) == word_ignore_case(parts[i], "alt"@)
        &&& (modifier_of(parts[i]) == Some(Modifier::Shift)) == word_ignore_case(parts[i], "shift"@)
        &&& (modifier_of(parts[i]) == Some(Modifier::Meta)) == (word_ignore_case(parts[i], "meta"@)
            || word_ignore_case(parts[i], "win"@))
        &&& modifier_of(parts[i]) is Some
    } by {
        lemma_modifier_words(parts[i]);
    }
    assert forall|i: int| 0 <= i < n implies (word_ignore_case(#[trigger] parts[i], "ctrl"@)
        || word_ignore_case(parts[i], "control"@) || word_ignore_case(parts[i], "alt"@)
        || word_ignore_case(parts[i], "shift"@) || word_ignore_case(parts[i], "meta"@)
        || word_ignore_case(parts[i], "win"@)) by {
        lemma_modifier_words(parts[i]);
        assert(modifier_of(parts[i]) is Some);
    }
}

/// A word without `+` or surrounding whitespace, then `+`, then a hotkey text: the
/// parts are the word followed by the text's parts.
pub proof fn lemma_parts_after_word(w: Seq<char>, r: Seq<char>)
    requires
        forall|i: int| 0 <= i < w.len() ==> w[i] != '+',
        trim(w) == w,
    ensures
        hotkey_parts(w + seq!['+'] + r) == seq![w] + hotkey_parts(r),
{
    lemma_split_prefix(w, r, '+');
    crate::text::lemma_split_nonempty(r, '+');
    assert(hotkey_parts(w + seq!['+'] + r) =~= seq![w] + hotkey_parts(r));
}

/// A text that names a key has no `+` and no surrounding whitespace, and alone it
/// denotes that key with no modifier.
pub proof fn lemma_parse_key_alone(k: Seq<char>)
    requires
        key_of(k) is Some,
    ensures
        forall|i: int| 0 <= i < k.len() ==> k[i] != '+',
        trim(k) == k,
        parse_hotkey_spec(k) == Some(
            HotkeySpec { ctrl: false, alt: false, shift: false, meta: false, key: key_of(k).unwrap() },
        ),
{
    assert forall|i: int| 0 <= i < k.len() implies k[i] != '+' && !crate::text::is_ws(k[i]) by {
        if k.len() != 1 {
            if i > 0 {
                assert(k.skip(1)[i - 1] == k[i]);
            }
        }
    }
    assert(trim_start(k) == k);
    assert(trim_end(k) == k);
    lemma_split_no_sep(k, '+');
    assert(hotkey_parts(k) =~= seq![k]);
    let parts = hotkey_parts(k);
    assert(!names_modifier(parts, Modifier::Ctrl));
    assert(!names_modifier(parts, Modifier::Alt));
    assert(!names_modifier(parts, Modifier::Shift));
    assert(!names_modifier(parts, Modifier::Meta));
}

/// Putting a modifier word and `+` before a hotkey text adds that modifier and
/// keeps the rest.
pub proof fn lemma_parse_after_modifier(w: Seq<char>, m: Modifier, r: Seq<char>)
    requires
        forall|i: int| 0 <= i < w.len() ==> w[i] != '+',
        trim(w) == w,
        modifier_of(w) == Some(m),
        parse_hotkey_spec(r) is Some,
    ensures
        ({
            let h = parse_hotkey_spec(r).unwrap();
            parse_hotkey_spec(w + seq!['+'] + r) == Some(
                HotkeySpec {
                    ctrl: h.ctrl || m == Modifier::Ctrl,
                    alt: h.alt || m == Modifier::Alt,
                    shift: h.shift || m == Modifier::Shift,
                    meta: h.meta || m == Modifier::Meta,
                    key: h.key,
                },
            )
        }),
{
    lemma_parts_after_word(w, r);
    crate::text::lemma_split_nonempty(r, '+');
    let b = hotkey_parts(r);
    let a = hotkey_parts(w + seq!['+'] + r);
    assert(a == seq![w] + b);
    assert(a[a.len() - 1] == b[b.len() - 1]);
    assert forall|i: int| 0 <= i < a.len() - 1 implies modifier_of(#[trigger] a[i]) is Some by {
        if i > 0 {
            assert(a[i] == b[i - 1]);
        }
    }
    assert forall|x: Modifier| names_modifier(a, x) == (m == x || names_modifier(b, x)) by {
        if names_modifier(a, x) {
            let i = choose|i: int| 0 <= i < a.len() - 1 && modifier_of(#[trigger] a[i]) == Some(x);
            if i > 0 {
                assert(a[i] == b[i - 1]);
                assert(modifier_of(b[i - 1]) == Some(x));
            }
        }
        if names_modifier(b, x) {
            let j = choose|j: int| 0 <= j < b.len() - 1 && modifier_of(#[trigger] b[j]) == Some(x);
            assert(a[j + 1] == b[j]);
            assert(modifier_of(a[j + 1]) == Some(x));
        }
        if m == x {
            assert(modifier_of(a[0]) == Some(x));
        }
    }
}

/// Saving a hotkey into a configuration text that already sets one replaces every
/// line that sets it (one that begins with `hotkey` after its leading whitespace,
/// however the `=` is spaced) by `hotkey = "<hk>"`, keeps every other line as it
/// was and in order, and joins the lines with `\r\n`; so no line of the old
/// hotkey survives.
pub proof fn law_saving_replaces_hotkey_lines(content: Seq<char>, hk: Seq<char>)
    requires
        exists|i: int|
            0 <= i < lines(content).len() && starts_with(
                trim_start(#[trigger] lines(content)[i]),
                "hotkey"@,
            ),
    ensures
        exists|ms: Seq<Seq<char>>|
            {
                &&& apply_hotkey_spec(content, hk) == join(ms, "\r\n"@)
                &&& ms.len() == lines(content).len()
                &&& forall|i: int|
                    0 <= i < ms.len() && starts_with(trim_start(lines(content)[i]), "hotkey"@)
                        ==> #[trigger] ms[i] == "hotkey = \""@ + hk + "\""@
                &&& forall|i: int|
                    0 <= i < ms.len() && !starts_with(trim_start(lines(content)[i]), "hotkey"@)
                        ==> #[trigger] ms[i] == lines(content)[i]
            },
{
    let ls = lines(content);
    let i = choose|i: int|
        0 <= i < ls.len() && starts_with(trim_start(#[trigger] ls[i]), "hotkey"@);
    assert(is_hotkey_line(ls[i]));
    let ms = replace_hotkey_lines(ls, hotkey_line(hk));
    assert(apply_hotkey_spec(content, hk) == join(ms, "\r\n"@));
    assert(ms.len() == ls.len());
}

/// `t` occurs in `s` as a contiguous run.
pub open spec fn occurs_in(t: Seq<char>, s: Seq<char>) -> bool {
    exists|a: int| 0 <= a && a + t.len() <= s.len() && #[trigger] s.subrange(a, a + t.len()) == t
}

proof fn lemma_join_contains(parts: Seq<Seq<char>>, sep: Seq<char>, i: int)
    requires
        0 <= i < parts.len(),
    ensures
        occurs_in(parts[i], join(parts, sep)),
    decreases parts.len(),
{
    let j = join(parts, sep);
    let t = parts[i];
    if parts.len() == 1 {
        let a: int = 0;
        assert(j.subrange(a, a + t.len()) =~= t);
    } else if i == parts.len() - 1 {
        let a: int = (join(parts.drop_last(), sep) + sep).len() as int;
        assert(j.subrange(a, a + t.len()) =~= t);
    } else {
        lemma_join_contains(parts.drop_last(), sep, i);
        let jd = join(parts.drop_last(), sep);
        assert(parts.drop_last()[i] == t);
        let a = choose|a: int|
            0 <= a && a + t.len() <= jd.len() && #[trigger] jd.subrange(a, a + t.len()) == t;
        assert(j.subrange(a, a + t.len()) =~= jd.subrange(a, a + t.len()));
    }
}

/// After the hotkey is saved, the configuration text holds the line that sets it.
pub proof fn law_hotkey_line_present(content: Seq<char>, hk: Seq<char>)
    ensures
        occurs_in(hotkey_line(hk), apply_hotkey_spec(content, hk)),
{
    let ls = lines(content);
    let line = hotkey_line(hk);
    let r = apply_hotkey_spec(content, hk);
    if exists|i: int| 0 <= i < ls.len() && is_hotkey_line(#[trigger] ls[i]) {
        let i = choose|i: int| 0 <= i < ls.len() && is_hotkey_line(#[trigger] ls[i]);
        let m = replace_hotkey_lines(ls, line);
        assert(m[i] == line);
        lemma_join_contains(m, "\r\n"@, i);
    } else {
        reveal_strlit("\n");
        let a: int = (trim_end(content) + "\n"@).len() as int;
        assert(r.subrange(a, a + line.len()) =~= line);
    }
}

} // verus!
