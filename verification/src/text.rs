//! Character-level text helpers with the semantics of Rust's `str` methods.
use vstd::prelude::*;

verus! {

/// Rust's `char::is_whitespace`: membership in the Unicode `White_Space` property.
pub open spec fn is_ws(c: char) -> bool {
    let u = c as u32;
    ||| 0x09 <= u <= 0x0D
    ||| u == 0x20
    ||| u == 0x85
    ||| u == 0xA0
    ||| u == 0x1680
    ||| 0x2000 <= u <= 0x200A
    ||| u == 0x2028
    ||| u == 0x2029
    ||| u == 0x202F
    ||| u == 0x205F
    ||| u == 0x3000
}

pub fn is_whitespace(c: char) -> (r: bool)
    ensures
        r == is_ws(c),
{
    let u = c as u32;
    (0x09 <= u && u <= 0x0D) || u == 0x20 || u == 0x85 || u == 0xA0 || u == 0x1680 || (0x2000
        <= u && u <= 0x200A) || u == 0x2028 || u == 0x2029 || u == 0x202F || u == 0x205F || u
        == 0x3000
}

/// `str::trim_start`.
pub open spec fn trim_start(s: Seq<char>) -> Seq<char>
    decreases s.len(),
{
    if s.len() > 0 && is_ws(s[0]) {
        trim_start(s.drop_first())
    } else {
        s
    }
}

/// `str::trim_end`.
pub open spec fn trim_end(s: Seq<char>) -> Seq<char>
    decreases s.len(),
{
    if s.len() > 0 && is_ws(s.last()) {
        trim_end(s.drop_last())
    } else {
        s
    }
}

/// `str::trim`.
pub open spec fn trim(s: Seq<char>) -> Seq<char> {
    trim_end(trim_start(s))
}

/// `str::starts_with` with a text pattern.
pub open spec fn starts_with(s: Seq<char>, p: Seq<char>) -> bool {
    p.len() <= s.len() && s.take(p.len() as int) == p
}

/// The characters of `s`.
pub fn chars_of(s: &str) -> (r: Vec<char>)
    ensures
        r@ == s@,
{
    let mut r: Vec<char> = Vec::new();
    for c in it: s.chars()
        invariant
            r@ == it.seq().take(it.index() as int),
    {
        r.push(c);
    }
    r
}


/// The `String` of these characters, by `String::from_iter` (`FromIterator<&char>`),
/// which yields them in order.
#[verifier::external_body]
pub fn string_of(v: &[char]) -> (r: String)
    ensures
        r@ == v@,
{
    String::from_iter(v)
}

/// The characters `s[a..b]`.
pub fn slice_chars(s: &[char], a: usize, b: usize) -> (r: Vec<char>)
    requires
        a <= b <= s@.len(),
    ensures
        r@ == s@.subrange(a as int, b as int),
{
    let mut r: Vec<char> = Vec::new();
    let mut i = a;
    while i < b
        invariant
            a <= i <= b <= s@.len(),
            r@ == s@.subrange(a as int, i as int),
        decreases b - i,
    {
        r.push(s[i]);
        i = i + 1;
    }
    r
}

/// Appends `src` to `dst`.
pub fn push_all(dst: &mut Vec<char>, src: &[char])
    ensures
        final(dst)@ == old(dst)@ + src@,
{
    let mut i: usize = 0;
    while i < src.len()
        invariant
            i <= src@.len(),
            dst@ == old(dst)@ + src@.take(i as int),
        decreases src.len() - i,
    {
        dst.push(src[i]);
        i = i + 1;
        assert(src@.take(i as int) == src@.take(i - 1).push(src@[i - 1]));
    }
    assert(src@.take(src@.len() as int) == src@);
}

proof fn lemma_trim_start_skip(s: Seq<char>, i: int)
    requires
        0 <= i < s.len(),
        is_ws(s[i]),
    ensures
        trim_start(s.skip(i)) == trim_start(s.skip(i + 1)),
{
    assert(s.skip(i).drop_first() == s.skip(i + 1));
}

/// Number of leading whitespace characters: `trim_start(s) == s[n..]`.
pub fn leading_ws(s: &[char]) -> (n: usize)
    ensures
        n <= s@.len(),
        trim_start(s@) == s@.skip(n as int),
{
    let mut i: usize = 0;
    assert(s@.skip(0) == s@);
    while i < s.len() && is_whitespace(s[i])
        invariant
            i <= s@.len(),
            trim_start(s@) == trim_start(s@.skip(i as int)),
        decreases s.len() - i,
    {
        proof {
            lemma_trim_start_skip(s@, i as int);
        }
        i = i + 1;
    }
    i
}

proof fn lemma_trim_end_take(s: Seq<char>, a: int, j: int)
    requires
        0 <= a < j <= s.len(),
        is_ws(s[j - 1]),
    ensures
        trim_end(s.subrange(a, j)) == trim_end(s.subrange(a, j - 1)),
{
    assert(s.subrange(a, j).drop_last() == s.subrange(a, j - 1));
}

/// End of `s[a..]` once trailing whitespace is removed: `trim_end(s[a..]) == s[a..n]`.
pub fn trailing_end(s: &[char], a: usize) -> (n: usize)
    requires
        a <= s@.len(),
    ensures
        a <= n <= s@.len(),
        trim_end(s@.subrange(a as int, s@.len() as int)) == s@.subrange(a as int, n as int),
{
    let mut j: usize = s.len();
    while j > a && is_whitespace(s[j - 1])
        invariant
            a <= j <= s@.len(),
            trim_end(s@.subrange(a as int, s@.len() as int)) == trim_end(
                s@.subrange(a as int, j as int),
            ),
        decreases j,
    {
        proof {
            lemma_trim_end_take(s@, a as int, j as int);
        }
        j = j - 1;
    }
    j
}

/// `str::trim_start`.
pub fn trim_start_chars(s: &[char]) -> (r: Vec<char>)
    ensures
        r@ == trim_start(s@),
{
    let a = leading_ws(s);
    slice_chars(s, a, s.len())
}

/// `str::trim_end`.
pub fn trim_end_chars(s: &[char]) -> (r: Vec<char>)
    ensures
        r@ == trim_end(s@),
{
    let b = trailing_end(s, 0);
    assert(s@.subrange(0, s@.len() as int) == s@);
    slice_chars(s, 0, b)
}

/// `str::trim`.
pub fn trim_chars(s: &[char]) -> (r: Vec<char>)
    ensures
        r@ == trim(s@),
{
    let a = leading_ws(s);
    let b = trailing_end(s, a);
    assert(s@.skip(a as int) == s@.subrange(a as int, s@.len() as int));
    slice_chars(s, a, b)
}

/// `str::trim` on a `&str`, giving an owned `String`.
pub fn trim_str(s: &str) -> (r: String)
    ensures
        r@ == trim(s@),
{
    let v = chars_of(s);
    let t = trim_chars(v.as_slice());
    string_of(t.as_slice())
}

/// Whether `s` begins with `p`.
pub fn has_prefix(s: &[char], p: &[char]) -> (r: bool)
    ensures
        r == starts_with(s@, p@),
{
    if p.len() > s.len() {
        return false;
    }
    let mut i: usize = 0;
    while i < p.len()
        invariant
            i <= p@.len() <= s@.len(),
            forall|k: int| 0 <= k < i ==> s@[k] == p@[k],
        decreases p.len() - i,
    {
        if s[i] != p[i] {
            assert(s@.take(p@.len() as int)[i as int] != p@[i as int]);
            return false;
        }
        i = i + 1;
    }
    assert(s@.take(p@.len() as int) =~= p@);
    true
}

/// Equality of two character sequences.
pub fn same_chars(a: &[char], b: &[char]) -> (r: bool)
    ensures
        r == (a@ == b@),
{
    if a.len() != b.len() {
        return false;
    }
    let r = has_prefix(a, b);
    assert(a@.take(b@.len() as int) == a@);
    r
}


/// The views of a sequence of character vectors.
pub open spec fn views(v: Seq<Vec<char>>) -> Seq<Seq<char>> {
    v.map_values(|x: Vec<char>| x@)
}

/// `str::split` by one separator character: the pieces between separators, always
/// at least one.
pub open spec fn split(s: Seq<char>, sep: char) -> Seq<Seq<char>>
    decreases s.len(),
{
    if s.len() == 0 {
        seq![Seq::<char>::empty()]
    } else {
        let prev = split(s.drop_last(), sep);
        if s.last() == sep {
            prev.push(Seq::<char>::empty())
        } else {
            prev.update(prev.len() - 1, prev.last().push(s.last()))
        }
    }
}

/// Removes one trailing carriage return.
pub open spec fn strip_cr(l: Seq<char>) -> Seq<char> {
    if l.len() > 0 && l.last() == '\r' {
        l.drop_last()
    } else {
        l
    }
}

/// `str::lines`: pieces ended by `\n` (with a `\r` before it removed), then the
/// unterminated rest if it is not empty.
pub open spec fn lines(s: Seq<char>) -> Seq<Seq<char>> {
    let p = split(s, '\n');
    let n = p.len() - 1;
    let body = Seq::new(n as nat, |i: int| strip_cr(p[i]));
    if p[n].len() == 0 {
        body
    } else {
        body.push(p[n])
    }
}

/// `[T]::join` on character sequences.
pub open spec fn join(parts: Seq<Seq<char>>, sep: Seq<char>) -> Seq<char>
    decreases parts.len(),
{
    if parts.len() == 0 {
        Seq::<char>::empty()
    } else if parts.len() == 1 {
        parts[0]
    } else {
        join(parts.drop_last(), sep) + sep + parts.last()
    }
}

pub proof fn lemma_split_nonempty(s: Seq<char>, sep: char)
    ensures
        split(s, sep).len() >= 1,
    decreases s.len(),
{
    if s.len() > 0 {
        lemma_split_nonempty(s.drop_last(), sep);
    }
}

/// Splits `s` at every `sep`.
pub fn split_chars(s: &[char], sep: char) -> (r: Vec<Vec<char>>)
    ensures
        views(r@) == split(s@, sep),
{
    let mut done: Vec<Vec<char>> = Vec::new();
    let mut cur: Vec<char> = Vec::new();
    let mut i: usize = 0;
    assert(s@.take(0) =~= Seq::<char>::empty());
    assert(views(done@).push(cur@) =~= split(s@.take(0), sep));
    while i < s.len()
        invariant
            i <= s@.len(),
            views(done@).push(cur@) == split(s@.take(i as int), sep),
        decreases s.len() - i,
    {
        let c = s[i];
        proof {
            let t = s@.take(i as int + 1);
            assert(t.drop_last() =~= s@.take(i as int));
            assert(t.last() == c);
        }
        if c == sep {
            let old_cur = cur;
            done.push(old_cur);
            cur = Vec::new();
            assert(views(done@).push(cur@) =~= views(done@).drop_last().push(
                done@.last()@,
            ).push(Seq::<char>::empty()));
            assert(views(done@).drop_last() =~= views(done@.drop_last()));
        } else {
            let ghost before = views(done@).push(cur@);
            cur.push(c);
            assert(views(done@).push(cur@) =~= before.update(
                before.len() - 1,
                before.last().push(c),
            ));
        }
        i = i + 1;
    }
    assert(s@.take(s@.len() as int) =~= s@);
    let last = cur;
    done.push(last);
    assert(views(done@) =~= views(done@.drop_last()).push(last@));
    done
}

/// Removes one trailing carriage return.
pub fn strip_cr_chars(l: Vec<char>) -> (r: Vec<char>)
    ensures
        r@ == strip_cr(l@),
{
    let mut l = l;
    if l.len() > 0 && l[l.len() - 1] == '\r' {
        l.pop();
    }
    l
}

/// `str::lines`.
pub fn lines_chars(s: &[char]) -> (r: Vec<Vec<char>>)
    ensures
        views(r@) == lines(s@),
{
    let pieces = split_chars(s, '\n');
    let ghost p = split(s@, '\n');
    proof {
        lemma_split_nonempty(s@, '\n');
    }
    let n = pieces.len() - 1;
    let mut r: Vec<Vec<char>> = Vec::new();
    let mut i: usize = 0;
    while i < n
        invariant
            n + 1 == pieces@.len() == p.len(),
            views(pieces@) == p,
            i <= n,
            views(r@) =~= Seq::new(i as nat, |k: int| strip_cr(p[k])),
        decreases n - i,
    {
        let piece = slice_chars(pieces[i].as_slice(), 0, pieces[i].len());
        let ghost pi = pieces@[i as int]@;
        assert(pi.subrange(0, pi.len() as int) =~= pi);
        assert(piece@ == p[i as int]);
        let line = strip_cr_chars(piece);
        let ghost before = r@;
        r.push(line);
        assert(views(r@) =~= views(before).push(strip_cr(p[i as int])));
        i = i + 1;
    }
    if pieces[n].len() != 0 {
        let rest = slice_chars(pieces[n].as_slice(), 0, pieces[n].len());
        let ghost pn = pieces@[n as int]@;
        assert(pn.subrange(0, pn.len() as int) =~= pn);
        r.push(rest);
        assert(views(r@) =~= Seq::new(n as nat, |k: int| strip_cr(p[k])).push(p[n as int]));
    } else {
        assert(p[n as int].len() == 0);
    }
    r
}

/// Joins character sequences with `sep` between neighbours.
pub fn join_chars(parts: &Vec<Vec<char>>, sep: &[char]) -> (r: Vec<char>)
    ensures
        r@ == join(views(parts@), sep@),
{
    let mut r: Vec<char> = Vec::new();
    let mut i: usize = 0;
    while i < parts.len()
        invariant
            i <= parts@.len(),
            r@ == join(views(parts@.take(i as int)), sep@),
        decreases parts.len() - i,
    {
        let ghost before = r@;
        let ghost q = views(parts@.take(i as int + 1));
        assert(q.drop_last() =~= views(parts@.take(i as int)));
        assert(q.last() == parts@[i as int]@);
        if i > 0 {
            push_all(&mut r, sep);
        }
        push_all(&mut r, parts[i].as_slice());
        proof {
            if i == 0 {
                assert(r@ =~= q[0]);
            } else {
                assert(r@ =~= before + sep@ + q.last());
            }
        }
        i = i + 1;
    }
    assert(parts@.take(parts@.len() as int) =~= parts@);
    r
}


/// `str::replace("\r\n", "\n")`.
pub open spec fn crlf_to_lf(s: Seq<char>) -> Seq<char>
    decreases s.len(),
{
    if s.len() == 0 {
        s
    } else if s.len() >= 2 && s[0] == '\r' && s[1] == '\n' {
        seq!['\n'] + crlf_to_lf(s.skip(2))
    } else {
        seq![s[0]] + crlf_to_lf(s.skip(1))
    }
}

/// `str::replace('\n', "\r\n")`.
pub open spec fn lf_to_crlf(s: Seq<char>) -> Seq<char>
    decreases s.len(),
{
    if s.len() == 0 {
        s
    } else if s[0] == '\n' {
        seq!['\r', '\n'] + lf_to_crlf(s.skip(1))
    } else {
        seq![s[0]] + lf_to_crlf(s.skip(1))
    }
}

proof fn lemma_lf_to_crlf_head(s: Seq<char>)
    ensures
        lf_to_crlf(s).len() == 0 <==> s.len() == 0,
        lf_to_crlf(s).len() > 0 ==> lf_to_crlf(s)[0] != '\n',
{
}

/// Showing a text with `\r\n` line breaks and reading it back with `\n` ones gives
/// the text again.
pub proof fn law_line_breaks_round_trip(s: Seq<char>)
    ensures
        crlf_to_lf(lf_to_crlf(s)) == s,
    decreases s.len(),
{
    if s.len() > 0 {
        let rest = s.skip(1);
        law_line_breaks_round_trip(rest);
        lemma_lf_to_crlf_head(rest);
        let y = lf_to_crlf(rest);
        if s[0] == '\n' {
            let t = seq!['\r', '\n'] + y;
            assert(t.skip(2) =~= y);
            assert(crlf_to_lf(t) == seq!['\n'] + crlf_to_lf(y));
        } else {
            let t = seq![s[0]] + y;
            assert(t.skip(1) =~= y);
            assert(crlf_to_lf(t) == seq![s[0]] + crlf_to_lf(y));
        }
        assert(seq![s[0]] + rest =~= s);
    }
}

/// Replaces every `\r\n` with `\n`.
pub fn crlf_to_lf_str(s: &str) -> (r: String)
    ensures
        r@ == crlf_to_lf(s@),
{
    let c = chars_of(s);
    let mut out: Vec<char> = Vec::new();
    let mut i: usize = 0;
    assert(c@.skip(0) =~= c@);
    while i < c.len()
        invariant
            i <= c@.len(),
            out@ + crlf_to_lf(c@.skip(i as int)) == crlf_to_lf(c@),
        decreases c.len() - i,
    {
        let ghost rest = c@.skip(i as int);
        if i + 1 < c.len() && c[i] == '\r' && c[i + 1] == '\n' {
            assert(rest.skip(2) =~= c@.skip(i + 2));
            out.push('\n');
            assert(out@ + crlf_to_lf(c@.skip(i + 2)) =~= out@.drop_last() + crlf_to_lf(rest));
            i = i + 2;
        } else {
            assert(rest.skip(1) =~= c@.skip(i + 1));
            out.push(c[i]);
            assert(out@ + crlf_to_lf(c@.skip(i + 1)) =~= out@.drop_last() + crlf_to_lf(rest));
            i = i + 1;
        }
    }
    assert(c@.skip(c@.len() as int) =~= Seq::<char>::empty());
    assert(out@ =~= out@ + crlf_to_lf(c@.skip(i as int)));
    string_of(out.as_slice())
}

/// Replaces every `\n` with `\r\n`.
pub fn lf_to_crlf_str(s: &str) -> (r: String)
    ensures
        r@ == lf_to_crlf(s@),
{
    let c = chars_of(s);
    let mut out: Vec<char> = Vec::new();
    let mut i: usize = 0;
    assert(c@.skip(0) =~= c@);
    while i < c.len()
        invariant
            i <= c@.len(),
            out@ + lf_to_crlf(c@.skip(i as int)) == lf_to_crlf(c@),
        decreases c.len() - i,
    {
        let ghost rest = c@.skip(i as int);
        let ghost before = out@;
        assert(rest.skip(1) =~= c@.skip(i + 1));
        if c[i] == '\n' {
            out.push('\r');
            out.push('\n');
        } else {
            out.push(c[i]);
        }
        assert(out@ + lf_to_crlf(c@.skip(i + 1)) =~= before + lf_to_crlf(rest));
        i = i + 1;
    }
    assert(c@.skip(c@.len() as int) =~= Seq::<char>::empty());
    assert(out@ =~= out@ + lf_to_crlf(c@.skip(i as int)));
    string_of(out.as_slice())
}

} // verus!
