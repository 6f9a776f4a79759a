//! Plain-text normalisation: spacing between Latin and Han runs, and
//! collapsing of white space.
use vstd::prelude::*;

verus! {

/// Latin letters as the spacing rule sees them: ASCII `a-z` and `A-Z`.
pub open spec fn is_latin(c: char) -> bool {
    let n = c as u32;
    (97 <= n && n <= 122) || (65 <= n && n <= 90)
}

/// Characters with the Unicode `White_Space` property.
pub open spec fn is_white_space(c: char) -> bool {
    let n = c as u32;
    (0x09 <= n && n <= 0x0d) || n == 0x20 || n == 0x85 || n == 0xa0 || n == 0x1680
        || (0x2000 <= n && n <= 0x200a) || n == 0x2028 || n == 0x2029 || n == 0x202f
        || n == 0x205f || n == 0x3000
}

/// Whether `c` is listed in the Unicode `Script=Han` table.
pub uninterp spec fn in_han_script(c: char) -> bool;

/// The only code points that the Han table covers: a few ranges below
/// U+3400 (radicals, U+3005, U+3007, Hangzhou numerals, U+3038..U+303B) and
/// part of what lies above. ASCII and every white space character are outside.
pub open spec fn han_range(c: char) -> bool {
    let n = c as u32;
    (0x2e80 <= n && n <= 0x2fd5) || n == 0x3005 || n == 0x3007 || (0x3021 <= n && n <= 0x3029)
        || (0x3038 <= n && n <= 0x303b) || n >= 0x3400
}

/// Whether `c` belongs to the Han script.
pub open spec fn is_han(c: char) -> bool {
    han_range(c) && in_han_script(c)
}

/// Two neighbours that get a space between them: a Latin letter and a Han
/// character, in either order.
pub open spec fn mixed_pair(a: char, b: char) -> bool {
    (is_latin(a) && is_han(b)) || (is_han(a) && is_latin(b))
}

/// `s` with a space inserted between every mixed pair of neighbours.
pub open spec fn spaced(s: Seq<char>) -> Seq<char>
    decreases s.len(),
{
    if s.len() <= 1 {
        s
    } else {
        let p = s.drop_last();
        if mixed_pair(p.last(), s.last()) {
            spaced(p) + seq![' ', s.last()]
        } else {
            spaced(p).push(s.last())
        }
    }
}

/// `t` with every maximal run of white space replaced by one space.
pub open spec fn collapsed(t: Seq<char>) -> Seq<char>
    decreases t.len(),
{
    if t.len() == 0 {
        t
    } else {
        let p = t.drop_last();
        if !is_white_space(t.last()) {
            collapsed(p).push(t.last())
        } else if p.len() > 0 && is_white_space(p.last()) {
            collapsed(p)
        } else {
            collapsed(p).push(' ')
        }
    }
}

/// The normalised form of a text: spaced, then collapsed.
pub open spec fn normalize_spacing(s: Seq<char>) -> Seq<char> {
    collapsed(spaced(s))
}

/// Whether `c` is an ASCII letter.
pub fn latin(c: char) -> (r: bool)
    ensures
        r == is_latin(c),
{
    let n = c as u32;
    (97 <= n && n <= 122) || (65 <= n && n <= 90)
}

/// Whether `c` is white space in the Unicode sense.
pub fn white_space(c: char) -> (r: bool)
    ensures
        r == is_white_space(c),
{
    let n = c as u32;
    (0x09 <= n && n <= 0x0d) || n == 0x20 || n == 0x85 || n == 0xa0 || n == 0x1680 || (0x2000
        <= n && n <= 0x200a) || n == 0x2028 || n == 0x2029 || n == 0x202f || n == 0x205f || n
        == 0x3000
}

/// Relies on regex's `\p{Han}` class (Unicode `Script=Han`, whose table in
/// regex-syntax lies within `han_range`): marks which characters of `cs` are
/// Han.
#[verifier::external_body]
pub(crate) fn han_marks(cs: &Vec<char>) -> (r: Vec<bool>)
    ensures
        r@.len() == cs@.len(),
        forall|i: int|
            0 <= i < cs@.len() ==> r@[i] == (han_range(#[trigger] cs@[i]) && in_han_script(cs@[i])),
{
    let re = regex::Regex::new(r"^\p{Han}$").unwrap();
    let mut buf = [0u8; 4];
    cs.iter().map(|c| re.is_match(c.encode_utf8(&mut buf))).collect()
}

/// The characters of `s` in order.
pub(crate) fn chars_of(s: &str) -> (r: Vec<char>)
    ensures
        r@ == s@,
{
    let mut v: Vec<char> = Vec::new();
    for c in it: s.chars()
        invariant
            it.seq() == s@,
            v@ == it.seq().take(it.index() as int),
    {
        v.push(c);
        assert(v@ =~= it.seq().take(it.index() as int + 1));
    }
    assert(v@ =~= s@);
    v
}

/// Relies on collecting characters into a `String`.
#[verifier::external_body]
pub(crate) fn string_of(cs: &Vec<char>) -> (r: String)
    ensures
        r@ == cs@,
{
    cs.iter().collect()
}

fn spaced_chars(cs: &Vec<char>) -> (r: Vec<char>)
    ensures
        r@ == spaced(cs@),
{
    let han = han_marks(cs);
    let mut out: Vec<char> = Vec::new();
    if cs.len() == 0 {
        return out;
    }
    out.push(cs[0]);
    assert(cs@.take(1) =~= seq![cs@[0]]);
    let mut i: usize = 1;
    while i < cs.len()
        invariant
            1 <= i <= cs@.len(),
            han@.len() == cs@.len(),
            forall|k: int| 0 <= k < cs@.len() ==> han@[k] == is_han(#[trigger] cs@[k]),
            out@ == spaced(cs@.take(i as int)),
        decreases cs@.len() - i,
    {
        let a = cs[i - 1];
        let b = cs[i];
        let mixed = (latin(a) && han[i]) || (han[i - 1] && latin(b));
        assert(cs@.take(i as int + 1).drop_last() =~= cs@.take(i as int));
        if mixed {
            out.push(' ');
        }
        out.push(b);
        i += 1;
    }
    assert(cs@.take(cs@.len() as int) =~= cs@);
    out
}

fn collapsed_chars(t: &Vec<char>) -> (r: Vec<char>)
    ensures
        r@ == collapsed(t@),
{
    let mut out: Vec<char> = Vec::new();
    let mut i: usize = 0;
    assert(t@.take(0) =~= Seq::<char>::empty());
    while i < t.len()
        invariant
            i <= t@.len(),
            out@ == collapsed(t@.take(i as int)),
        decreases t@.len() - i,
    {
        let c = t[i];
        assert(t@.take(i as int + 1).drop_last() =~= t@.take(i as int));
        if !white_space(c) {
            out.push(c);
        } else if i > 0 && white_space(t[i - 1]) {
        } else {
            out.push(' ');
        }
        i += 1;
    }
    assert(t@.take(t@.len() as int) =~= t@);
    out
}

/// Normalises spacing: a space between a Latin letter and a neighbouring Han
/// character, and each run of white space collapsed to one space.
pub fn preprocess_text(text: &str) -> (r: String)
    ensures
        r@ == normalize_spacing(text@),
{
    let cs = chars_of(text);
    let sp = spaced_chars(&cs);
    let co = collapsed_chars(&sp);
    string_of(&co)
}

} // verus!
