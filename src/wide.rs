//! Wide strings: text as the system's wide-character entry points take it.
use vstd::prelude::*;

verus! {

/// The UTF-16 code units of one character.
pub open spec fn utf16_units(c: char) -> Seq<u16> {
    let v = c as u32;
    if v < 0x10000 {
        seq![v as u16]
    } else {
        seq![(0xD800 + (v - 0x10000) / 0x400) as u16, (0xDC00 + (v - 0x10000) % 0x400) as u16]
    }
}

/// The UTF-16 code units of a text.
pub open spec fn utf16_of(s: Seq<char>) -> Seq<u16>
    decreases s.len(),
{
    if s.len() == 0 {
        Seq::empty()
    } else {
        utf16_of(s.drop_last()) + utf16_units(s.last())
    }
}

fn push_units(out: &mut Vec<u16>, c: char)
    ensures
        final(out)@ == old(out)@ + utf16_units(c),
{
    let v = c as u32;
    if v < 0x10000 {
        out.push(v as u16);
    } else {
        assert(v <= 0x10FFFF);
        let u = v - 0x10000;
        out.push((0xD800 + u / 0x400) as u16);
        out.push((0xDC00 + u % 0x400) as u16);
    }
    assert(final(out)@ =~= old(out)@ + utf16_units(c));
}

/// `s` in UTF-16, terminated by a zero code unit.
pub fn to_wstring(s: &str) -> (r: Vec<u16>)
    ensures
        r@ == utf16_of(s@).push(0),
{
    let n = s.unicode_len();
    let mut out: Vec<u16> = Vec::new();
    let mut i: usize = 0;
    while i < n
        invariant
            n == s@.len(),
            0 <= i <= n,
            out@ == utf16_of(s@.subrange(0, i as int)),
        decreases n - i,
    {
        let c = s.get_char(i);
        push_units(&mut out, c);
        assert(s@.subrange(0, i + 1).drop_last() =~= s@.subrange(0, i as int));
        i = i + 1;
    }
    assert(s@.subrange(0, n as int) =~= s@);
    out.push(0);
    out
}

/// How many of `len` code units fit a buffer of `capacity` units that must
/// also hold a terminating zero: at most `capacity - 1`.
pub fn copy_length(capacity: usize, len: usize) -> (r: usize)
    requires
        capacity > 0,
    ensures
        r == if capacity - 1 < len {
            capacity - 1
        } else {
            len as int
        },
{
    if capacity - 1 < len {
        capacity - 1
    } else {
        len
    }
}

/// What to write into a buffer of `capacity` code units so that it holds `s`
/// as a zero-terminated wide string, cut short to fit, and how many code
/// units of `s` that is. A buffer with no room receives nothing.
pub fn wide_copy(capacity: usize, s: &str) -> (r: (Vec<u16>, usize))
    ensures
        capacity == 0 ==> r.0@.len() == 0 && r.1 == 0,
        capacity > 0 ==> {
            &&& r.1 as int == if capacity - 1 < utf16_of(s@).len() {
                capacity - 1
            } else {
                utf16_of(s@).len() as int
            }
            &&& r.0@ == utf16_of(s@).take(r.1 as int).push(0)
        },
{
    if capacity == 0 {
        return (Vec::new(), 0);
    }
    let w = to_wstring(s);
    let n = copy_length(capacity, w.len() - 1);
    let mut out: Vec<u16> = Vec::new();
    let mut k: usize = 0;
    while k < n
        invariant
            w@ == utf16_of(s@).push(0),
            n <= utf16_of(s@).len(),
            0 <= k <= n,
            out@ == utf16_of(s@).take(k as int),
        decreases n - k,
    {
        out.push(w[k]);
        assert(out@ =~= utf16_of(s@).take(k + 1));
        k = k + 1;
    }
    out.push(0);
    (out, n)
}

} // verus!
