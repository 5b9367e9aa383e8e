//! Character-level helpers shared by every module: strings are reasoned
//! about as `Seq<char>`, the view vstd gives `String` and `str`.

use vstd::prelude::*;

verus! {

/// `String::push`, which vstd leaves without a specification: the string
/// grows by exactly one character at its end.
#[verifier::external_body]
pub(crate) fn push_char(s: &mut String, c: char)
    ensures
        final(s)@ == old(s)@.push(c),
{
    s.push(c);
}

/// The characters of `s`, in order.
pub fn chars_of(s: &str) -> (r: Vec<char>)
    ensures
        r@ == s@,
{
    let mut r: Vec<char> = Vec::new();
    for c in it: s.chars()
        invariant
            r@ == it.seq().take(it.index() as int),
            it.seq() == s@,
    {
        r.push(c);
    }
    r
}

/// Appends the characters `chars[from..to]` to `s`.
pub fn push_chars(s: &mut String, chars: &Vec<char>, from: usize, to: usize)
    requires
        from <= to <= chars@.len(),
    ensures
        final(s)@ == old(s)@ + chars@.subrange(from as int, to as int),
{
    let mut i = from;
    while i < to
        invariant
            from <= i <= to <= chars@.len(),
            s@ == old(s)@ + chars@.subrange(from as int, i as int),
        decreases to - i,
    {
        push_char(s, chars[i]);
        assert(chars@.subrange(from as int, i + 1) == chars@.subrange(from as int, i as int).push(
            chars@[i as int],
        ));
        i += 1;
    }
}

/// A `String` holding exactly `chars`.
pub fn string_of(chars: &Vec<char>) -> (r: String)
    ensures
        r@ == chars@,
{
    let mut r = String::new();
    push_chars(&mut r, chars, 0, chars.len());
    assert(chars@.subrange(0, chars@.len() as int) == chars@);
    r
}

/// A `String` holding the characters `chars[from..to]`.
pub fn substring(chars: &Vec<char>, from: usize, to: usize) -> (r: String)
    requires
        from <= to <= chars@.len(),
    ensures
        r@ == chars@.subrange(from as int, to as int),
{
    let mut r = String::new();
    push_chars(&mut r, chars, from, to);
    r
}

/// An owned copy of `s`.
pub fn owned(s: &str) -> (r: String)
    ensures
        r@ == s@,
{
    s.to_owned()
}

/// `a` followed by `b`.
pub fn concat(a: &str, b: &str) -> (r: String)
    ensures
        r@ == a@ + b@,
{
    let mut r = a.to_owned();
    r.append(b);
    r
}

/// Whether two strings hold the same characters.
pub fn str_eq(a: &str, b: &str) -> (r: bool)
    ensures
        r == (a@ == b@),
{
    let x = a.to_owned();
    let y = b.to_owned();
    x == y
}

/// Whether `s` contains the character `c`.
pub fn contains_char(s: &str, c: char) -> (r: bool)
    ensures
        r == s@.contains(c),
{
    let chars = chars_of(s);
    let mut i: usize = 0;
    while i < chars.len()
        invariant
            0 <= i <= chars@.len(),
            chars@ == s@,
            forall|j: int| 0 <= j < i ==> chars@[j] != c,
        decreases chars@.len() - i,
    {
        if chars[i] == c {
            assert(s@[i as int] == c);
            return true;
        }
        i += 1;
    }
    false
}

/// The decimal digit for `d < 10`.
pub open spec fn digit_char(d: nat) -> char {
    if d == 0 {
        '0'
    } else if d == 1 {
        '1'
    } else if d == 2 {
        '2'
    } else if d == 3 {
        '3'
    } else if d == 4 {
        '4'
    } else if d == 5 {
        '5'
    } else if d == 6 {
        '6'
    } else if d == 7 {
        '7'
    } else if d == 8 {
        '8'
    } else {
        '9'
    }
}

/// The decimal rendering of a natural number, most significant digit first,
/// with no leading zero (`0` renders as `"0"`).
pub open spec fn decimal(n: nat) -> Seq<char>
    decreases n,
{
    if n < 10 {
        seq![digit_char(n)]
    } else {
        decimal(n / 10).push(digit_char(n % 10))
    }
}

/// The decimal rendering of an integer, with a leading `-` when negative.
pub open spec fn signed_decimal(n: int) -> Seq<char> {
    if n < 0 {
        seq!['-'] + decimal((-n) as nat)
    } else {
        decimal(n as nat)
    }
}

fn digit(d: u64) -> (c: char)
    requires
        d < 10,
    ensures
        c == digit_char(d as nat),
{
    match d {
        0 => '0',
        1 => '1',
        2 => '2',
        3 => '3',
        4 => '4',
        5 => '5',
        6 => '6',
        7 => '7',
        8 => '8',
        _ => '9',
    }
}

/// Appends the decimal rendering of `n` to `s`.
pub fn push_decimal(s: &mut String, n: u64)
    ensures
        final(s)@ == old(s)@ + decimal(n as nat),
    decreases n,
{
    if n >= 10 {
        push_decimal(s, n / 10);
    }
    push_char(s, digit(n % 10));
}

/// The decimal rendering of `n`.
pub fn decimal_string(n: u64) -> (r: String)
    ensures
        r@ == decimal(n as nat),
{
    let mut s = String::new();
    push_decimal(&mut s, n);
    s
}

/// Appends the decimal rendering of a signed `n` to `s`.
pub fn push_signed_decimal(s: &mut String, n: i64)
    ensures
        final(s)@ == old(s)@ + signed_decimal(n as int),
{
    if n < 0 {
        push_char(s, '-');
        let magnitude: u64 = if n == i64::MIN {
            9223372036854775808u64
        } else {
            (-n) as u64
        };
        push_decimal(s, magnitude);
        assert(s@ == old(s)@ + (seq!['-'] + decimal((-n) as nat)));
    } else {
        push_decimal(s, n as u64);
    }
}

/// Whether `c` is a control character (Unicode general category Cc):
/// U+0000 to U+001F and U+007F to U+009F.
pub open spec fn is_control(c: char) -> bool {
    (c as u32) < 0x20 || (0x7f <= (c as u32) && (c as u32) <= 0x9f)
}

pub fn char_is_control(c: char) -> (r: bool)
    ensures
        r == is_control(c),
{
    let v = c as u32;
    v < 0x20 || (0x7f <= v && v <= 0x9f)
}

/// The index of the first `c` in `s`, if any.
pub open spec fn index_of(s: Seq<char>, c: char) -> Option<int> {
    if exists|i: int| 0 <= i < s.len() && s[i] == c {
        Some(choose|i: int| 0 <= i < s.len() && s[i] == c && forall|j: int| 0 <= j < i ==> s[j] != c)
    } else {
        None
    }
}

/// The first line of `s` as `str::lines` yields it: everything before the
/// first `\n`, without the `\r` of a `\r\n` ending. `None` for an empty
/// string, which has no line at all.
pub open spec fn first_line(s: Seq<char>) -> Option<Seq<char>> {
    if s.len() == 0 {
        None
    } else {
        match index_of(s, '\n') {
            Some(i) => if i > 0 && s[i - 1] == '\r' {
                Some(s.take(i - 1))
            } else {
                Some(s.take(i))
            },
            None => Some(s),
        }
    }
}

/// Finds the first `c` in `chars`.
pub fn find_char(chars: &Vec<char>, c: char) -> (r: Option<usize>)
    ensures
        match r {
            Some(i) => index_of(chars@, c) == Some(i as int) && i < chars@.len(),
            None => index_of(chars@, c) is None,
        },
{
    let mut i: usize = 0;
    while i < chars.len()
        invariant
            0 <= i <= chars@.len(),
            forall|j: int| 0 <= j < i ==> chars@[j] != c,
        decreases chars@.len() - i,
    {
        if chars[i] == c {
            let ghost k = i as int;
            assert(0 <= k < chars@.len() && chars@[k] == c && forall|j: int|
                0 <= j < k ==> chars@[j] != c);
            let ghost w = choose|w: int|
                0 <= w < chars@.len() && chars@[w] == c && forall|j: int|
                    0 <= j < w ==> chars@[j] != c;
            assert(w == k) by {
                if w < k {
                } else if w > k {
                }
            }
            return Some(i);
        }
        i += 1;
    }
    None
}

/// The first line of `s`, as `first_line` defines it.
pub fn first_line_of(s: &str) -> (r: Option<String>)
    ensures
        match r {
            Some(line) => first_line(s@) == Some(line@),
            None => first_line(s@) is None,
        },
{
    let chars = chars_of(s);
    if chars.len() == 0 {
        return None;
    }
    match find_char(&chars, '\n') {
        Some(i) => {
            if i > 0 && chars[i - 1] == '\r' {
                Some(substring(&chars, 0, i - 1))
            } else {
                Some(substring(&chars, 0, i))
            }
        },
        None => {
            assert(chars@.subrange(0, chars@.len() as int) == chars@);
            Some(substring(&chars, 0, chars.len()))
        },
    }
}


/// A line as `str::lines` yields it from the text before a `\n`: without
/// the `\r` of a `\r\n` ending.
pub open spec fn strip_cr(line: Seq<char>) -> Seq<char> {
    if line.len() > 0 && line.last() == '\r' {
        line.drop_last()
    } else {
        line
    }
}

/// The lines of `s`, as `str::lines` yields them: split at each `\n`, a
/// `\r\n` ending counting as one; the last line needs no ending, and an
/// empty string has none.
#[verifier::opaque]
pub open spec fn lines(s: Seq<char>) -> Seq<Seq<char>>
    decreases s.len(),
{
    if s.len() == 0 {
        Seq::empty()
    } else {
        match index_of(s, '\n') {
            None => seq![s],
            Some(k) => if 0 <= k < s.len() {
                seq![strip_cr(s.take(k))] + lines(s.skip(k + 1))
            } else {
                Seq::empty()
            },
        }
    }
}

pub open spec fn views(v: Seq<String>) -> Seq<Seq<char>> {
    v.map_values(|s: String| s@)
}

proof fn lemma_index_of(s: Seq<char>, k: int)
    requires
        0 <= k < s.len(),
        s[k] == '\n',
        forall|j: int| 0 <= j < k ==> s[j] != '\n',
    ensures
        index_of(s, '\n') == Some(k),
{
    let w = choose|i: int| 0 <= i < s.len() && s[i] == '\n' && forall|j: int| 0 <= j < i ==> s[j] != '\n';
    assert(0 <= k < s.len() && s[k] == '\n' && forall|j: int| 0 <= j < k ==> s[j] != '\n');
    if w < k {
    } else if w > k {
    }
}

/// `lines` of a text whose first newline is at `k`.
proof fn lemma_lines_split(s: Seq<char>, k: int)
    requires
        0 <= k < s.len(),
        s[k] == '\n',
        forall|j: int| 0 <= j < k ==> s[j] != '\n',
    ensures
        lines(s) == seq![strip_cr(s.take(k))] + lines(s.skip(k + 1)),
{
    lemma_index_of(s, k);
    reveal(lines);
}

/// `lines` of a non-empty text without a newline.
proof fn lemma_lines_last(s: Seq<char>)
    requires
        s.len() > 0,
        forall|j: int| 0 <= j < s.len() ==> s[j] != '\n',
    ensures
        lines(s) == seq![s],
{
    assert(index_of(s, '\n') is None);
    reveal(lines);
}

proof fn lemma_lines_empty()
    ensures
        lines(Seq::<char>::empty()) == Seq::<Seq<char>>::empty(),
{
    reveal(lines);
}

/// The position of the first `\n` at or after `pos`, or the length.
fn next_newline(chars: &Vec<char>, pos: usize) -> (end: usize)
    requires
        pos <= chars@.len(),
    ensures
        pos <= end <= chars@.len(),
        forall|j: int| pos <= j < end ==> chars@[j] != '\n',
        end < chars@.len() ==> chars@[end as int] == '\n',
{
    let mut end = pos;
    while end < chars.len() && chars[end] != '\n'
        invariant
            pos <= end <= chars@.len(),
            forall|j: int| pos <= j < end ==> chars@[j] != '\n',
        decreases chars@.len() - end,
    {
        end += 1;
    }
    end
}

/// The lines of `s`, as `lines` defines them.
pub fn split_lines(s: &str) -> (r: Vec<String>)
    ensures
        views(r@) == lines(s@),
{
    let chars = chars_of(s);
    let mut out: Vec<String> = Vec::new();
    let mut pos: usize = 0;
    assert(chars@.skip(0) =~= chars@);
    assert(views(out@) =~= Seq::<Seq<char>>::empty());
    while pos < chars.len()
        invariant
            0 <= pos <= chars@.len(),
            chars@ == s@,
            views(out@) + lines(chars@.skip(pos as int)) == lines(s@),
        decreases chars@.len() - pos,
    {
        let ghost rest = chars@.skip(pos as int);
        let end = next_newline(&chars, pos);
        let ghost before = views(out@);
        if end == chars.len() {
            proof {
                lemma_lines_last(rest);
                lemma_lines_empty();
            }
            assert(chars@.skip(chars@.len() as int) =~= Seq::<char>::empty());
            out.push(substring(&chars, pos, chars.len()));
            assert(chars@.subrange(pos as int, chars@.len() as int) =~= rest);
            assert(views(out@) =~= before.push(rest));
            pos = chars.len();
        } else {
            let k = end - pos;
            proof {
                lemma_lines_split(rest, k as int);
            }
            let line_end = if end > pos && chars[end - 1] == '\r' { end - 1 } else { end };
            out.push(substring(&chars, pos, line_end));
            assert(chars@.subrange(pos as int, line_end as int) =~= strip_cr(rest.take(k as int)));
            assert(rest.skip(k + 1) =~= chars@.skip(end + 1));
            assert(views(out@) =~= before.push(strip_cr(rest.take(k as int))));
            pos = end + 1;
        }
        assert(views(out@) + lines(chars@.skip(pos as int)) =~= before + lines(rest));
    }
    proof {
        lemma_lines_empty();
    }
    assert(chars@.skip(pos as int) =~= Seq::<char>::empty());
    assert(views(out@) + lines(chars@.skip(pos as int)) =~= views(out@));
    out
}

/// `char::is_whitespace`: the Unicode `White_Space` characters.
pub open spec fn is_space(c: char) -> bool {
    let v = c as u32;
    (0x09 <= v && v <= 0x0d) || v == 0x20 || v == 0x85 || v == 0xa0 || v == 0x1680 || (0x2000 <= v && v
        <= 0x200a) || v == 0x2028 || v == 0x2029 || v == 0x202f || v == 0x205f || v == 0x3000
}

pub fn char_is_space(c: char) -> (r: bool)
    ensures
        r == is_space(c),
{
    let v = c as u32;
    (0x09 <= v && v <= 0x0d) || v == 0x20 || v == 0x85 || v == 0xa0 || v == 0x1680 || (0x2000 <= v && v
        <= 0x200a) || v == 0x2028 || v == 0x2029 || v == 0x202f || v == 0x205f || v == 0x3000
}

/// `s` without its trailing white space (`str::trim_end`).
pub open spec fn trim_end(s: Seq<char>) -> Seq<char>
    decreases s.len(),
{
    if s.len() > 0 && is_space(s.last()) {
        trim_end(s.drop_last())
    } else {
        s
    }
}

/// `s` without its leading white space (`str::trim_start`).
pub open spec fn trim_start(s: Seq<char>) -> Seq<char>
    decreases s.len(),
{
    if s.len() > 0 && is_space(s[0]) {
        trim_start(s.skip(1))
    } else {
        s
    }
}

/// `s` without white space at either end (`str::trim`).
pub open spec fn trim(s: Seq<char>) -> Seq<char> {
    trim_start(trim_end(s))
}

/// The bounds `[from, to)` of `trim(s)` inside `s`.
fn trim_bounds(chars: &Vec<char>) -> (r: (usize, usize))
    ensures
        r.0 <= r.1 <= chars@.len(),
        chars@.subrange(r.0 as int, r.1 as int) == trim(chars@),
        chars@.take(r.1 as int) == trim_end(chars@),
{
    let mut to = chars.len();
    assert(chars@.take(to as int) =~= chars@);
    while to > 0 && char_is_space(chars[to - 1])
        invariant
            0 <= to <= chars@.len(),
            trim_end(chars@.take(to as int)) == trim_end(chars@),
        decreases to,
    {
        assert(chars@.take(to as int).drop_last() =~= chars@.take(to - 1));
        to -= 1;
    }
    let ghost end = chars@.take(to as int);
    assert(trim_end(end) == end);
    let mut from: usize = 0;
    assert(end.skip(0) =~= end);
    while from < to && char_is_space(chars[from])
        invariant
            0 <= from <= to,
            to <= chars@.len(),
            end == chars@.take(to as int),
            trim_start(end.skip(from as int)) == trim_start(end),
        decreases to - from,
    {
        assert(end.skip(from as int).skip(1) =~= end.skip(from + 1));
        from += 1;
    }
    assert(end.skip(from as int) =~= chars@.subrange(from as int, to as int));
    (from, to)
}

/// `trim(s)`.
pub fn trimmed(s: &str) -> (r: String)
    ensures
        r@ == trim(s@),
{
    let chars = chars_of(s);
    let (from, to) = trim_bounds(&chars);
    substring(&chars, from, to)
}

/// `trim_end(s)`.
pub fn trimmed_end(s: &str) -> (r: String)
    ensures
        r@ == trim_end(s@),
{
    let chars = chars_of(s);
    let (_from, to) = trim_bounds(&chars);
    assert(chars@.subrange(0, to as int) =~= chars@.take(to as int));
    substring(&chars, 0, to)
}

/// Items joined by `sep`.
pub open spec fn join(items: Seq<Seq<char>>, sep: Seq<char>) -> Seq<char>
    decreases items.len(),
{
    if items.len() == 0 {
        Seq::empty()
    } else if items.len() == 1 {
        items[0]
    } else {
        join(items.drop_last(), sep) + sep + items.last()
    }
}

/// `items[from..]` joined by `sep`.
pub fn join_from(items: &Vec<String>, from: usize, sep: &str) -> (r: String)
    requires
        from <= items@.len(),
    ensures
        r@ == join(views(items@.skip(from as int)), sep@),
{
    let mut out = String::new();
    let mut i = from;
    assert(views(items@.skip(from as int).take(0)) =~= Seq::<Seq<char>>::empty());
    while i < items.len()
        invariant
            from <= i <= items@.len(),
            out@ == join(views(items@.skip(from as int).take(i - from)), sep@),
        decreases items@.len() - i,
    {
        let ghost prev = views(items@.skip(from as int).take(i - from));
        let ghost next = views(items@.skip(from as int).take(i + 1 - from));
        assert(next.drop_last() =~= prev);
        assert(next.last() == items@[i as int]@);
        if i > from {
            out.append(sep);
        } else {
            assert(next.len() == 1);
        }
        out.append(items[i].as_str());
        i += 1;
    }
    assert(items@.skip(from as int).take(items@.len() - from) =~= items@.skip(from as int));
    out
}

} // verus!
