//! What the palette reads off the herdr CLI's output. The calls themselves
//! (`${HERDR_BIN_PATH:-herdr} <args…>`, both streams captured) are made
//! outside this library.

use vstd::prelude::*;

use crate::text::{lines, split_lines, views};

verus! {

/// `line` without a leading `protocol:`, if it has one.
pub open spec fn after_protocol(line: Seq<char>) -> Option<Seq<char>> {
    if line.len() >= 9 && line.take(9) == "protocol:"@ {
        Some(line.skip(9))
    } else {
        None
    }
}

/// `s` without its leading spaces (only U+0020).
pub open spec fn trim_spaces(s: Seq<char>) -> Seq<char>
    decreases s.len(),
{
    if s.len() > 0 && s[0] == ' ' {
        trim_spaces(s.skip(1))
    } else {
        s
    }
}

/// The first of `ls` that starts with `protocol:`, as `after_protocol`.
pub open spec fn first_protocol(ls: Seq<Seq<char>>) -> Option<Seq<char>>
    decreases ls.len(),
{
    if ls.len() == 0 {
        None
    } else {
        match after_protocol(ls[0]) {
            Some(rest) => Some(rest),
            None => first_protocol(ls.skip(1)),
        }
    }
}

/// The `protocol:` line of `herdr api schema` (both streams, stdout
/// first): what follows the prefix, leading spaces removed. The exit status
/// is not consulted; none is `None`.
pub open spec fn schema_protocol(merged: Seq<char>) -> Option<Seq<char>> {
    match first_protocol(lines(merged)) {
        Some(rest) => Some(trim_spaces(rest)),
        None => None,
    }
}

fn strip_protocol(line: &Vec<char>) -> (r: Option<usize>)
    ensures
        match r {
            Some(k) => after_protocol(line@) is Some && k <= line@.len() && line@.skip(k as int) == trim_spaces(
                after_protocol(line@)->Some_0,
            ),
            None => after_protocol(line@) is None,
        },
{
    let prefix = crate::text::chars_of("protocol:");
    proof {
        reveal_strlit("protocol:");
    }
    if line.len() < 9 {
        return None;
    }
    let mut i: usize = 0;
    while i < 9
        invariant
            0 <= i <= 9,
            9 <= line@.len(),
            prefix@ == "protocol:"@,
            prefix@.len() == 9,
            forall|j: int| 0 <= j < i ==> line@[j] == prefix@[j],
        decreases 9 - i,
    {
        if line[i] != prefix[i] {
            assert(line@.take(9)[i as int] != "protocol:"@[i as int]);
            return None;
        }
        i += 1;
    }
    assert(line@.take(9) =~= "protocol:"@);
    let mut k: usize = 9;
    assert(line@.skip(9) =~= line@.skip(k as int));
    while k < line.len() && line[k] == ' '
        invariant
            9 <= k <= line@.len(),
            trim_spaces(line@.skip(9)) == trim_spaces(line@.skip(k as int)),
        decreases line@.len() - k,
    {
        assert(line@.skip(k as int).skip(1) =~= line@.skip(k + 1));
        k += 1;
    }
    Some(k)
}

/// The protocol `herdr api schema` reports, as `schema_protocol` defines
/// it.
pub fn protocol_of(merged: &str) -> (r: Option<String>)
    ensures
        match r {
            Some(p) => schema_protocol(merged@) == Some(p@),
            None => schema_protocol(merged@) is None,
        },
{
    let ls = split_lines(merged);
    let mut i: usize = 0;
    assert(views(ls@).skip(0) =~= views(ls@));
    while i < ls.len()
        invariant
            0 <= i <= ls@.len(),
            views(ls@) == lines(merged@),
            first_protocol(lines(merged@)) == first_protocol(views(ls@).skip(i as int)),
        decreases ls@.len() - i,
    {
        let chars = crate::text::chars_of(ls[i].as_str());
        assert(views(ls@).skip(i as int)[0] == chars@);
        match strip_protocol(&chars) {
            Some(k) => {
                return Some(crate::text::substring(&chars, k, chars.len()));
            },
            None => {},
        }
        assert(views(ls@).skip(i as int).skip(1) =~= views(ls@).skip(i + 1));
        i += 1;
    }
    None
}

} // verus!
