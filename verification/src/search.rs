//! Finding entries by a part of their text.

use vstd::prelude::*;

use crate::text::{chars_of, is_white_space, text_of, white_space};

verus! {

/// The lower case of a text, as `str::to_lowercase` gives it.
pub uninterp spec fn lower_case_of(s: Seq<char>) -> Seq<char>;

/// Calls `str::to_lowercase`. Nothing is said of what the lower case is: Unicode defines it by
/// tables. The result depends on the text alone.
#[verifier::external_body]
fn lower_case(s: &str) -> (r: String)
    ensures
        r@ == lower_case_of(s@),
{
    s.to_lowercase()
}

/// `part` stands somewhere in `s`.
pub open spec fn has_part(s: Seq<char>, part: Seq<char>) -> bool {
    exists|i: int|
        0 <= i <= s.len() - part.len() && #[trigger] s.subrange(i, i + part.len()) == part
}

/// Whether `part` stands at place `i` of `s`.
fn stands_at(s: &Vec<char>, part: &Vec<char>, i: usize) -> (r: bool)
    requires
        i + part@.len() <= s@.len(),
    ensures
        r == (s@.subrange(i as int, i + part@.len()) == part@),
{
    let n: usize = s.len();
    let mut k: usize = 0;
    while k < part.len()
        invariant
            k <= part.len(),
            n == s@.len(),
            i + part@.len() <= s@.len(),
            forall|j: int| 0 <= j < k ==> s@[i + j] == #[trigger] part@[j],
        decreases part.len() - k,
    {
        if s[i + k] != part[k] {
            proof {
                assert(s@.subrange(i as int, i + part@.len())[k as int] != part@[k as int]);
            }
            return false;
        }
        k = k + 1;
    }
    proof {
        assert(s@.subrange(i as int, i + part@.len()) =~= part@);
    }
    true
}

/// Whether `part` stands somewhere in `s`.
pub fn contains_part(s: &str, part: &str) -> (r: bool)
    ensures
        r == has_part(s@, part@),
{
    let text: Vec<char> = chars_of(s);
    let wanted: Vec<char> = chars_of(part);
    if wanted.len() > text.len() {
        return false;
    }
    let last: usize = text.len() - wanted.len();
    let mut i: usize = 0;
    while i <= last
        invariant
            text@ == s@,
            wanted@ == part@,
            last == text@.len() - wanted@.len(),
            i <= last + 1,
            forall|j: int|
                0 <= j < i ==> #[trigger] s@.subrange(j, j + part@.len()) != part@,
        decreases last + 1 - i,
    {
        if stands_at(&text, &wanted, i) {
            return true;
        }
        if i == last {
            return false;
        }
        i = i + 1;
    }
    false
}

/// `part` stands at place `i` of `s`, and nowhere before.
pub open spec fn first_stands_at(s: Seq<char>, part: Seq<char>, i: int) -> bool {
    &&& 0 <= i <= s.len() - part.len()
    &&& s.subrange(i, i + part.len()) == part
    &&& forall|j: int| 0 <= j < i ==> #[trigger] s.subrange(j, j + part.len()) != part
}

/// What stands before and behind the first place where `part` stands.
pub open spec fn parted(s: Seq<char>, part: Seq<char>) -> Option<(Seq<char>, Seq<char>)> {
    if has_part(s, part) {
        let i = choose|i: int| first_stands_at(s, part, i);
        Some((s.take(i), s.skip(i + part.len())))
    } else {
        None
    }
}

proof fn first_place_is_unique(s: Seq<char>, part: Seq<char>, i: int, j: int)
    requires
        first_stands_at(s, part, i),
        first_stands_at(s, part, j),
    ensures
        i == j,
{
    assert(s.subrange(i, i + part.len()) == part);
    assert(s.subrange(j, j + part.len()) == part);
}

/// Splits a text at the first place where `part` stands.
pub fn split_once(s: &str, part: &str) -> (r: Option<(String, String)>)
    ensures
        match r {
            Some((before, behind)) => parted(s@, part@) == Some((before@, behind@)),
            None => parted(s@, part@) is None,
        },
{
    let text: Vec<char> = chars_of(s);
    let wanted: Vec<char> = chars_of(part);
    if wanted.len() > text.len() {
        return None;
    }
    let last: usize = text.len() - wanted.len();
    let mut i: usize = 0;
    while i <= last
        invariant
            text@ == s@,
            wanted@ == part@,
            last == text@.len() - wanted@.len(),
            i <= last + 1,
            forall|j: int|
                0 <= j < i ==> #[trigger] s@.subrange(j, j + part@.len()) != part@,
        decreases last + 1 - i,
    {
        if stands_at(&text, &wanted, i) {
            proof {
                assert(first_stands_at(s@, part@, i as int));
                let k = choose|k: int| first_stands_at(s@, part@, k);
                first_place_is_unique(s@, part@, i as int, k);
            }
            let length: usize = text.len();
            let before: Vec<char> = copied_range(&text, 0, i);
            let behind: Vec<char> = copied_range(&text, i + wanted.len(), length);
            proof {
                assert(before@ =~= s@.take(i as int));
                assert(behind@ =~= s@.skip(i + part@.len()));
            }
            return Some((text_of(&before), text_of(&behind)));
        }
        if i == last {
            return None;
        }
        i = i + 1;
    }
    None
}

/// A piece of a text.
fn copied_range(s: &Vec<char>, from: usize, to: usize) -> (r: Vec<char>)
    requires
        from <= to <= s@.len(),
    ensures
        r@ == s@.subrange(from as int, to as int),
{
    let mut r: Vec<char> = Vec::new();
    let mut i: usize = from;
    while i < to
        invariant
            from <= i <= to <= s@.len(),
            r@ == s@.subrange(from as int, i as int),
        decreases to - i,
    {
        r.push(s[i]);
        proof {
            assert(r@ =~= s@.subrange(from as int, i + 1));
        }
        i = i + 1;
    }
    r
}

/// `s` begins with `part`.
pub open spec fn begins_with(s: Seq<char>, part: Seq<char>) -> bool {
    part.len() <= s.len() && s.subrange(0, part.len() as int) == part
}

/// Whether `s` begins with `part`.
pub fn begins_with_part(s: &str, part: &str) -> (r: bool)
    ensures
        r == begins_with(s@, part@),
{
    let text: Vec<char> = chars_of(s);
    let wanted: Vec<char> = chars_of(part);
    wanted.len() <= text.len() && stands_at(&text, &wanted, 0)
}

/// Where the text of `s` begins: behind the white space in front.
pub open spec fn text_begin(s: Seq<char>) -> int
    decreases s.len(),
{
    if s.len() == 0 {
        0
    } else if white_space(s[0]) {
        1 + text_begin(s.skip(1))
    } else {
        0
    }
}

/// `s` without the white space behind it.
pub open spec fn cut_end(s: Seq<char>) -> Seq<char>
    decreases s.len(),
{
    if s.len() > 0 && white_space(s.last()) {
        cut_end(s.drop_last())
    } else {
        s
    }
}

/// `s` without the white space in front of it and behind it.
pub open spec fn stripped(s: Seq<char>) -> Seq<char> {
    cut_end(s.skip(text_begin(s)))
}

/// `s` without the white space in front of it and behind it.
pub fn strip(s: &str) -> (r: String)
    ensures
        r@ == stripped(s@),
{
    let text: Vec<char> = chars_of(s);
    let mut from: usize = 0;
    proof {
        assert(text@.skip(0) =~= text@);
    }
    while from < text.len() && is_white_space(text[from])
        invariant
            from <= text@.len(),
            text_begin(text@) == from + text_begin(text@.skip(from as int)),
        decreases text.len() - from,
    {
        proof {
            assert(text@.skip(from as int).skip(1) =~= text@.skip(from + 1));
        }
        from = from + 1;
    }
    let mut r: Vec<char> = Vec::new();
    let mut i: usize = from;
    while i < text.len()
        invariant
            from <= i <= text@.len(),
            r@ == text@.subrange(from as int, i as int),
        decreases text.len() - i,
    {
        r.push(text[i]);
        i = i + 1;
    }
    proof {
        assert(r@ =~= text@.skip(from as int));
    }
    while r.len() > 0 && is_white_space(r[r.len() - 1])
        invariant
            cut_end(r@) == cut_end(text@.skip(from as int)),
        decreases r.len(),
    {
        let ghost before = r@;
        let _ = r.pop();
        proof {
            assert(r@ =~= before.drop_last());
        }
    }
    text_of(&r)
}

/// What is looked for where `query` was typed.
pub open spec fn wanted(query: Seq<char>) -> Seq<char> {
    lower_case_of(stripped(query))
}

/// What is looked for where `query` was typed.
pub fn query_of(query: &str) -> (r: String)
    ensures
        r@ == wanted(query@),
{
    let text = strip(query);
    lower_case(text.as_str())
}

/// Whether the lower case of `text` holds `part`.
pub fn is_found(text: &str, part: &str) -> (r: bool)
    ensures
        r == has_part(lower_case_of(text@), part@),
{
    let low = lower_case(text);
    contains_part(low.as_str(), part)
}

/// A text is found by any part of it.
pub proof fn text_is_found_by_its_part(s: Seq<char>, from: int, to: int)
    requires
        0 <= from <= to <= s.len(),
    ensures
        has_part(s, s.subrange(from, to)),
{
    let part = s.subrange(from, to);
    assert(s.subrange(from, from + part.len()) =~= part);
}

/// Nothing but white space is taken off, and only from the ends; what is left begins and ends with
/// something else.
pub proof fn stripping_takes_white_space(s: Seq<char>) -> (ends: (Seq<char>, Seq<char>))
    ensures
        s == ends.0 + stripped(s) + ends.1,
        forall|i: int| 0 <= i < ends.0.len() ==> white_space(#[trigger] ends.0[i]),
        forall|i: int| 0 <= i < ends.1.len() ==> white_space(#[trigger] ends.1[i]),
        stripped(s).len() > 0 ==> !white_space(stripped(s)[0]) && !white_space(stripped(s).last()),
{
    let at = text_begin(s);
    begin_is_white(s);
    let rest = s.skip(at);
    let tail = cutting_takes_white_space(rest);
    let front = s.take(at);
    assert(s =~= front + rest);
    assert(s =~= front + cut_end(rest) + tail);
    if cut_end(rest).len() > 0 {
        assert(cut_end(rest)[0] == rest[0]);
        assert(rest[0] == s[at]);
    }
    (front, tail)
}

proof fn begin_is_white(s: Seq<char>)
    ensures
        0 <= text_begin(s) <= s.len(),
        forall|i: int| 0 <= i < text_begin(s) ==> white_space(#[trigger] s[i]),
        text_begin(s) < s.len() ==> !white_space(s[text_begin(s)]),
    decreases s.len(),
{
    if s.len() > 0 && white_space(s[0]) {
        let rest = s.skip(1);
        begin_is_white(rest);
        assert forall|i: int| 0 <= i < text_begin(s) implies white_space(#[trigger] s[i]) by {
            if i > 0 {
                assert(rest[i - 1] == s[i]);
            }
        }
    }
}

proof fn cutting_takes_white_space(s: Seq<char>) -> (tail: Seq<char>)
    ensures
        s == cut_end(s) + tail,
        forall|i: int| 0 <= i < tail.len() ==> white_space(#[trigger] tail[i]),
        cut_end(s).len() > 0 ==> !white_space(cut_end(s).last()),
    decreases s.len(),
{
    if s.len() > 0 && white_space(s.last()) {
        let front = s.drop_last();
        let tail = cutting_takes_white_space(front);
        assert(s =~= front.push(s.last()));
        assert((cut_end(front) + tail).push(s.last()) =~= cut_end(front) + tail.push(s.last()));
        tail.push(s.last())
    } else {
        assert(s =~= s + Seq::<char>::empty());
        Seq::empty()
    }
}

/// A text is parted where the part stands first: before it, the part itself and what is behind it
/// make the text up again.
pub proof fn parted_text_is_made_up_again(s: Seq<char>, part: Seq<char>)
    ensures
        parted(s, part) is None <==> !has_part(s, part),
        parted(s, part) matches Some((before, behind)) ==> {
            &&& s == before + part + behind
            &&& forall|j: int|
                0 <= j < before.len() ==> #[trigger] s.subrange(j, j + part.len()) != part
        },
{
    if has_part(s, part) {
        let k = choose|k: int|
            0 <= k <= s.len() - part.len() && #[trigger] s.subrange(k, k + part.len()) == part;
        let first = first_place(s, part, k);
        assert(first_stands_at(s, part, first));
        let i = choose|i: int| first_stands_at(s, part, i);
        assert(first_stands_at(s, part, i));
        assert(s =~= s.take(i) + s.subrange(i, i + part.len()) + s.skip(i + part.len()));
    }
}

proof fn first_place(s: Seq<char>, part: Seq<char>, k: int) -> (i: int)
    requires
        0 <= k <= s.len() - part.len(),
        s.subrange(k, k + part.len()) == part,
    ensures
        first_stands_at(s, part, i),
    decreases k,
{
    if exists|j: int| 0 <= j < k && #[trigger] s.subrange(j, j + part.len()) == part {
        let j = choose|j: int| 0 <= j < k && #[trigger] s.subrange(j, j + part.len()) == part;
        first_place(s, part, j)
    } else {
        k
    }
}

} // verus!
