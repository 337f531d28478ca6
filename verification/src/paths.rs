//! Slash-separated paths as texts: their parts, names, parents and order.

use vstd::prelude::*;

use crate::text::{chars_of, is_before, join2, join3, same_text, text_of};
use crate::text::{text_before, text_order_irreflexive, text_order_total, text_order_transitive};

verus! {

/// The texts between the slashes of `s`.
pub open spec fn segments(s: Seq<char>) -> Seq<Seq<char>>
    decreases s.len(),
{
    if s.len() == 0 {
        seq![Seq::<char>::empty()]
    } else {
        let before = segments(s.drop_last());
        if s.last() == '/' {
            before.push(Seq::<char>::empty())
        } else {
            before.update(before.len() - 1, before.last().push(s.last()))
        }
    }
}

/// A segment that stands for the directory it is in.
pub open spec fn is_dot(segment: Seq<char>) -> bool {
    segment == seq!['.']
}

/// A segment that stands for the parent directory.
pub open spec fn is_dot_dot(segment: Seq<char>) -> bool {
    segment == seq!['.', '.']
}

/// A segment that names a step of the path.
pub open spec fn is_step(segment: Seq<char>) -> bool {
    segment.len() > 0 && !is_dot(segment)
}

/// The segments that name a step, in order.
pub open spec fn steps(s: Seq<Seq<char>>) -> Seq<Seq<char>>
    decreases s.len(),
{
    if s.len() == 0 {
        Seq::empty()
    } else if is_step(s.last()) {
        steps(s.drop_last()).push(s.last())
    } else {
        steps(s.drop_last())
    }
}

/// The path starts at the root.
pub open spec fn rooted(s: Seq<char>) -> bool {
    s.len() > 0 && s[0] == '/'
}

/// The path starts with a dot for the current directory.
pub open spec fn starts_here(s: Seq<char>) -> bool {
    s.len() > 0 && s[0] == '.' && (s.len() == 1 || s[1] == '/')
}

/// The steps of a path, without empty segments and dots.
pub open spec fn names(s: Seq<char>) -> Seq<Seq<char>> {
    steps(segments(s))
}

/// Two texts that name the same path: they differ at most in repeated slashes, a trailing slash
/// and inner dots.
pub open spec fn path_equals(a: Seq<char>, b: Seq<char>) -> bool {
    rooted(a) == rooted(b) && starts_here(a) == starts_here(b) && names(a) == names(b)
}

/// The path is relative and made of nothing but names, so it stays below where it starts.
pub open spec fn stays_inside(s: Seq<char>) -> bool {
    &&& !rooted(s)
    &&& !starts_here(s)
    &&& forall|i: int| 0 <= i < names(s).len() ==> !is_dot_dot(#[trigger] names(s)[i])
}

/// The last step of a path, unless it is the parent directory.
pub open spec fn file_name_of(s: Seq<char>) -> Option<Seq<char>> {
    if names(s).len() > 0 && !is_dot_dot(names(s).last()) {
        Some(names(s).last())
    } else {
        None
    }
}

/// The place of the last `c` in `s`, or -1.
pub open spec fn last_index(s: Seq<char>, c: char) -> int
    decreases s.len(),
{
    if s.len() == 0 {
        -1
    } else if s.last() == c {
        s.len() - 1
    } else {
        last_index(s.drop_last(), c)
    }
}

/// What follows the last dot of the file name, where something stands before that dot.
pub open spec fn extension_of(s: Seq<char>) -> Option<Seq<char>> {
    match file_name_of(s) {
        Some(name) => {
            let dot = last_index(name, '.');
            if dot > 0 {
                Some(name.skip(dot + 1))
            } else {
                None
            }
        },
        None => None,
    }
}

/// The file name without its extension.
pub open spec fn stem_of(s: Seq<char>) -> Option<Seq<char>> {
    match file_name_of(s) {
        Some(name) => {
            let dot = last_index(name, '.');
            if dot > 0 {
                Some(name.take(dot))
            } else {
                Some(name)
            }
        },
        None => None,
    }
}

proof fn segments_not_empty(s: Seq<char>)
    ensures
        segments(s).len() >= 1,
    decreases s.len(),
{
    if s.len() > 0 {
        segments_not_empty(s.drop_last());
    }
}

/// The texts between the slashes of `s`.
fn split_segments(s: &Vec<char>) -> (r: Vec<Vec<char>>)
    ensures
        r.len() == segments(s@).len(),
        forall|i: int| 0 <= i < r.len() ==> (#[trigger] r@[i])@ == segments(s@)[i],
{
    let mut r: Vec<Vec<char>> = Vec::new();
    let mut current: Vec<char> = Vec::new();
    let mut i: usize = 0;
    proof {
        assert(s@.take(0) =~= Seq::<char>::empty());
    }
    while i < s.len()
        invariant
            i <= s.len(),
            r.len() + 1 == segments(s@.take(i as int)).len(),
            forall|j: int|
                0 <= j < r.len() ==> (#[trigger] r@[j])@ == segments(s@.take(i as int))[j],
            current@ == segments(s@.take(i as int)).last(),
        decreases s.len() - i,
    {
        let c: char = s[i];
        proof {
            assert(s@.take(i + 1).drop_last() =~= s@.take(i as int));
            assert(s@.take(i + 1).last() == c);
        }
        if c == '/' {
            r.push(current);
            current = Vec::new();
        } else {
            current.push(c);
        }
        i = i + 1;
    }
    proof {
        assert(s@.take(s.len() as int) =~= s@);
    }
    r.push(current);
    r
}

fn dot(segment: &Vec<char>) -> (r: bool)
    ensures
        r == is_dot(segment@),
{
    let r = segment.len() == 1 && segment[0] == '.';
    proof {
        if r {
            assert(segment@ =~= seq!['.']);
        }
    }
    r
}

/// Whether `segment` is the parent directory.
fn dot_dot(segment: &Vec<char>) -> (r: bool)
    ensures
        r == is_dot_dot(segment@),
{
    let r = segment.len() == 2 && segment[0] == '.' && segment[1] == '.';
    proof {
        if r {
            assert(segment@ =~= seq!['.', '.']);
        }
    }
    r
}

/// The steps of the path `s`.
fn names_of(s: &Vec<char>) -> (r: Vec<Vec<char>>)
    ensures
        r.len() == names(s@).len(),
        forall|i: int| 0 <= i < r.len() ==> (#[trigger] r@[i])@ == names(s@)[i],
{
    let all: Vec<Vec<char>> = split_segments(s);
    let mut rest: Vec<Vec<char>> = all;
    let mut r: Vec<Vec<char>> = Vec::new();
    let ghost whole = segments(s@);
    let mut i: usize = 0;
    proof {
        assert(whole.take(0) =~= Seq::<Seq<char>>::empty());
    }
    while i < rest.len()
        invariant
            i <= rest.len(),
            rest.len() == whole.len(),
            forall|j: int| 0 <= j < rest.len() ==> (#[trigger] rest@[j])@ == whole[j],
            r.len() == steps(whole.take(i as int)).len(),
            forall|j: int|
                0 <= j < r.len() ==> (#[trigger] r@[j])@ == steps(whole.take(i as int))[j],
        decreases rest.len() - i,
    {
        proof {
            assert(whole.take(i + 1).drop_last() =~= whole.take(i as int));
            assert(whole.take(i + 1).last() == whole[i as int]);
        }
        if rest[i].len() > 0 && !dot(&rest[i]) {
            let copy: Vec<char> = copy_chars(&rest[i]);
            r.push(copy);
        }
        i = i + 1;
    }
    proof {
        assert(whole.take(whole.len() as int) =~= whole);
    }
    r
}

fn copy_chars(chars: &Vec<char>) -> (r: Vec<char>)
    ensures
        r@ == chars@,
{
    part(chars, 0, chars.len())
}

/// The characters of `chars` from `from` to `to`.
fn part(chars: &Vec<char>, from: usize, to: usize) -> (r: Vec<char>)
    requires
        from <= to <= chars.len(),
    ensures
        r@ == chars@.subrange(from as int, to as int),
{
    let mut r: Vec<char> = Vec::new();
    let mut i: usize = from;
    while i < to
        invariant
            from <= i <= to <= chars.len(),
            r@ == chars@.subrange(from as int, i as int),
        decreases to - i,
    {
        r.push(chars[i]);
        i = i + 1;
        proof {
            assert(r@ =~= chars@.subrange(from as int, i as int));
        }
    }
    r
}

fn starts_at_root(s: &Vec<char>) -> (r: bool)
    ensures
        r == rooted(s@),
{
    s.len() > 0 && s[0] == '/'
}

fn starts_at_dot(s: &Vec<char>) -> (r: bool)
    ensures
        r == starts_here(s@),
{
    s.len() > 0 && s[0] == '.' && (s.len() == 1 || s[1] == '/')
}

/// The last step of a path, unless it is the parent directory.
pub fn file_name(path: &str) -> (r: Option<String>)
    ensures
        match r {
            Some(name) => file_name_of(path@) == Some(name@),
            None => file_name_of(path@) is None,
        },
{
    let all: Vec<Vec<char>> = names_of(&chars_of(path));
    if all.len() == 0 {
        return None;
    }
    let last: &Vec<char> = &all[all.len() - 1];
    if dot_dot(last) {
        None
    } else {
        Some(text_of(last))
    }
}

/// The place of the last `c`, and whether there is one.
fn find_last(s: &Vec<char>, c: char) -> (r: Option<usize>)
    ensures
        match r {
            Some(i) => i < s.len() && last_index(s@, c) == i,
            None => last_index(s@, c) == -1,
        },
{
    let mut i: usize = s.len();
    proof {
        assert(s@.take(s.len() as int) =~= s@);
    }
    while i > 0
        invariant
            i <= s.len(),
            last_index(s@, c) == last_index(s@.take(i as int), c),
        decreases i,
    {
        proof {
            assert(s@.take(i as int).last() == s@[i - 1]);
            assert(s@.take(i as int).drop_last() =~= s@.take(i - 1));
        }
        if s[i - 1] == c {
            return Some(i - 1);
        }
        i = i - 1;
    }
    None
}

/// What follows the last dot of the file name, where something stands before that dot.
pub fn extension(path: &str) -> (r: Option<String>)
    ensures
        match r {
            Some(ending) => extension_of(path@) == Some(ending@),
            None => extension_of(path@) is None,
        },
{
    match file_name(path) {
        None => None,
        Some(name) => {
            let chars: Vec<char> = chars_of(name.as_str());
            match find_last(&chars, '.') {
                Some(at) => {
                    if at == 0 {
                        None
                    } else {
                        let ending: Vec<char> = part(&chars, at + 1, chars.len());
                        proof {
                            assert(ending@ =~= name@.skip(at + 1));
                        }
                        Some(text_of(&ending))
                    }
                },
                None => None,
            }
        },
    }
}

/// The file name without its extension.
pub fn file_stem(path: &str) -> (r: Option<String>)
    ensures
        match r {
            Some(stem) => stem_of(path@) == Some(stem@),
            None => stem_of(path@) is None,
        },
{
    match file_name(path) {
        None => None,
        Some(name) => {
            let chars: Vec<char> = chars_of(name.as_str());
            match find_last(&chars, '.') {
                Some(at) => {
                    if at == 0 {
                        Some(name)
                    } else {
                        let stem: Vec<char> = part(&chars, 0, at);
                        proof {
                            assert(stem@ =~= name@.take(at as int));
                        }
                        Some(text_of(&stem))
                    }
                },
                None => Some(name),
            }
        },
    }
}

fn same_chars(a: &Vec<char>, b: &Vec<char>) -> (r: bool)
    ensures
        r == (a@ == b@),
{
    same_text(text_of(a).as_str(), text_of(b).as_str())
}

/// Whether two texts name the same path.
pub fn same_path(a: &str, b: &str) -> (r: bool)
    ensures
        r == path_equals(a@, b@),
{
    let x: Vec<char> = chars_of(a);
    let y: Vec<char> = chars_of(b);
    if starts_at_root(&x) != starts_at_root(&y) || starts_at_dot(&x) != starts_at_dot(&y) {
        return false;
    }
    let p: Vec<Vec<char>> = names_of(&x);
    let q: Vec<Vec<char>> = names_of(&y);
    if p.len() != q.len() {
        return false;
    }
    let mut i: usize = 0;
    while i < p.len()
        invariant
            i <= p.len(),
            p.len() == q.len(),
            p.len() == names(a@).len(),
            q.len() == names(b@).len(),
            forall|j: int| 0 <= j < p.len() ==> (#[trigger] p@[j])@ == names(a@)[j],
            forall|j: int| 0 <= j < q.len() ==> (#[trigger] q@[j])@ == names(b@)[j],
            forall|j: int| 0 <= j < i ==> names(a@)[j] == names(b@)[j],
        decreases p.len() - i,
    {
        if !same_chars(&p[i], &q[i]) {
            assert(p@[i as int]@ == names(a@)[i as int]);
            assert(q@[i as int]@ == names(b@)[i as int]);
            return false;
        }
        assert(p@[i as int]@ == names(a@)[i as int]);
        assert(q@[i as int]@ == names(b@)[i as int]);
        i = i + 1;
    }
    proof {
        assert(names(a@) =~= names(b@));
    }
    true
}

/// Whether the path is relative and made of nothing but names.
pub fn is_inside(path: &str) -> (r: bool)
    ensures
        r == stays_inside(path@),
{
    let chars: Vec<char> = chars_of(path);
    if starts_at_root(&chars) || starts_at_dot(&chars) {
        return false;
    }
    let all: Vec<Vec<char>> = names_of(&chars);
    let mut i: usize = 0;
    while i < all.len()
        invariant
            i <= all.len(),
            all.len() == names(path@).len(),
            forall|j: int| 0 <= j < all.len() ==> (#[trigger] all@[j])@ == names(path@)[j],
            forall|j: int| 0 <= j < i ==> !is_dot_dot(#[trigger] names(path@)[j]),
        decreases all.len() - i,
    {
        if dot_dot(&all[i]) {
            assert(is_dot_dot(names(path@)[i as int]));
            return false;
        }
        i = i + 1;
    }
    true
}

/// Where the steps of a path begin: after the root or a leading dot.
pub open spec fn body_start(s: Seq<char>) -> int {
    if rooted(s) || starts_here(s) {
        1
    } else {
        0
    }
}

/// Where the last segment of the first `n` characters begins, `start` being the earliest place.
pub open spec fn segment_start(s: Seq<char>, start: int, n: int) -> int
    decreases n - start,
{
    if n <= start {
        start
    } else if s[n - 1] == '/' {
        n
    } else {
        segment_start(s, start, n - 1)
    }
}

/// The length of the first `n` characters without the trailing segments that name no step.
pub open spec fn trimmed(s: Seq<char>, start: int, n: int) -> int
    decreases n - start,
{
    if n <= start {
        n
    } else {
        let at = segment_start(s, start, n);
        if start <= at <= n && !is_step(s.subrange(at, n)) {
            if at > start {
                trimmed(s, start, at - 1)
            } else {
                start
            }
        } else {
            n
        }
    }
}

/// The text of a path without its last component; `None` for a root and an empty path.
pub open spec fn parent_of(s: Seq<char>) -> Option<Seq<char>> {
    let start = body_start(s);
    let n = trimmed(s, start, s.len() as int);
    if n > start {
        let at = segment_start(s, start, n);
        if at > start {
            Some(s.take(trimmed(s, start, at - 1)))
        } else {
            Some(s.take(start))
        }
    } else if starts_here(s) {
        Some(Seq::empty())
    } else {
        None
    }
}

proof fn segment_start_bounds(s: Seq<char>, start: int, n: int)
    requires
        start <= n,
    ensures
        start <= segment_start(s, start, n) <= n,
    decreases n - start,
{
    if n > start && s[n - 1] != '/' {
        segment_start_bounds(s, start, n - 1);
    }
}

proof fn trimmed_bounds(s: Seq<char>, start: int, n: int)
    requires
        0 <= start <= n,
    ensures
        start <= trimmed(s, start, n) <= n,
    decreases n - start,
{
    if n > start {
        let at = segment_start(s, start, n);
        segment_start_bounds(s, start, n);
        if at > start && !is_step(s.subrange(at, n)) {
            trimmed_bounds(s, start, at - 1);
        }
    }
}

fn last_segment_start(s: &Vec<char>, start: usize, n: usize) -> (r: usize)
    requires
        start <= n <= s.len(),
    ensures
        r == segment_start(s@, start as int, n as int),
        start <= r <= n,
{
    let mut i: usize = n;
    while i > start && s[i - 1] != '/'
        invariant
            start <= i <= n <= s.len(),
            segment_start(s@, start as int, n as int) == segment_start(s@, start as int, i as int),
        decreases i,
    {
        i = i - 1;
    }
    i
}

fn trim(s: &Vec<char>, start: usize, n: usize) -> (r: usize)
    requires
        start <= n <= s.len(),
    ensures
        r == trimmed(s@, start as int, n as int),
        start <= r <= n,
{
    let mut i: usize = n;
    while i > start
        invariant
            start <= i <= n <= s.len(),
            trimmed(s@, start as int, n as int) == trimmed(s@, start as int, i as int),
        decreases i,
    {
        let at: usize = last_segment_start(s, start, i);
        let segment: Vec<char> = part(s, at, i);
        if segment.len() > 0 && !dot(&segment) {
            return i;
        }
        if at > start {
            i = at - 1;
        } else {
            return start;
        }
    }
    i
}

/// The text of a path without its last component; `None` for a root and an empty path.
pub fn parent(path: &str) -> (r: Option<String>)
    ensures
        match r {
            Some(p) => parent_of(path@) == Some(p@),
            None => parent_of(path@) is None,
        },
{
    let s: Vec<char> = chars_of(path);
    let here = starts_at_dot(&s);
    let start: usize = if starts_at_root(&s) || here { 1 } else { 0 };
    let n: usize = trim(&s, start, s.len());
    if n > start {
        let at: usize = last_segment_start(&s, start, n);
        if at > start {
            let end: usize = trim(&s, start, at - 1);
            let head: Vec<char> = part(&s, 0, end);
            proof {
                assert(head@ =~= path@.take(end as int));
            }
            Some(text_of(&head))
        } else {
            let head: Vec<char> = part(&s, 0, start);
            proof {
                assert(head@ =~= path@.take(start as int));
            }
            Some(text_of(&head))
        }
    } else if here {
        Some(String::new())
    } else {
        None
    }
}

/// `directory` with `name` appended as one more step. A name that starts at the root stands alone.
pub open spec fn joined(directory: Seq<char>, name: Seq<char>) -> Seq<char> {
    if rooted(name) {
        name
    } else if directory.len() == 0 || directory.last() == '/' {
        directory + name
    } else {
        directory + "/"@ + name
    }
}

/// `directory` with `name` appended as one more step. A name that starts at the root stands alone.
pub fn join(directory: &str, name: &str) -> (r: String)
    ensures
        r@ == joined(directory@, name@),
{
    let chars: Vec<char> = chars_of(directory);
    let given: Vec<char> = chars_of(name);
    if starts_at_root(&given) {
        name.to_owned()
    } else if chars.len() == 0 || chars[chars.len() - 1] == '/' {
        join2(directory, name)
    } else {
        join3(directory, "/", name)
    }
}

/// The text by which a step is ordered: the parent directory comes before every name.
pub open spec fn order_key(name: Seq<char>) -> Seq<char> {
    if is_dot_dot(name) {
        Seq::empty()
    } else {
        name
    }
}

/// Whether the steps `a` come before the steps `b`: by the first step in which they differ, a
/// proper prefix first.
pub open spec fn names_before(a: Seq<Seq<char>>, b: Seq<Seq<char>>) -> bool
    decreases a.len(),
{
    if b.len() == 0 {
        false
    } else if a.len() == 0 {
        true
    } else if order_key(a[0]) != order_key(b[0]) {
        text_before(order_key(a[0]), order_key(b[0]))
    } else {
        names_before(a.drop_first(), b.drop_first())
    }
}

/// Where a path begins: the empty path first, then the root, the current directory, and names.
pub open spec fn beginning(s: Seq<char>) -> int {
    if rooted(s) {
        1
    } else if starts_here(s) {
        2
    } else if names(s).len() == 0 {
        0
    } else {
        3
    }
}

/// Whether the path `a` comes before the path `b`.
pub open spec fn path_before(a: Seq<char>, b: Seq<char>) -> bool {
    if beginning(a) != beginning(b) {
        beginning(a) < beginning(b)
    } else {
        names_before(names(a), names(b))
    }
}

proof fn names_order_irreflexive(a: Seq<Seq<char>>)
    ensures
        !names_before(a, a),
    decreases a.len(),
{
    if a.len() > 0 {
        names_order_irreflexive(a.drop_first());
    }
}

proof fn names_order_transitive(a: Seq<Seq<char>>, b: Seq<Seq<char>>, c: Seq<Seq<char>>)
    requires
        names_before(a, b),
        names_before(b, c),
    ensures
        names_before(a, c),
    decreases a.len(),
{
    if a.len() > 0 {
        let x = order_key(a[0]);
        let y = order_key(b[0]);
        let z = order_key(c[0]);
        if x == y && y == z {
            names_order_transitive(a.drop_first(), b.drop_first(), c.drop_first());
        } else if x != y && y != z {
            text_order_transitive(x, y, z);
            text_order_irreflexive(x);
        }
    }
}

/// The order of paths is irreflexive.
pub proof fn path_order_irreflexive(a: Seq<char>)
    ensures
        !path_before(a, a),
{
    names_order_irreflexive(names(a));
}

/// The order of paths is transitive.
pub proof fn path_order_transitive(a: Seq<char>, b: Seq<char>, c: Seq<char>)
    requires
        path_before(a, b),
        path_before(b, c),
    ensures
        path_before(a, c),
{
    if beginning(a) == beginning(b) && beginning(b) == beginning(c) {
        names_order_transitive(names(a), names(b), names(c));
    }
}

proof fn steps_are_steps(s: Seq<Seq<char>>, i: int)
    requires
        0 <= i < steps(s).len(),
    ensures
        is_step(steps(s)[i]),
    decreases s.len(),
{
    if s.len() > 0 {
        if !is_step(s.last()) || i < steps(s.drop_last()).len() {
            steps_are_steps(s.drop_last(), i);
        }
    }
}

proof fn names_order_total(a: Seq<Seq<char>>, b: Seq<Seq<char>>)
    requires
        forall|i: int| 0 <= i < a.len() ==> is_step(#[trigger] a[i]),
        forall|i: int| 0 <= i < b.len() ==> is_step(#[trigger] b[i]),
    ensures
        a == b || names_before(a, b) || names_before(b, a),
    decreases a.len(),
{
    if a.len() == 0 && b.len() == 0 {
        assert(a =~= b);
    } else if a.len() > 0 && b.len() > 0 {
        assert(is_step(a[0]) && is_step(b[0]));
        if order_key(a[0]) != order_key(b[0]) {
            text_order_total(order_key(a[0]), order_key(b[0]));
        } else {
            assert(a[0] == b[0]);
            let x = a.drop_first();
            let y = b.drop_first();
            assert forall|i: int| 0 <= i < x.len() implies is_step(#[trigger] x[i]) by {
                assert(x[i] == a[i + 1]);
            }
            assert forall|i: int| 0 <= i < y.len() implies is_step(#[trigger] y[i]) by {
                assert(y[i] == b[i + 1]);
            }
            names_order_total(x, y);
            if x == y {
                assert(a =~= seq![a[0]] + x);
                assert(b =~= seq![b[0]] + y);
            }
        }
    }
}

/// Of two texts that do not name the same path, one comes before the other.
pub proof fn path_order_total(a: Seq<char>, b: Seq<char>)
    ensures
        path_equals(a, b) || path_before(a, b) || path_before(b, a),
{
    assert forall|i: int| 0 <= i < names(a).len() implies is_step(#[trigger] names(a)[i]) by {
        steps_are_steps(segments(a), i);
    }
    assert forall|i: int| 0 <= i < names(b).len() implies is_step(#[trigger] names(b)[i]) by {
        steps_are_steps(segments(b), i);
    }
    names_order_total(names(a), names(b));
    if beginning(a) == beginning(b) && names(a) == names(b) {
        assert(!(rooted(a) && starts_here(a)));
        assert(!(rooted(b) && starts_here(b)));
    }
}

fn order_text(name: &Vec<char>) -> (r: String)
    ensures
        r@ == order_key(name@),
{
    if dot_dot(name) {
        String::new()
    } else {
        text_of(name)
    }
}

fn place_of_beginning(s: &Vec<char>, all: &Vec<Vec<char>>) -> (r: u8)
    requires
        all.len() == names(s@).len(),
    ensures
        r == beginning(s@),
{
    if starts_at_root(s) {
        1
    } else if starts_at_dot(s) {
        2
    } else if all.len() == 0 {
        0
    } else {
        3
    }
}

/// Whether the path `a` comes before the path `b`.
pub fn is_path_before(a: &str, b: &str) -> (r: bool)
    ensures
        r == path_before(a@, b@),
{
    let x: Vec<char> = chars_of(a);
    let y: Vec<char> = chars_of(b);
    let p: Vec<Vec<char>> = names_of(&x);
    let q: Vec<Vec<char>> = names_of(&y);
    let first: u8 = place_of_beginning(&x, &p);
    let second: u8 = place_of_beginning(&y, &q);
    if first != second {
        return first < second;
    }
    let ghost m = names(a@);
    let ghost n = names(b@);
    proof {
        assert(m.skip(0) =~= m);
        assert(n.skip(0) =~= n);
    }
    let mut i: usize = 0;
    while i < p.len() && i < q.len()
        invariant
            i <= p.len(),
            i <= q.len(),
            p.len() == m.len(),
            q.len() == n.len(),
            forall|j: int| 0 <= j < p.len() ==> (#[trigger] p@[j])@ == m[j],
            forall|j: int| 0 <= j < q.len() ==> (#[trigger] q@[j])@ == n[j],
            names_before(m, n) == names_before(m.skip(i as int), n.skip(i as int)),
            path_before(a@, b@) == names_before(m, n),
        decreases p.len() - i,
    {
        let u: String = order_text(&p[i]);
        let v: String = order_text(&q[i]);
        proof {
            assert(p@[i as int]@ == m[i as int]);
            assert(q@[i as int]@ == n[i as int]);
            assert(m.skip(i as int)[0] == m[i as int]);
            assert(n.skip(i as int)[0] == n[i as int]);
            assert(m.skip(i as int).drop_first() =~= m.skip(i + 1));
            assert(n.skip(i as int).drop_first() =~= n.skip(i + 1));
        }
        if !same_text(u.as_str(), v.as_str()) {
            return is_before(u.as_str(), v.as_str());
        }
        i = i + 1;
    }
    i < q.len()
}

/// Paths in ascending order, none twice.
pub open spec fn paths_ascending(paths: Seq<String>) -> bool {
    forall|i: int, j: int|
        0 <= i < j < paths.len() ==> path_before((#[trigger] paths[i])@, (#[trigger] paths[j])@)
}

/// Some path of `paths` is the path `path`.
pub open spec fn holds_path(paths: Seq<String>, path: Seq<char>) -> bool {
    exists|i: int| 0 <= i < paths.len() && path_equals((#[trigger] paths[i])@, path)
}

/// Puts `path` into its place among `sorted`, unless the path is there already.
fn place_path(sorted: &mut Vec<String>, path: String)
    requires
        paths_ascending(old(sorted)@),
    ensures
        paths_ascending(final(sorted)@),
        holds_path(final(sorted)@, path@),
        forall|p: Seq<char>| holds_path(old(sorted)@, p) ==> #[trigger] holds_path(
            final(sorted)@,
            p,
        ),
        forall|i: int|
            0 <= i < final(sorted)@.len() ==> (#[trigger] final(sorted)@[i]) == path || old(
                sorted,
            )@.contains(final(sorted)@[i]),
{
    let ghost before = sorted@;
    let mut i: usize = 0;
    while i < sorted.len() && is_path_before(sorted[i].as_str(), path.as_str())
        invariant
            i <= sorted.len(),
            sorted@ == before,
            forall|j: int| 0 <= j < i ==> path_before((#[trigger] before[j])@, path@),
        decreases sorted.len() - i,
    {
        i = i + 1;
    }
    if i < sorted.len() && same_path(sorted[i].as_str(), path.as_str()) {
        proof {
            assert(path_equals(before[i as int]@, path@));
            assert forall|k: int| 0 <= k < sorted@.len() implies (#[trigger] sorted@[k]) == path
                || before.contains(sorted@[k]) by {
                assert(before[k] == sorted@[k]);
            }
        }
        return;
    }
    let ghost p = path;
    sorted.insert(i, path);
    proof {
        let after = sorted@;
        assert(after =~= before.insert(i as int, p));
        assert(after[i as int] == p);
        assert(path_equals(after[i as int]@, p@));
        assert forall|k: int| i <= k < before.len() implies path_before(
            p@,
            (#[trigger] before[k])@,
        ) by {
            path_order_total(p@, before[i as int]@);
            assert(path_equals(p@, before[i as int]@) == path_equals(before[i as int]@, p@));
            if k > i {
                path_order_transitive(p@, before[i as int]@, before[k]@);
            }
        }
        assert forall|a: int, b: int| 0 <= a < b < after.len() implies path_before(
            (#[trigger] after[a])@,
            (#[trigger] after[b])@,
        ) by {
            let x = if a < i { a } else { a - 1 };
            let y = if b < i { b } else { b - 1 };
            if a != i {
                assert(after[a] == before[x]);
            }
            if b != i {
                assert(after[b] == before[y]);
            }
        }
        assert forall|q: Seq<char>| holds_path(before, q) implies #[trigger] holds_path(
            after,
            q,
        ) by {
            let k = choose|k: int| 0 <= k < before.len() && path_equals(
                (#[trigger] before[k])@,
                q,
            );
            let l = if k < i { k } else { k + 1 };
            assert(after[l] == before[k]);
        }
        assert forall|k: int| 0 <= k < after.len() implies (#[trigger] after[k]) == p
            || before.contains(after[k]) by {
            if k != i {
                let l = if k < i { k } else { k - 1 };
                assert(after[k] == before[l]);
            }
        }
    }
}

/// The paths in ascending order, none twice.
pub fn sorted_paths(paths: Vec<String>) -> (r: Vec<String>)
    ensures
        paths_ascending(r@),
        forall|i: int| 0 <= i < r@.len() ==> paths@.contains(#[trigger] r@[i]),
        forall|i: int| 0 <= i < paths@.len() ==> holds_path(r@, (#[trigger] paths@[i])@),
{
    let mut r: Vec<String> = Vec::new();
    let mut i: usize = 0;
    while i < paths.len()
        invariant
            i <= paths.len(),
            paths_ascending(r@),
            forall|k: int| 0 <= k < r@.len() ==> paths@.contains(#[trigger] r@[k]),
            forall|k: int| 0 <= k < i ==> holds_path(r@, (#[trigger] paths@[k])@),
        decreases paths.len() - i,
    {
        let ghost before = r@;
        let next: String = paths[i].clone();
        place_path(&mut r, next);
        proof {
            assert(next == paths@[i as int]);
            assert forall|k: int| 0 <= k < r@.len() implies paths@.contains(#[trigger] r@[k]) by {
                if r@[k] != next {
                    let l = choose|l: int| 0 <= l < before.len() && before[l] == r@[k];
                    assert(paths@.contains(before[l]));
                }
            }
        }
        i = i + 1;
    }
    r
}

/// `s` holds no `c`.
pub open spec fn free_of(s: Seq<char>, c: char) -> bool {
    forall|i: int| 0 <= i < s.len() ==> #[trigger] s[i] != c
}

/// The last segment is the end of the text, behind its last slash.
pub proof fn last_segment_ends_the_text(s: Seq<char>)
    ensures
        segments(s).len() >= 1,
        free_of(segments(s).last(), '/'),
        segments(s).last().len() <= s.len(),
        s.skip(s.len() - segments(s).last().len()) == segments(s).last(),
        segments(s).last().len() < s.len() ==> s[s.len() - segments(s).last().len() - 1] == '/',
    decreases s.len(),
{
    if s.len() > 0 {
        let front = s.drop_last();
        last_segment_ends_the_text(front);
        let own = segments(front).last();
        if s.last() == '/' {
            assert(s.skip(s.len() as int) =~= Seq::<char>::empty());
        } else {
            assert(segments(s).last() =~= own.push(s.last()));
            assert(front.skip(front.len() - own.len()) =~= own);
            assert(s.skip(s.len() - own.len() - 1) =~= own.push(s.last())) by {
                assert forall|i: int| 0 <= i < own.len() implies #[trigger] s.skip(
                    s.len() - own.len() - 1,
                )[i] == own[i] by {
                    assert(front.skip(front.len() - own.len())[i] == own[i]);
                }
            }
        }
    } else {
        assert(s.skip(0) =~= Seq::<char>::empty());
    }
}

/// What holds no slash goes on with the last segment.
pub proof fn segments_go_on(a: Seq<char>, b: Seq<char>)
    requires
        free_of(b, '/'),
    ensures
        segments(a + b) == segments(a).update(segments(a).len() - 1, segments(a).last() + b),
    decreases b.len(),
{
    segments_not_empty(a);
    let before = segments(a);
    if b.len() == 0 {
        assert(a + b =~= a);
        assert(before.last() + b =~= before.last());
        assert(before.update(before.len() - 1, before.last() + b) =~= before);
    } else {
        let front = b.drop_last();
        segments_go_on(a, front);
        assert((a + b).drop_last() =~= a + front);
        assert((a + b).last() == b.last());
        assert((before.last() + front).push(b.last()) =~= before.last() + b);
        assert(segments(a + b) =~= before.update(before.len() - 1, before.last() + b));
    }
}

/// A slash begins a new segment.
pub proof fn slash_begins_a_segment(a: Seq<char>, b: Seq<char>)
    requires
        free_of(b, '/'),
    ensures
        segments(a + seq!['/'] + b) == segments(a).push(b),
{
    let directory = a + seq!['/'];
    assert(directory.drop_last() =~= a);
    assert(segments(directory) =~= segments(a).push(Seq::empty()));
    segments_go_on(directory, b);
    assert(Seq::<char>::empty() + b =~= b);
    assert(segments(directory).update(segments(directory).len() - 1, b) =~= segments(a).push(b));
}

proof fn last_index_is_last(a: Seq<char>, c: char, b: Seq<char>)
    requires
        free_of(b, c),
    ensures
        last_index(a + seq![c] + b, c) == a.len(),
    decreases b.len(),
{
    let s = a + seq![c] + b;
    if b.len() > 0 {
        last_index_is_last(a, c, b.drop_last());
        assert(s.drop_last() =~= a + seq![c] + b.drop_last());
        assert(s.last() == b.last());
    } else {
        assert(s.last() == c);
    }
}

proof fn last_index_is_found(s: Seq<char>, c: char)
    ensures
        -1 <= last_index(s, c) < s.len(),
        last_index(s, c) >= 0 ==> s[last_index(s, c)] == c,
        free_of(s.skip(last_index(s, c) + 1), c),
    decreases s.len(),
{
    if s.len() > 0 && s.last() != c {
        let front = s.drop_last();
        last_index_is_found(front, c);
        let at = last_index(s, c);
        assert forall|i: int| 0 <= i < s.skip(at + 1).len() implies #[trigger] s.skip(at + 1)[i]
            != c by {
            if i < s.len() - at - 2 {
                assert(front.skip(at + 1)[i] == s.skip(at + 1)[i]);
            }
        }
    }
}

/// The extension of a path is what it ends in behind a dot, where that holds no dot and no slash
/// and something of the name stands before the dot.
pub proof fn extension_reads_back(front: Seq<char>, ending: Seq<char>)
    requires
        front.len() > 0,
        front.last() != '/',
        ending.len() > 0,
        free_of(ending, '.'),
        free_of(ending, '/'),
    ensures
        extension_of(front + seq!['.'] + ending) == Some(ending),
{
    last_segment_ends_the_text(front);
    let stem = segments(front).last();
    let tail = seq!['.'] + ending;
    assert(free_of(tail, '/'));
    segments_go_on(front, tail);
    assert(front + tail =~= front + seq!['.'] + ending);
    if stem.len() == 0 {
        assert(front[front.len() - 1] == '/');
    }
    let name = stem + tail;
    let all = segments(front + tail);
    assert(all.last() == name);
    assert(name.len() >= 3);
    assert(names(front + tail) == steps(all.drop_last()).push(name));
    assert(name =~= stem + seq!['.'] + ending);
    last_index_is_last(stem, '.', ending);
    assert(name.skip(stem.len() as int + 1) =~= ending);
}

/// A path that ends in a name and has an extension ends in a dot and that extension, which holds
/// no dot and no slash; something of the name stands before the dot.
pub proof fn extension_ends_the_path(path: Seq<char>) -> (front: Seq<char>)
    requires
        path.len() > 0,
        path.last() != '/',
        !is_dot(segments(path).last()),
        extension_of(path) is Some,
    ensures
        path == front + seq!['.'] + extension_of(path)->0,
        front.len() > 0,
        front.last() != '/',
        free_of(extension_of(path)->0, '.'),
        free_of(extension_of(path)->0, '/'),
{
    last_segment_ends_the_text(path);
    let name = segments(path).last();
    if name.len() == 0 {
        assert(path[path.len() - 1] == '/');
    }
    assert(names(path).last() == name);
    let dot = last_index(name, '.');
    last_index_is_found(name, '.');
    let ending = name.skip(dot + 1);
    let at = path.len() - name.len();
    let front = path.take(at + dot);
    assert(path.skip(at) =~= name);
    assert forall|i: int| 0 <= i < name.len() implies #[trigger] path[at + i] == name[i] by {
        assert(path.skip(at)[i] == name[i]);
    }
    assert(path =~= front + seq!['.'] + ending) by {
        assert forall|i: int| 0 <= i < ending.len() implies #[trigger] ending[i] == path[at + dot
            + 1 + i] by {
            assert(ending[i] == name[dot + 1 + i]);
            assert(path[at + (dot + 1 + i)] == name[dot + 1 + i]);
        }
        assert(path[at + dot] == name[dot]);
    }
    assert(front.last() == path[at + (dot - 1)]);
    assert(name[dot - 1] != '/');
    assert forall|i: int| 0 <= i < ending.len() implies #[trigger] ending[i] != '/' by {
        assert(ending[i] == name[dot + 1 + i]);
    }
    front
}

/// A slash at the end, with or without a dot behind it, changes none of a path's names.
pub proof fn trailing_slash_names_nothing(path: Seq<char>)
    ensures
        names(path + seq!['/']) == names(path),
        names(path + seq!['/', '.']) == names(path),
        file_name_of(path + seq!['/']) == file_name_of(path),
        extension_of(path + seq!['/']) == extension_of(path),
        extension_of(path + seq!['/', '.']) == extension_of(path),
{
    let empty = Seq::<char>::empty();
    let here = seq!['.'];
    slash_begins_a_segment(path, empty);
    assert(path + seq!['/'] + empty =~= path + seq!['/']);
    slash_begins_a_segment(path, here);
    assert(path + seq!['/'] + here =~= path + seq!['/', '.']);
    assert(segments(path).push(empty).drop_last() =~= segments(path));
    assert(segments(path).push(here).drop_last() =~= segments(path));
}

/// The file name of a path is what stands behind its last slash, be it a name.
pub proof fn file_name_reads_back(directory: Seq<char>, name: Seq<char>)
    requires
        name.len() > 0,
        free_of(name, '/'),
        name != seq!['.'],
        name != seq!['.', '.'],
    ensures
        file_name_of(name) == Some(name),
        file_name_of(directory + seq!['/'] + name) == Some(name),
{
    slash_begins_a_segment(directory, name);
    assert(segments(directory).push(name).drop_last() =~= segments(directory));
    segments_go_on(Seq::empty(), name);
    assert(Seq::<char>::empty() + name =~= name);
    assert(segments(Seq::<char>::empty()) =~= seq![Seq::<char>::empty()]);
    assert(segments(name) =~= seq![name]);
    assert(seq![name].drop_last() =~= Seq::<Seq<char>>::empty());
}

/// A path that stays inside goes on doing so with one more name, and no path does that climbs to a
/// parent, starts at the root or starts with a dot.
pub proof fn names_stay_inside(directory: Seq<char>, name: Seq<char>)
    requires
        name.len() > 0,
        free_of(name, '/'),
        name != seq!['.'],
        name != seq!['.', '.'],
    ensures
        stays_inside(name),
        stays_inside(directory) && directory.len() > 0 ==> stays_inside(
            directory + seq!['/'] + name,
        ),
        !stays_inside(directory + seq!['/', '.', '.']),
        !stays_inside(seq!['.', '.']),
        !stays_inside(seq!['/'] + directory),
        !stays_inside(seq!['.', '/'] + directory),
{
    file_name_reads_back(directory, name);
    segments_go_on(Seq::empty(), name);
    assert(Seq::<char>::empty() + name =~= name);
    assert(segments(name) =~= seq![name]);
    assert(seq![name].drop_last() =~= Seq::<Seq<char>>::empty());
    assert(is_step(name)) by {
        if name.len() == 1 {
            assert(name[0] != '.' ==> !is_dot(name));
        }
    }
    assert(names(name) =~= seq![name]) by {
        assert(steps(seq![name].drop_last()) =~= Seq::<Seq<char>>::empty());
        assert(seq![name].last() == name);
    }
    if name[0] == '.' && name.len() == 1 {
        assert(name =~= seq!['.']);
    }
    let path = directory + seq!['/'] + name;
    slash_begins_a_segment(directory, name);
    assert(segments(directory).push(name).drop_last() =~= segments(directory));
    assert(names(path) == names(directory).push(name));
    let up = seq!['.', '.'];
    slash_begins_a_segment(directory, up);
    assert(directory + seq!['/'] + up =~= directory + seq!['/', '.', '.']);
    assert(segments(directory).push(up).drop_last() =~= segments(directory));
    let higher = directory + seq!['/', '.', '.'];
    assert(names(higher) == names(directory).push(up));
    assert(is_dot_dot(names(higher)[names(directory).len() as int]));
    segments_go_on(Seq::empty(), up);
    assert(Seq::<char>::empty() + up =~= up);
    assert(segments(up) =~= seq![up]);
    assert(seq![up].drop_last() =~= Seq::<Seq<char>>::empty());
    assert(names(up) =~= seq![up]) by {
        assert(steps(seq![up].drop_last()) =~= Seq::<Seq<char>>::empty());
        assert(seq![up].last() == up);
    }
    assert(is_dot_dot(names(up)[0]));
    if stays_inside(directory) && directory.len() > 0 {
        assert(path[0] == directory[0]);
        if directory.len() > 1 {
            assert(path[1] == directory[1]);
        }
        assert forall|i: int| 0 <= i < names(path).len() implies !is_dot_dot(
            #[trigger] names(path)[i],
        ) by {
            if i < names(directory).len() {
                assert(!is_dot_dot(names(directory)[i]));
            }
        }
    }
}

proof fn segment_starts_behind_the_slash(s: Seq<char>, start: int, at: int, n: int)
    requires
        0 <= start < at <= n <= s.len(),
        s[at - 1] == '/',
        forall|i: int| at <= i < n ==> #[trigger] s[i] != '/',
    ensures
        segment_start(s, start, n) == at,
    decreases n - at,
{
    if n > at {
        assert(s[n - 1] != '/');
        segment_starts_behind_the_slash(s, start, at, n - 1);
    }
}

/// The parent of a file in a directory is the directory, however the directory is written, short of
/// slashes and dots at its end.
pub proof fn parent_reads_back(directory: Seq<char>, name: Seq<char>)
    requires
        name.len() > 0,
        free_of(name, '/'),
        name != seq!['.'],
        directory.len() > 1,
        directory.last() != '/',
        is_step(directory.skip(segment_start(directory, body_start(directory), directory.len() as int))),
        body_start(directory) < directory.len(),
    ensures
        parent_of(directory + seq!['/'] + name) == Some(directory),
{
    let path = directory + seq!['/'] + name;
    let m = directory.len() as int;
    let n = path.len() as int;
    let start = body_start(directory);
    assert(path[0] == directory[0] && path[1] == directory[1]);
    assert(body_start(path) == start);
    assert forall|i: int| m + 1 <= i < n implies #[trigger] path[i] != '/' by {
        assert(path[i] == name[i - m - 1]);
    }
    segment_starts_behind_the_slash(path, start, m + 1, n);
    assert(path.subrange(m + 1, n) =~= name);
    assert(is_step(name));
    assert(trimmed(path, start, n) == n);
    segment_start_bounds(directory, start, m);
    same_segment_start(path, directory, start, m);
    let at = segment_start(directory, start, m);
    assert(path.subrange(at, m) =~= directory.skip(at));
    assert(trimmed(path, start, m) == m);
    assert(path.take(m) =~= directory);
}

proof fn same_segment_start(a: Seq<char>, b: Seq<char>, start: int, n: int)
    requires
        0 <= start <= n <= a.len(),
        n <= b.len(),
        forall|i: int| 0 <= i < n ==> a[i] == b[i],
    ensures
        segment_start(a, start, n) == segment_start(b, start, n),
    decreases n - start,
{
    if n > start {
        same_segment_start(a, b, start, n - 1);
    }
}

proof fn first_step_orders(
    front: Seq<Seq<char>>,
    a: Seq<char>,
    b: Seq<char>,
    s: Seq<Seq<char>>,
    t: Seq<Seq<char>>,
)
    requires
        a != b,
        !is_dot_dot(a),
        !is_dot_dot(b),
    ensures
        names_before(front + seq![a] + s, front + seq![b] + t) <==> text_before(a, b),
    decreases front.len(),
{
    let x = front + seq![a] + s;
    let y = front + seq![b] + t;
    if front.len() == 0 {
        assert(x[0] == a && y[0] == b);
    } else {
        let rest = front.drop_first();
        first_step_orders(rest, a, b, s, t);
        assert(x.drop_first() =~= rest + seq![a] + s);
        assert(y.drop_first() =~= rest + seq![b] + t);
        assert(x[0] == front[0] && y[0] == front[0]);
    }
}

proof fn fewer_steps_come_first(front: Seq<Seq<char>>, a: Seq<char>, s: Seq<Seq<char>>)
    ensures
        names_before(front, front + seq![a] + s),
    decreases front.len(),
{
    let x = front + seq![a] + s;
    if front.len() > 0 {
        let rest = front.drop_first();
        fewer_steps_come_first(rest, a, s);
        assert(x.drop_first() =~= rest + seq![a] + s);
        assert(x[0] == front[0]);
    }
}

/// Two paths that begin alike are ordered by the first name in which they differ.
pub proof fn first_name_orders_paths(
    p: Seq<char>,
    q: Seq<char>,
    front: Seq<Seq<char>>,
    a: Seq<char>,
    b: Seq<char>,
    s: Seq<Seq<char>>,
    t: Seq<Seq<char>>,
)
    requires
        rooted(p) == rooted(q),
        starts_here(p) == starts_here(q),
        names(p) == front + seq![a] + s,
        names(q) == front + seq![b] + t,
        a != b,
        !is_dot_dot(a),
        !is_dot_dot(b),
    ensures
        path_before(p, q) <==> text_before(a, b),
{
    first_step_orders(front, a, b, s, t);
}

/// A directory comes before every path inside it.
pub proof fn directories_come_before_their_files(
    p: Seq<char>,
    q: Seq<char>,
    a: Seq<char>,
    s: Seq<Seq<char>>,
)
    requires
        rooted(p) == rooted(q),
        starts_here(p) == starts_here(q),
        names(q) == names(p) + seq![a] + s,
    ensures
        path_before(p, q),
{
    fewer_steps_come_first(names(p), a, s);
}

} // verus!
