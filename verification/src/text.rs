//! Scanning of text: trimming, splitting and searching by character.
use vstd::prelude::*;

verus! {

/// The characters with the Unicode property `White_Space`.
pub open spec fn white_space(c: char) -> bool {
    let code = c as u32;
    ||| 0x09 <= code <= 0x0d
    ||| code == 0x20
    ||| code == 0x85
    ||| code == 0xa0
    ||| code == 0x1680
    ||| 0x2000 <= code <= 0x200a
    ||| code == 0x2028
    ||| code == 0x2029
    ||| code == 0x202f
    ||| code == 0x205f
    ||| code == 0x3000
}

/// Whether a text holds nothing but white space.
pub open spec fn blank(s: Seq<char>) -> bool {
    forall|i: int| 0 <= i < s.len() ==> white_space(#[trigger] s[i])
}

/// `s` without the longest run of characters at its start that satisfy `drop`.
pub open spec fn strip_start(s: Seq<char>, drop: spec_fn(char) -> bool) -> Seq<char>
    decreases s.len(),
{
    if s.len() > 0 && drop(s.first()) {
        strip_start(s.drop_first(), drop)
    } else {
        s
    }
}

/// `s` without the longest run of characters at its end that satisfy `drop`.
pub open spec fn strip_end(s: Seq<char>, drop: spec_fn(char) -> bool) -> Seq<char>
    decreases s.len(),
{
    if s.len() > 0 && drop(s.last()) {
        strip_end(s.drop_last(), drop)
    } else {
        s
    }
}

/// `s` without the white space around it.
pub open spec fn trimmed(s: Seq<char>) -> Seq<char> {
    strip_end(strip_start(s, |c: char| white_space(c)), |c: char| white_space(c))
}

/// The parts of `s` before and after the first `sep`.
pub open spec fn split_once_at(s: Seq<char>, sep: char) -> Option<(Seq<char>, Seq<char>)> {
    match s.index_of_first(sep) {
        Some(i) => Some((s.take(i), s.skip(i + 1))),
        None => None,
    }
}

/// The parts of `s` between its separators, in order.
pub open spec fn split_at(s: Seq<char>, sep: char) -> Seq<Seq<char>>
    decreases s.len(),
    via split_at_decreases
{
    match split_once_at(s, sep) {
        Some((head, tail)) => seq![head] + split_at(tail, sep),
        None => seq![s],
    }
}

#[via_fn]
proof fn split_at_decreases(s: Seq<char>, sep: char) {
    s.index_of_first_ensures(sep);
}

/// Whether `needle` stands in `s` at position `at`.
pub open spec fn occurs_at(s: Seq<char>, needle: Seq<char>, at: int) -> bool {
    0 <= at <= s.len() - needle.len() && s.subrange(at, at + needle.len()) == needle
}

/// Whether `needle` stands anywhere in `s`.
pub open spec fn occurs(s: Seq<char>, needle: Seq<char>) -> bool {
    exists|at: int| occurs_at(s, needle, at)
}

/// Whether `c` is white space.
fn is_white_space(c: char) -> (r: bool)
    ensures
        r == white_space(c),
{
    let code: u32 = c as u32;
    (0x09 <= code && code <= 0x0d) || code == 0x20 || code == 0x85 || code == 0xa0 || code == 0x1680
        || (0x2000 <= code && code <= 0x200a) || code == 0x2028 || code == 0x2029 || code == 0x202f
        || code == 0x205f || code == 0x3000
}

/// The characters of `s`.
fn chars_of(s: &str) -> (chars: Vec<char>)
    ensures
        chars@ == s@,
{
    let mut chars: Vec<char> = Vec::new();
    for c in rest: s.chars()
        invariant
            rest.seq() == s@,
            chars@ == s@.take(rest.index()),
    {
        chars.push(c);
    }
    chars
}

/// `s` without the white space around it.
pub fn trim(s: &str) -> (r: &str)
    ensures
        r@ == trimmed(s@),
{
    let chars = chars_of(s);
    let n: usize = chars.len();
    let ghost drop = |c: char| white_space(c);
    let mut lo: usize = 0;
    assert(s@.skip(0) =~= s@);
    while lo < n && is_white_space(chars[lo])
        invariant
            lo <= n,
            n == chars.len(),
            chars@ == s@,
            drop == (|c: char| white_space(c)),
            strip_start(s@, drop) == strip_start(s@.skip(lo as int), drop),
        decreases n - lo,
    {
        assert(s@.skip(lo as int).drop_first() =~= s@.skip(lo + 1));
        lo = lo + 1;
    }
    let mut hi: usize = n;
    assert(s@.subrange(lo as int, n as int) =~= s@.skip(lo as int));
    while hi > lo && is_white_space(chars[hi - 1])
        invariant
            lo <= hi <= n,
            n == chars.len(),
            chars@ == s@,
            drop == (|c: char| white_space(c)),
            trimmed(s@) == strip_end(s@.subrange(lo as int, hi as int), drop),
        decreases hi,
    {
        assert(s@.subrange(lo as int, hi as int).drop_last() =~= s@.subrange(lo as int, hi - 1));
        hi = hi - 1;
    }
    s.substring_char(lo, hi)
}

/// `s` without the copies of `c` at its end.
pub fn trim_end_matches(s: &str, c: char) -> (r: &str)
    ensures
        r@ == strip_end(s@, |x: char| x == c),
{
    let chars = chars_of(s);
    let n: usize = chars.len();
    let ghost drop = |x: char| x == c;
    let mut hi: usize = n;
    assert(s@.take(n as int) =~= s@);
    while hi > 0 && chars[hi - 1] == c
        invariant
            hi <= n,
            n == chars.len(),
            chars@ == s@,
            drop == (|x: char| x == c),
            strip_end(s@, drop) == strip_end(s@.take(hi as int), drop),
        decreases hi,
    {
        assert(s@.take(hi as int).drop_last() =~= s@.take(hi - 1));
        hi = hi - 1;
    }
    assert(s@.subrange(0, hi as int) =~= s@.take(hi as int));
    s.substring_char(0, hi)
}

/// The parts of `s` before and after the first `sep`, if there is one.
pub fn split_once<'a>(s: &'a str, sep: char) -> (r: Option<(&'a str, &'a str)>)
    ensures
        match r {
            Some((head, tail)) => split_once_at(s@, sep) == Some((head@, tail@)),
            None => split_once_at(s@, sep) is None,
        },
{
    let chars = chars_of(s);
    let n: usize = chars.len();
    let mut i: usize = 0;
    proof {
        s@.index_of_first_ensures(sep);
    }
    while i < n && chars[i] != sep
        invariant
            i <= n,
            n == chars.len(),
            chars@ == s@,
            forall|j: int| 0 <= j < i ==> s@[j] != sep,
        decreases n - i,
    {
        i = i + 1;
    }
    if i == n {
        None
    } else {
        assert(s@[i as int] == sep);
        assert(s@.contains(sep));
        assert(s@.subrange(0, i as int) =~= s@.take(i as int));
        assert(s@.subrange(i + 1, n as int) =~= s@.skip(i + 1));
        Some((s.substring_char(0, i), s.substring_char(i + 1, n)))
    }
}

/// The parts of `s` between its separators, in order.
pub fn split<'a>(s: &'a str, sep: char) -> (parts: Vec<&'a str>)
    ensures
        parts@.map_values(|part: &'a str| part@) == split_at(s@, sep),
{
    let mut parts: Vec<&'a str> = Vec::new();
    let mut rest: &'a str = s;
    let ghost text = |part: &'a str| part@;
    loop
        invariant
            text == (|part: &'a str| part@),
            parts@.map_values(text) + split_at(rest@, sep) == split_at(s@, sep),
        decreases rest@.len(),
    {
        let ghost before = parts@;
        match split_once(rest, sep) {
            Some((head, tail)) => {
                proof {
                    rest@.index_of_first_ensures(sep);
                }
                parts.push(head);
                assert(parts@.map_values(text) + split_at(tail@, sep) =~= before.map_values(text)
                    + split_at(rest@, sep));
                rest = tail;
            },
            None => {
                parts.push(rest);
                assert(parts@.map_values(text) =~= before.map_values(text) + split_at(rest@, sep));
                return parts;
            },
        }
    }
}

/// Whether `needle` stands in `chars` at position `at`.
fn stands_at(chars: &Vec<char>, needle: &Vec<char>, at: usize) -> (r: bool)
    requires
        at + needle.len() <= chars.len(),
    ensures
        r == occurs_at(chars@, needle@, at as int),
{
    let mut i: usize = 0;
    while i < needle.len()
        invariant
            i <= needle.len(),
            at + needle.len() <= chars.len(),
            forall|j: int| 0 <= j < i ==> #[trigger] needle@[j] == chars@[at + j],
        decreases needle.len() - i,
    {
        if chars[at + i] != needle[i] {
            assert(chars@.subrange(at as int, at + needle@.len())[i as int] != needle@[i as int]);
            return false;
        }
        i = i + 1;
    }
    assert(chars@.subrange(at as int, at + needle@.len()) =~= needle@);
    true
}

/// Whether `needle` stands anywhere in `s`.
pub fn contains(s: &str, needle: &str) -> (r: bool)
    ensures
        r == occurs(s@, needle@),
{
    let chars = chars_of(s);
    let sought = chars_of(needle);
    if sought.len() > chars.len() {
        return false;
    }
    let last: usize = chars.len() - sought.len();
    let mut at: usize = 0;
    while at <= last
        invariant
            at <= last + 1,
            last == chars.len() - sought.len(),
            chars@ == s@,
            sought@ == needle@,
            forall|j: int| 0 <= j < at ==> !occurs_at(s@, needle@, j),
        decreases last + 1 - at,
    {
        if stands_at(&chars, &sought, at) {
            return true;
        }
        if at == last {
            return false;
        }
        at = at + 1;
    }
    false
}

/// Whether `s` begins with `prefix`.
pub fn starts_with(s: &str, prefix: &str) -> (r: bool)
    ensures
        r == prefix@.is_prefix_of(s@),
{
    let chars = chars_of(s);
    let sought = chars_of(prefix);
    sought.len() <= chars.len() && stands_at(&chars, &sought, 0)
}

/// Whether `s` ends with `suffix`.
pub fn ends_with(s: &str, suffix: &str) -> (r: bool)
    ensures
        r == suffix@.is_suffix_of(s@),
{
    let chars = chars_of(s);
    let sought = chars_of(suffix);
    sought.len() <= chars.len() && stands_at(&chars, &sought, chars.len() - sought.len())
}

/// Whether two texts are the same.
pub fn same(a: &str, b: &str) -> (r: bool)
    ensures
        r == (a@ == b@),
{
    a.to_string() == b.to_string()
}

/// A text splits at its first separator into what stands before and after it.
pub(crate) proof fn lemma_split_once(head: Seq<char>, sep: char, tail: Seq<char>)
    requires
        !head.contains(sep),
    ensures
        split_once_at(head + seq![sep] + tail, sep) == Some((head, tail)),
{
    let s = head + seq![sep] + tail;
    s.index_of_first_ensures(sep);
    assert(s[head.len() as int] == sep);
    assert(s.contains(sep));
    let i = s.index_of_first(sep)->0;
    if i < head.len() {
        assert(head[i] == sep);
    }
    assert(s.take(head.len() as int) =~= head);
    assert(s.skip(head.len() as int + 1) =~= tail);
}

/// A text without a separator does not split.
pub(crate) proof fn lemma_split_none(s: Seq<char>, sep: char)
    requires
        !s.contains(sep),
    ensures
        split_once_at(s, sep) is None,
        split_at(s, sep) == seq![s],
{
    s.index_of_first_ensures(sep);
}

/// The parts around the first separator make up the text.
pub(crate) proof fn lemma_split_once_joins(s: Seq<char>, sep: char)
    ensures
        match split_once_at(s, sep) {
            Some((head, tail)) => s == head + seq![sep] + tail && !head.contains(sep),
            None => !s.contains(sep),
        },
{
    s.index_of_first_ensures(sep);
    if let Some((head, tail)) = split_once_at(s, sep) {
        assert(s =~= head + seq![sep] + tail);
    }
}

/// A text in lower case, as `str::to_lowercase` maps it.
pub uninterp spec fn lowercase(s: Seq<char>) -> Seq<char>;

/// `str::to_lowercase`: the lower-case form of a text by Unicode's mapping,
/// which is not spelled out here.
#[verifier::external_body]
pub(crate) fn to_lowercase(s: &str) -> (r: String)
    ensures
        r@ == lowercase(s@),
{
    s.to_lowercase()
}

/// Where a run at the start ends, stripping ends.
proof fn lemma_strip_start_at(s: Seq<char>, drop: spec_fn(char) -> bool, n: int)
    requires
        0 <= n <= s.len(),
        forall|i: int| 0 <= i < n ==> drop(#[trigger] s[i]),
        n < s.len() ==> !drop(s[n]),
    ensures
        strip_start(s, drop) == s.skip(n),
    decreases n,
{
    if n > 0 {
        assert(drop(s[0]));
        assert forall|i: int| 0 <= i < n - 1 implies drop(#[trigger] s.drop_first()[i]) by {
            assert(drop(s[i + 1]));
        }
        lemma_strip_start_at(s.drop_first(), drop, n - 1);
        assert(s.drop_first().skip(n - 1) =~= s.skip(n));
    } else {
        assert(s.skip(0) =~= s);
    }
}

/// Where a run at the end begins, stripping ends.
proof fn lemma_strip_end_at(s: Seq<char>, drop: spec_fn(char) -> bool, n: int)
    requires
        0 <= n <= s.len(),
        forall|i: int| n <= i < s.len() ==> drop(#[trigger] s[i]),
        n > 0 ==> !drop(s[n - 1]),
    ensures
        strip_end(s, drop) == s.take(n),
    decreases s.len(),
{
    if n < s.len() {
        assert(drop(s.last()));
        lemma_strip_end_at(s.drop_last(), drop, n);
        assert(s.drop_last().take(n) =~= s.take(n));
    } else {
        assert(s.take(n) =~= s);
    }
}

/// The first of the characters of `s`, from `from` on, that is no white space, or the end.
spec fn first_solid(s: Seq<char>, from: int) -> int
    decreases s.len() - from,
{
    if from < s.len() && white_space(s[from]) {
        first_solid(s, from + 1)
    } else {
        from
    }
}

/// The end of the characters of `s`, below `to`, without the white space there.
spec fn last_solid(s: Seq<char>, to: int) -> int
    decreases to,
{
    if to > 0 && white_space(s[to - 1]) {
        last_solid(s, to - 1)
    } else {
        to
    }
}

proof fn lemma_first_solid(s: Seq<char>, from: int)
    requires
        0 <= from <= s.len(),
    ensures
        from <= first_solid(s, from) <= s.len(),
        forall|i: int| from <= i < first_solid(s, from) ==> white_space(#[trigger] s[i]),
        first_solid(s, from) < s.len() ==> !white_space(s[first_solid(s, from)]),
    decreases s.len() - from,
{
    if from < s.len() && white_space(s[from]) {
        lemma_first_solid(s, from + 1);
    }
}

proof fn lemma_last_solid(s: Seq<char>, to: int)
    requires
        0 <= to <= s.len(),
    ensures
        0 <= last_solid(s, to) <= to,
        forall|i: int| last_solid(s, to) <= i < to ==> white_space(#[trigger] s[i]),
        last_solid(s, to) > 0 ==> !white_space(s[last_solid(s, to) - 1]),
    decreases to,
{
    if to > 0 && white_space(s[to - 1]) {
        lemma_last_solid(s, to - 1);
    }
}

/// White space around `s.subrange(a, b)`, and none at its ends.
pub(crate) open spec fn solid_between(s: Seq<char>, a: int, b: int) -> bool {
    &&& 0 <= a <= b <= s.len()
    &&& forall|i: int| 0 <= i < a ==> white_space(#[trigger] s[i])
    &&& forall|i: int| b <= i < s.len() ==> white_space(#[trigger] s[i])
    &&& a < b ==> !white_space(s[a]) && !white_space(s[b - 1])
}

/// Trimming leaves what stands between the white space.
pub(crate) proof fn lemma_trimmed_is(s: Seq<char>, a: int, b: int)
    requires
        solid_between(s, a, b),
    ensures
        trimmed(s) == s.subrange(a, b),
{
    let drop = |c: char| white_space(c);
    if a < b {
        lemma_strip_start_at(s, drop, a);
        let rest = s.skip(a);
        assert forall|i: int| b - a <= i < rest.len() implies drop(#[trigger] rest[i]) by {
            assert(white_space(s[a + i]));
        }
        lemma_strip_end_at(rest, drop, b - a);
        assert(rest.take(b - a) =~= s.subrange(a, b));
    } else {
        assert forall|i: int| 0 <= i < s.len() implies drop(#[trigger] s[i]) by {
            assert(white_space(s[i]));
        }
        lemma_strip_start_at(s, drop, s.len() as int);
        let rest = s.skip(s.len() as int);
        lemma_strip_end_at(rest, drop, 0);
        assert(rest.take(0) =~= s.subrange(a, b));
    }
}

/// There is a place where the white space around a text ends on either side.
pub(crate) proof fn lemma_trimmed_bounds(s: Seq<char>) -> (bounds: (int, int))
    ensures
        solid_between(s, bounds.0, bounds.1),
        trimmed(s) == s.subrange(bounds.0, bounds.1),
{
    let a = first_solid(s, 0);
    lemma_first_solid(s, 0);
    let b = if a < s.len() {
        last_solid(s, s.len() as int)
    } else {
        s.len() as int
    };
    lemma_last_solid(s, s.len() as int);
    if a < s.len() && b <= a {
        assert(white_space(s[a]));
    }
    lemma_trimmed_is(s, a, b);
    (a, b)
}

/// Trimming twice is trimming once.
pub proof fn law_trimming_is_idempotent(s: Seq<char>)
    ensures
        trimmed(trimmed(s)) == trimmed(s),
{
    let (a, b) = lemma_trimmed_bounds(s);
    let t = trimmed(s);
    lemma_trimmed_is(t, 0, t.len() as int);
    assert(t.subrange(0, t.len() as int) =~= t);
}

/// White space around a text makes no difference to what trimming leaves of it.
pub proof fn law_trimming_ignores_padding(left: Seq<char>, s: Seq<char>, right: Seq<char>)
    requires
        blank(left),
        blank(right),
    ensures
        trimmed(left + s + right) == trimmed(s),
{
    let (a, b) = lemma_trimmed_bounds(s);
    let whole = left + s + right;
    let n = left.len() as int;
    assert forall|i: int| 0 <= i < n + a implies white_space(#[trigger] whole[i]) by {
        if i < n {
            assert(white_space(left[i]));
        } else {
            assert(white_space(s[i - n]));
        }
    }
    assert forall|i: int| n + b <= i < whole.len() implies white_space(#[trigger] whole[i]) by {
        if i < n + s.len() {
            assert(white_space(s[i - n]));
        } else {
            assert(white_space(right[i - n - s.len()]));
        }
    }
    lemma_trimmed_is(whole, n + a, n + b);
    assert(whole.subrange(n + a, n + b) =~= s.subrange(a, b));
}

/// What is left of a text is what stands between the white space at its two
/// ends, and nothing if there is nothing else.
pub proof fn law_trimming_leaves_the_middle(left: Seq<char>, middle: Seq<char>, right: Seq<char>)
    requires
        blank(left),
        blank(right),
        middle.len() > 0 ==> !white_space(middle[0]) && !white_space(middle.last()),
    ensures
        trimmed(left + middle + right) == middle,
{
    law_trimming_ignores_padding(left, middle, right);
    lemma_trimmed_is(middle, 0, middle.len() as int);
    assert(middle.subrange(0, middle.len() as int) =~= middle);
}

/// Copies of a character at the end of a text are stripped, all of them, and
/// nothing before them is.
pub proof fn law_copies_at_the_end_are_stripped(text: Seq<char>, c: char, copies: nat)
    requires
        text.len() > 0 ==> text.last() != c,
    ensures
        strip_end(text + Seq::new(copies, |i: int| c), |x: char| x == c) == text,
{
    let whole = text + Seq::new(copies, |i: int| c);
    let n = text.len() as int;
    assert(n > 0 ==> whole[n - 1] == text.last());
    lemma_strip_end_at(whole, |x: char| x == c, n);
    assert(whole.take(n) =~= text);
}

/// A text splits at the first separator in it, and not at all if there is none.
pub proof fn law_first_separator_splits(head: Seq<char>, sep: char, tail: Seq<char>)
    requires
        !head.contains(sep),
    ensures
        split_once_at(head + seq![sep] + tail, sep) == Some((head, tail)),
        split_once_at(head, sep) is None,
{
    lemma_split_once(head, sep, tail);
    lemma_split_none(head, sep);
}

/// Texts with a separator between each two of them.
pub open spec fn joined(parts: Seq<Seq<char>>, sep: char) -> Seq<char>
    decreases parts.len(),
{
    if parts.len() == 0 {
        seq![]
    } else if parts.len() == 1 {
        parts[0]
    } else {
        parts[0] + seq![sep] + joined(parts.drop_first(), sep)
    }
}

/// Texts without separators, joined by separators, split into the same texts.
pub proof fn law_splitting_undoes_joining(parts: Seq<Seq<char>>, sep: char)
    requires
        parts.len() > 0,
        forall|i: int| 0 <= i < parts.len() ==> !(#[trigger] parts[i]).contains(sep),
    ensures
        split_at(joined(parts, sep), sep) == parts,
    decreases parts.len(),
{
    if parts.len() == 1 {
        lemma_split_none(parts[0], sep);
        assert(parts =~= seq![parts[0]]);
    } else {
        let rest = parts.drop_first();
        assert forall|i: int| 0 <= i < rest.len() implies !(#[trigger] rest[i]).contains(sep) by {
            assert(rest[i] == parts[i + 1]);
        }
        law_splitting_undoes_joining(rest, sep);
        lemma_split_once(parts[0], sep, joined(rest, sep));
        assert(parts =~= seq![parts[0]] + rest);
    }
}

/// What a text splits into, joined again, is the text, and holds no separators.
pub proof fn law_joining_undoes_splitting(s: Seq<char>, sep: char)
    ensures
        split_at(s, sep).len() > 0,
        joined(split_at(s, sep), sep) == s,
        forall|i: int| 0 <= i < split_at(s, sep).len() ==> !(#[trigger] split_at(s, sep)[i]).contains(sep),
    decreases s.len(),
{
    lemma_split_once_joins(s, sep);
    if let Some((head, tail)) = split_once_at(s, sep) {
        law_joining_undoes_splitting(tail, sep);
        let parts = split_at(s, sep);
        let rest = split_at(tail, sep);
        assert(parts =~= seq![head] + rest);
        assert(parts.drop_first() =~= rest);
        assert forall|i: int| 0 <= i < parts.len() implies !(#[trigger] parts[i]).contains(sep) by {
            if i > 0 {
                assert(parts[i] == rest[i - 1]);
            }
        }
    }
}

/// A text is found in another exactly where the other is made up of it and of
/// something before and after it.
pub proof fn law_found_is_a_part(s: Seq<char>, needle: Seq<char>)
    ensures
        occurs(s, needle) <==> exists|before: Seq<char>, after: Seq<char>|
            s == #[trigger] (before + needle + after),
{
    if occurs(s, needle) {
        let at = choose|at: int| occurs_at(s, needle, at);
        let before = s.take(at);
        let after = s.skip(at + needle.len());
        assert(s =~= before + s.subrange(at, at + needle.len()) + after);
        assert(s == before + needle + after);
    }
    if exists|before: Seq<char>, after: Seq<char>| s == #[trigger] (before + needle + after) {
        let (before, after) = choose|before: Seq<char>, after: Seq<char>|
            s == #[trigger] (before + needle + after);
        let at = before.len() as int;
        assert(s.subrange(at, at + needle.len()) =~= needle);
        assert(occurs_at(s, needle, at));
    }
}

/// One more text at the end of joined texts stands behind one more separator.
pub(crate) proof fn lemma_joined_push(parts: Seq<Seq<char>>, part: Seq<char>, sep: char)
    requires
        parts.len() > 0,
    ensures
        joined(parts.push(part), sep) == joined(parts, sep) + seq![sep] + part,
    decreases parts.len(),
{
    let more = parts.push(part);
    assert(more.drop_first() =~= parts.drop_first().push(part));
    if parts.len() > 1 {
        lemma_joined_push(parts.drop_first(), part, sep);
        assert(joined(more, sep) =~= joined(parts, sep) + seq![sep] + part);
    } else {
        assert(more.drop_first() =~= seq![part]);
        assert(joined(seq![part], sep) == part);
    }
}

} // verus!
