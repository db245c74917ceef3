//! The JSON of an object, as far as the library writes it.
use vstd::prelude::*;
use vstd::utf8::*;

use crate::json::JsonView;

verus! {

/// A digit below sixteen: `0` to `9`, `a` to `f`.
pub open spec fn hex_digit(value: int) -> char {
    if value < 10 {
        (48 + value) as u8 as char
    } else {
        (87 + value) as u8 as char
    }
}

/// A character as it stands in a JSON string. Quotes, backslashes and control
/// characters are escaped.
pub open spec fn escaped_char(c: char) -> Seq<char> {
    if c == '"' || c == '\\' {
        seq!['\\', c]
    } else if c == '\u{8}' {
        seq!['\\', 'b']
    } else if c == '\t' {
        seq!['\\', 't']
    } else if c == '\n' {
        seq!['\\', 'n']
    } else if c == '\u{c}' {
        seq!['\\', 'f']
    } else if c == '\r' {
        seq!['\\', 'r']
    } else if c <= '\u{1f}' {
        seq!['\\', 'u', '0', '0', hex_digit(c as int / 16), hex_digit(c as int % 16)]
    } else {
        seq![c]
    }
}

/// A text as it stands between the quotes of a JSON string.
pub open spec fn escaped(text: Seq<char>) -> Seq<char>
    decreases text.len(),
{
    if text.len() == 0 {
        seq![]
    } else {
        escaped_char(text[0]) + escaped(text.drop_first())
    }
}

/// A JSON string.
pub open spec fn quoted(text: Seq<char>) -> Seq<char> {
    seq!['"'] + escaped(text) + seq!['"']
}

/// The decimal digits of a number.
pub open spec fn digits(number: nat) -> Seq<char>
    decreases number,
{
    if number < 10 {
        seq![hex_digit(number as int)]
    } else {
        digits(number / 10) + seq![hex_digit(number as int % 10)]
    }
}

/// A value as JSON. One that is not held whole has no JSON.
pub open spec fn value_text(value: JsonView) -> Seq<char> {
    match value {
        JsonView::Bool(true) => "true"@,
        JsonView::Bool(false) => "false"@,
        JsonView::Int(number) => if number < 0 {
            seq!['-'] + digits((-number) as nat)
        } else {
            digits(number as nat)
        },
        JsonView::Text(text) => quoted(text),
        JsonView::Other => seq![],
    }
}

/// Whether `a` comes before `b`, by the first character that differs.
pub open spec fn precedes(a: Seq<char>, b: Seq<char>) -> bool
    decreases a.len(),
{
    if a.len() == 0 || b.len() == 0 {
        a.len() < b.len()
    } else if a[0] != b[0] {
        a[0] < b[0]
    } else {
        precedes(a.drop_first(), b.drop_first())
    }
}

/// Whether each text comes before those after it.
pub open spec fn ascending(keys: Seq<Seq<char>>) -> bool {
    forall|i: int, j: int|
        0 <= i < j < keys.len() ==> precedes(#[trigger] keys[i], #[trigger] keys[j])
}

/// Whether `keys` are the keys of the object, each once and in order.
pub open spec fn keys_in_order(
    object: Map<Seq<char>, JsonView>,
    keys: Seq<Seq<char>>,
) -> bool {
    &&& forall|key: Seq<char>| #[trigger] keys.contains(key) <==> object.contains_key(key)
    &&& ascending(keys)
}

/// The members under the given keys as JSON, with commas between them.
pub open spec fn members_text(
    object: Map<Seq<char>, JsonView>,
    keys: Seq<Seq<char>>,
) -> Seq<char>
    decreases keys.len(),
{
    if keys.len() == 0 {
        seq![]
    } else {
        let last = quoted(keys.last()) + seq![':'] + value_text(object[keys.last()]);
        if keys.len() == 1 {
            last
        } else {
            members_text(object, keys.drop_last()) + seq![','] + last
        }
    }
}

/// An object as JSON, with its members in the order of their keys.
pub open spec fn object_text(object: Map<Seq<char>, JsonView>) -> Seq<char> {
    let keys = choose|keys: Seq<Seq<char>>| keys_in_order(object, keys);
    seq!['{'] + members_text(object, keys) + seq!['}']
}

/// An object as JSON, in bytes.
pub open spec fn json_text(object: Map<Seq<char>, JsonView>) -> Seq<u8> {
    encode_utf8(object_text(object))
}

proof fn lemma_precedes_transitive(a: Seq<char>, b: Seq<char>, c: Seq<char>)
    requires
        precedes(a, b),
        precedes(b, c),
    ensures
        precedes(a, c),
    decreases a.len(),
{
    if a.len() > 0 && a[0] == b[0] && b[0] == c[0] {
        lemma_precedes_transitive(a.drop_first(), b.drop_first(), c.drop_first());
    }
}

proof fn lemma_precedes_total(a: Seq<char>, b: Seq<char>)
    requires
        a != b,
    ensures
        precedes(a, b) || precedes(b, a),
    decreases a.len(),
{
    if a.len() > 0 && b.len() > 0 && a[0] == b[0] {
        if a.drop_first() == b.drop_first() {
            assert(a =~= seq![a[0]] + a.drop_first());
            assert(b =~= seq![b[0]] + b.drop_first());
        }
        lemma_precedes_total(a.drop_first(), b.drop_first());
    } else if a.len() == 0 && b.len() == 0 {
        assert(a =~= b);
    }
}

/// A key that is not yet there finds its place among keys in order.
proof fn lemma_key_finds_its_place(keys: Seq<Seq<char>>, key: Seq<char>) -> (more: Seq<Seq<char>>)
    requires
        ascending(keys),
        !keys.contains(key),
    ensures
        ascending(more),
        forall|k: Seq<char>| #[trigger] more.contains(k) <==> keys.contains(k) || k == key,
    decreases keys.len(),
{
    let last = keys.last();
    if keys.len() == 0 || precedes(last, key) {
        let more = keys.push(key);
        assert forall|i: int, j: int| 0 <= i < j < more.len() implies precedes(
            #[trigger] more[i],
            #[trigger] more[j],
        ) by {
            if j == keys.len() && i < keys.len() - 1 {
                assert(precedes(keys[i], keys[keys.len() - 1]));
                lemma_precedes_transitive(keys[i], last, key);
            }
        }
        assert forall|k: Seq<char>| #[trigger] more.contains(k) <==> keys.contains(k) || k == key by {
            if keys.contains(k) {
                let i = choose|i: int| 0 <= i < keys.len() && keys[i] == k;
                assert(more[i] == k);
            }
            assert(more[keys.len() as int] == key);
        }
        more
    } else {
        let front = keys.drop_last();
        assert(!front.contains(key)) by {
            if front.contains(key) {
                let i = choose|i: int| 0 <= i < front.len() && front[i] == key;
                assert(keys[i] == key);
            }
        }
        let placed = lemma_key_finds_its_place(front, key);
        let more = placed.push(last);
        assert(keys[keys.len() - 1] == last);
        lemma_precedes_total(key, last);
        assert forall|i: int, j: int| 0 <= i < j < more.len() implies precedes(
            #[trigger] more[i],
            #[trigger] more[j],
        ) by {
            if j == placed.len() {
                assert(placed.contains(placed[i]));
                if placed[i] != key {
                    let n = choose|n: int| 0 <= n < front.len() && front[n] == placed[i];
                    assert(precedes(keys[n], keys[keys.len() - 1]));
                }
            }
        }
        assert forall|k: Seq<char>| #[trigger] more.contains(k) <==> keys.contains(k) || k == key by {
            if more.contains(k) {
                let i = choose|i: int| 0 <= i < more.len() && more[i] == k;
                if i < placed.len() {
                    assert(placed.contains(placed[i]));
                    if k != key {
                        let n = choose|n: int| 0 <= n < front.len() && front[n] == k;
                        assert(keys[n] == k);
                    }
                }
            }
            if keys.contains(k) && k != last {
                let n = choose|n: int| 0 <= n < keys.len() && keys[n] == k;
                assert(front[n] == k);
            }
            if placed.contains(k) {
                let i = choose|i: int| 0 <= i < placed.len() && placed[i] == k;
                assert(more[i] == k);
            }
            assert(more[placed.len() as int] == last);
            if k == key {
                assert(placed.contains(k));
            }
        }
        more
    }
}

/// The keys of an object can be put in order.
proof fn lemma_keys_have_an_order(object: Map<Seq<char>, JsonView>) -> (keys: Seq<Seq<char>>)
    requires
        object.dom().finite(),
    ensures
        keys_in_order(object, keys),
    decreases object.dom().len(),
{
    if object.dom().is_empty() {
        let keys = Seq::<Seq<char>>::empty();
        assert forall|key: Seq<char>| #[trigger] keys.contains(key) <==> object.contains_key(key) by {
            assert(!object.dom().contains(key));
        }
        keys
    } else {
        let key = object.dom().choose();
        let rest = object.remove(key);
        assert(rest.dom() =~= object.dom().remove(key));
        let keys = lemma_keys_have_an_order(rest);
        assert(!keys.contains(key));
        lemma_key_finds_its_place(keys, key)
    }
}

proof fn lemma_precedes_irreflexive(a: Seq<char>)
    ensures
        !precedes(a, a),
    decreases a.len(),
{
    if a.len() > 0 {
        lemma_precedes_irreflexive(a.drop_first());
    }
}

/// The last of some keys in order is no earlier one of them, and no other key
/// of them comes after it.
proof fn lemma_last_key(keys: Seq<Seq<char>>, key: Seq<char>)
    requires
        ascending(keys),
        keys.contains(key),
    ensures
        keys.drop_last().contains(key) <==> key != keys.last(),
        !precedes(keys.last(), key),
{
    let last = keys.last();
    let front = keys.drop_last();
    lemma_precedes_irreflexive(last);
    if key != last {
        let i = choose|i: int| 0 <= i < keys.len() && keys[i] == key;
        assert(front[i] == key);
        assert(precedes(keys[i], keys[keys.len() - 1]));
        if precedes(last, key) {
            lemma_precedes_transitive(last, key, last);
        }
    } else if front.contains(key) {
        let i = choose|i: int| 0 <= i < front.len() && front[i] == key;
        assert(precedes(keys[i], keys[keys.len() - 1]));
    }
}

/// The same keys have one order only.
proof fn lemma_order_is_unique(a: Seq<Seq<char>>, b: Seq<Seq<char>>)
    requires
        ascending(a),
        ascending(b),
        forall|key: Seq<char>| #[trigger] a.contains(key) <==> b.contains(key),
    ensures
        a == b,
    decreases a.len(),
{
    if a.len() == 0 {
        if b.len() > 0 {
            assert(b.contains(b[0]));
            assert(!a.contains(b[0]));
        }
        assert(a =~= b);
    } else {
        assert(a.contains(a[a.len() - 1]));
        assert(b.len() > 0);
        assert(b.contains(b[b.len() - 1]));
        lemma_last_key(a, b.last());
        lemma_last_key(b, a.last());
        if a.last() != b.last() {
            lemma_precedes_total(a.last(), b.last());
        }
        assert forall|key: Seq<char>| #[trigger] a.drop_last().contains(key) <==> b.drop_last().contains(
            key,
        ) by {
            if a.drop_last().contains(key) {
                let i = choose|i: int| 0 <= i < a.drop_last().len() && a.drop_last()[i] == key;
                assert(a[i] == key);
            }
            if b.drop_last().contains(key) {
                let i = choose|i: int| 0 <= i < b.drop_last().len() && b.drop_last()[i] == key;
                assert(b[i] == key);
            }
            if a.contains(key) {
                lemma_last_key(a, key);
                lemma_last_key(b, key);
            }
        }
        lemma_order_is_unique(a.drop_last(), b.drop_last());
        assert(a =~= a.drop_last().push(a.last()));
        assert(b =~= b.drop_last().push(b.last()));
    }
}

/// An object has one JSON: that with its keys in order, however they were found.
pub proof fn law_object_has_one_text(object: Map<Seq<char>, JsonView>, keys: Seq<Seq<char>>)
    requires
        keys_in_order(object, keys),
    ensures
        object_text(object) == seq!['{'] + members_text(object, keys) + seq!['}'],
{
    let chosen = choose|keys: Seq<Seq<char>>| keys_in_order(object, keys);
    lemma_order_is_unique(chosen, keys);
}

/// Only a bar is written with a bar.
proof fn lemma_escaped_char_lacks_bar(c: char)
    requires
        c != '|',
    ensures
        forall|i: int| 0 <= i < escaped_char(c).len() ==> #[trigger] escaped_char(c)[i] != '|',
{
    if c <= '\u{1f}' {
        assert(0 <= c as int / 16 < 16 && 0 <= c as int % 16 < 16);
        assert(hex_digit(c as int / 16) != '|' && hex_digit(c as int % 16) != '|');
    }
}

/// A text without bars is written without bars.
proof fn lemma_quoted_lacks_bar(text: Seq<char>)
    requires
        !text.contains('|'),
    ensures
        !quoted(text).contains('|'),
    decreases text.len(),
{
    if text.len() > 0 {
        let rest = text.drop_first();
        assert(!rest.contains('|')) by {
            if rest.contains('|') {
                let i = choose|i: int| 0 <= i < rest.len() && rest[i] == '|';
                assert(text[i + 1] == '|');
            }
        }
        lemma_quoted_lacks_bar(rest);
        assert(text[0] != '|');
        lemma_escaped_char_lacks_bar(text[0]);
        assert forall|i: int| 0 <= i < escaped(text).len() implies #[trigger] escaped(text)[i] != '|' by {
            let head = escaped_char(text[0]);
            if i < head.len() {
                assert(escaped(text)[i] == head[i]);
            } else {
                assert(escaped(text)[i] == escaped(rest)[i - head.len()]);
                assert(quoted(rest)[i - head.len() + 1] == escaped(rest)[i - head.len()]);
            }
        }
    }
    assert forall|i: int| 0 <= i < quoted(text).len() implies #[trigger] quoted(text)[i] != '|' by {
        if 0 < i < quoted(text).len() - 1 {
            assert(quoted(text)[i] == escaped(text)[i - 1]);
        }
    }
}

/// The digits of a number are no bars.
proof fn lemma_digits_lack_bar(number: nat)
    ensures
        !digits(number).contains('|'),
    decreases number,
{
    if number >= 10 {
        lemma_digits_lack_bar(number / 10);
        assert forall|i: int| 0 <= i < digits(number).len() implies #[trigger] digits(number)[i] != '|' by {
            if i < digits(number / 10).len() {
                assert(digits(number)[i] == digits(number / 10)[i]);
            }
        }
    }
}

/// A value whose text, if it is one, has no bars is written without bars.
proof fn lemma_value_lacks_bar(value: JsonView)
    requires
        value matches JsonView::Text(text) ==> !text.contains('|'),
    ensures
        !value_text(value).contains('|'),
{
    match value {
        JsonView::Bool(_) => {
            reveal_strlit("true");
            reveal_strlit("false");
        },
        JsonView::Int(number) => {
            let size: nat = if number < 0 { (-number) as nat } else { number as nat };
            lemma_digits_lack_bar(size);
            assert forall|i: int| 0 <= i < value_text(value).len() implies #[trigger] value_text(value)[i]
                != '|' by {
                if number < 0 && i > 0 {
                    assert(value_text(value)[i] == digits(size)[i - 1]);
                }
            }
        },
        JsonView::Text(text) => {
            lemma_quoted_lacks_bar(text);
        },
        JsonView::Other => {},
    }
}

/// Whether no key of an object and no text in it holds a bar.
pub open spec fn barless(object: Map<Seq<char>, JsonView>) -> bool {
    forall|key: Seq<char>| #[trigger] object.contains_key(key) ==> !key.contains('|') && (
    object[key] matches JsonView::Text(text) ==> !text.contains('|'))
}

proof fn lemma_members_lack_bar(object: Map<Seq<char>, JsonView>, keys: Seq<Seq<char>>)
    requires
        barless(object),
        forall|i: int| 0 <= i < keys.len() ==> object.contains_key(#[trigger] keys[i]),
    ensures
        !members_text(object, keys).contains('|'),
    decreases keys.len(),
{
    if keys.len() > 0 {
        let key = keys.last();
        assert(object.contains_key(keys[keys.len() - 1]));
        lemma_quoted_lacks_bar(key);
        lemma_value_lacks_bar(object[key]);
        let before = members_text(object, keys.drop_last());
        let value = value_text(object[key]);
        let last = quoted(key) + seq![':'] + value;
        lemma_members_lack_bar(object, keys.drop_last());
        assert forall|i: int| 0 <= i < last.len() implies #[trigger] last[i] != '|' by {
            if i < quoted(key).len() {
                assert(last[i] == quoted(key)[i]);
            } else if i > quoted(key).len() {
                assert(last[i] == value[i - quoted(key).len() - 1]);
            }
        }
        if keys.len() > 1 {
            let whole = members_text(object, keys);
            assert(whole =~= before + seq![','] + last);
            assert forall|i: int| 0 <= i < whole.len() implies #[trigger] whole[i] != '|' by {
                if i < before.len() {
                    assert(whole[i] == before[i]);
                } else if i > before.len() {
                    assert(whole[i] == last[i - before.len() - 1]);
                }
            }
        }
    }
}

/// An object is written between braces, and without bars where its keys and
/// texts have none.
pub proof fn law_object_stands_between_braces(object: Map<Seq<char>, JsonView>)
    requires
        object.dom().finite(),
    ensures
        object_text(object).len() >= 2,
        object_text(object)[0] == '{',
        object_text(object).last() == '}',
        barless(object) ==> !object_text(object).contains('|'),
{
    let found = lemma_keys_have_an_order(object);
    let chosen = choose|keys: Seq<Seq<char>>| keys_in_order(object, keys);
    let inner = members_text(object, chosen);
    let whole = object_text(object);
    if barless(object) {
        assert forall|i: int| 0 <= i < chosen.len() implies object.contains_key(
            #[trigger] chosen[i],
        ) by {
            assert(chosen.contains(chosen[i]));
        }
        lemma_members_lack_bar(object, chosen);
        assert forall|i: int| 0 <= i < whole.len() implies #[trigger] whole[i] != '|' by {
            if 0 < i < whole.len() - 1 {
                assert(whole[i] == inner[i - 1]);
            }
        }
    }
}

} // verus!
