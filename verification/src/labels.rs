//! Key-value lists as they are given on the command line: `KEY=VAL,KEY2=VAL`.
//!
//! The pairs are kept in a hash map of the `rustc_hash` crate, in no order.
//! What the map holds is known to the contracts only through the trusted
//! functions of this module.

use rustc_hash::FxHashMap;
use rustc_hash::FxHasher;
use std::hash::BuildHasherDefault;
use vstd::prelude::*;
use vstd::string::StringExecFns;

verus! {

/// `rustc_hash::FxHasher`, the hasher of the map.
#[verifier::external_type_specification]
#[verifier::external_body]
pub struct ExFxHasher(FxHasher);

/// `std::hash::BuildHasherDefault`, which makes the hashers of the map.
#[verifier::external_type_specification]
#[verifier::external_body]
#[verifier::reject_recursive_types(H)]
pub struct ExBuildHasherDefault<H>(BuildHasherDefault<H>);

/// What a map of labels holds: its keys and their values, as texts.
pub uninterp spec fn entries(labels: FxHashMap<String, String>) -> Map<Seq<char>, Seq<char>>;

/// The texts of a list of pairs.
pub open spec fn pair_texts(pairs: Seq<(String, String)>) -> Seq<(Seq<char>, Seq<char>)> {
    pairs.map_values(|p: (String, String)| (p.0@, p.1@))
}

/// `order` lists the map: every pair of the list is in the map, every key of
/// the map is in the list, and no key is listed twice.
pub open spec fn is_listing(
    order: Seq<(Seq<char>, Seq<char>)>,
    map: Map<Seq<char>, Seq<char>>,
) -> bool {
    &&& forall|i: int|
        0 <= i < order.len() ==> map.contains_pair((#[trigger] order[i]).0, order[i].1)
    &&& forall|k: Seq<char>|
        map.contains_key(k) ==> exists|i: int| 0 <= i < order.len() && (#[trigger] order[i]).0 == k
    &&& forall|i: int, j: int|
        0 <= i < j < order.len() ==> (#[trigger] order[i]).0 != (#[trigger] order[j]).0
}

/// The map without entries.
pub open spec fn no_entries() -> Map<Seq<char>, Seq<char>> {
    Map::empty()
}

/// `FxHashMap::default`: a map that holds nothing.
#[verifier::external_body]
fn labels_empty() -> (labels: FxHashMap<String, String>)
    ensures
        entries(labels) == no_entries(),
{
    FxHashMap::default()
}

/// `HashMap::insert`: the map holds `value` under `key` afterwards, in
/// place of what it may have held under that key, and all else as before.
#[verifier::external_body]
fn labels_insert(labels: &mut FxHashMap<String, String>, key: String, value: String)
    ensures
        entries(*final(labels)) == entries(*old(labels)).insert(key@, value@),
{
    labels.insert(key, value);
}

/// `HashMap::iter`, each pair copied: the pairs of the map, each once, in
/// an order of which nothing is promised.
#[verifier::external_body]
fn labels_pairs(labels: &FxHashMap<String, String>) -> (pairs: Vec<(String, String)>)
    ensures
        is_listing(pair_texts(pairs@), entries(*labels)),
{
    labels.iter().map(|(k, v)| (k.clone(), v.clone())).collect()
}

/// Where `c` first occurs in `s`; the length of `s` if it does not.
pub open spec fn index_of(s: Seq<char>, c: char) -> int
    decreases s.len(),
{
    if s.len() == 0 || s[0] == c {
        0
    } else {
        1 + index_of(s.skip(1), c)
    }
}

/// Key and value of one pair: what stands before the first `=`, and what
/// stands between it and the next `=` or the end. A text without `=` is no
/// pair.
pub open spec fn parsed_pair(kv: Seq<char>) -> Option<(Seq<char>, Seq<char>)> {
    let eq = index_of(kv, '=');
    if eq == kv.len() {
        None
    } else {
        let after = kv.skip(eq + 1);
        Some((kv.take(eq), after.take(index_of(after, '='))))
    }
}

/// The map `acc` after the pairs of `input` have been put into it one after
/// the other, a later pair taking the place of an earlier one with the same
/// key. Pairs are parted by commas; an empty text between two commas, or
/// after the last, is passed over. `None` if one of the pairs is none.
pub open spec fn parsed_into(acc: Map<Seq<char>, Seq<char>>, input: Seq<char>) -> Option<
    Map<Seq<char>, Seq<char>>,
>
    decreases input.len(),
{
    let comma = index_of(input, ',');
    let kv = input.take(comma);
    if kv.len() > 0 && parsed_pair(kv) is None {
        None
    } else {
        let next = if kv.len() > 0 {
            acc.insert(parsed_pair(kv)->Some_0.0, parsed_pair(kv)->Some_0.1)
        } else {
            acc
        };
        if comma >= input.len() {
            Some(next)
        } else {
            proof {
                lemma_index_of(input, ',');
            }
            parsed_into(next, input.skip(comma + 1))
        }
    }
}

/// The map that a key-value list stands for, if it stands for one.
pub open spec fn parsed(input: Seq<char>) -> Option<Map<Seq<char>, Seq<char>>> {
    parsed_into(Map::empty(), input)
}

/// One pair as it is written: key, `=`, value, `,`.
pub open spec fn pair_text(pair: (Seq<char>, Seq<char>)) -> Seq<char> {
    pair.0 + seq!['='] + pair.1 + seq![',']
}

/// A list of pairs as it is written: each pair with a comma behind it.
pub open spec fn rendered(order: Seq<(Seq<char>, Seq<char>)>) -> Seq<char>
    decreases order.len(),
{
    if order.len() == 0 {
        Seq::empty()
    } else {
        rendered(order.drop_last()) + pair_text(order.last())
    }
}

/// The text has neither `,` nor `=` in it.
pub open spec fn plain(text: Seq<char>) -> bool {
    forall|i: int| 0 <= i < text.len() ==> #[trigger] text[i] != ',' && text[i] != '='
}

/// The map `acc` after the pairs of `order` have been put into it, first to
/// last.
pub open spec fn put_all(acc: Map<Seq<char>, Seq<char>>, order: Seq<(Seq<char>, Seq<char>)>) -> Map<
    Seq<char>,
    Seq<char>,
>
    decreases order.len(),
{
    if order.len() == 0 {
        acc
    } else {
        put_all(acc, order.drop_last()).insert(order.last().0, order.last().1)
    }
}

/// The bounds of `index_of`, and what stands at the place it finds.
pub proof fn lemma_index_of(s: Seq<char>, c: char)
    ensures
        0 <= index_of(s, c) <= s.len(),
        index_of(s, c) < s.len() ==> s[index_of(s, c)] == c,
        forall|i: int| 0 <= i < index_of(s, c) ==> s[i] != c,
    decreases s.len(),
{
    if !(s.len() == 0 || s[0] == c) {
        lemma_index_of(s.skip(1), c);
        assert forall|i: int| 0 <= i < index_of(s, c) implies s[i] != c by {
            if i > 0 {
                assert(s.skip(1)[i - 1] == s[i]);
            }
        }
    }
}

/// `index_of` finds the first place where `c` stands: a place where it
/// stands, with none before it, is the place it finds.
pub proof fn lemma_index_of_is(s: Seq<char>, c: char, at: int)
    requires
        0 <= at <= s.len(),
        at < s.len() ==> s[at] == c,
        forall|i: int| 0 <= i < at ==> s[i] != c,
    ensures
        index_of(s, c) == at,
    decreases s.len(),
{
    if at > 0 {
        let rest = s.skip(1);
        assert(s[0] != c);
        assert forall|i: int| 0 <= i < at - 1 implies rest[i] != c by {
            assert(rest[i] == s[i + 1]);
        }
        if at < s.len() {
            assert(rest[at - 1] == s[at]);
        }
        lemma_index_of_is(rest, c, at - 1);
    }
}

/// `index_of` in a text of two parts: the place in the first part if `c`
/// stands there, else the place in the second, counted from the start.
pub proof fn lemma_index_of_concat(a: Seq<char>, b: Seq<char>, c: char)
    ensures
        index_of(a + b, c) == if index_of(a, c) < a.len() {
            index_of(a, c)
        } else {
            a.len() + index_of(b, c)
        },
{
    lemma_index_of(a, c);
    lemma_index_of(b, c);
    let whole = a + b;
    let at = if index_of(a, c) < a.len() {
        index_of(a, c)
    } else {
        a.len() + index_of(b, c)
    };
    assert forall|i: int| 0 <= i < at implies whole[i] != c by {
        if i < a.len() {
            assert(whole[i] == a[i]);
        } else {
            assert(whole[i] == b[i - a.len()]);
        }
    }
    if at < whole.len() {
        if at < a.len() {
            assert(whole[at] == a[at]);
        } else {
            assert(whole[at] == b[at - a.len()]);
        }
    }
    lemma_index_of_is(whole, c, at);
}

/// A plain text has neither separator in it.
pub proof fn lemma_plain(text: Seq<char>)
    requires
        plain(text),
    ensures
        index_of(text, ',') == text.len(),
        index_of(text, '=') == text.len(),
{
    lemma_index_of_is(text, ',', text.len() as int);
    lemma_index_of_is(text, '=', text.len() as int);
}

/// Reading one written pair puts that pair into the map.
pub proof fn lemma_read_pair(acc: Map<Seq<char>, Seq<char>>, key: Seq<char>, value: Seq<char>)
    requires
        plain(key),
        plain(value),
    ensures
        parsed_into(acc, pair_text((key, value))) == Some(acc.insert(key, value)),
{
    let text = pair_text((key, value));
    let kv = key + seq!['='] + value;
    assert(text =~= kv + seq![',']);
    lemma_plain(key);
    lemma_plain(value);
    // The first comma is the one at the end.
    assert(index_of(seq!['='], ',') == 1) by {
        lemma_index_of_is(seq!['='], ',', 1);
    }
    lemma_index_of_concat(key, seq!['='], ',');
    lemma_index_of_concat(key + seq!['='], value, ',');
    assert(index_of(seq![','], ',') == 0);
    lemma_index_of_concat(kv, seq![','], ',');
    assert(index_of(text, ',') == kv.len());
    assert(text.take(kv.len() as int) =~= kv);
    // The first `=` is the one behind the key.
    assert(index_of(seq!['='] + value, '=') == 0);
    assert(kv =~= key + (seq!['='] + value));
    lemma_index_of_concat(key, seq!['='] + value, '=');
    assert(index_of(kv, '=') == key.len());
    assert(kv.take(key.len() as int) =~= key);
    assert(kv.skip(key.len() as int + 1) =~= value);
    assert(value.take(value.len() as int) =~= value);
    assert(parsed_pair(kv) == Some((key, value)));
    // Behind the comma there is nothing left.
    let rest = text.skip(kv.len() as int + 1);
    assert(rest =~= Seq::<char>::empty());
    assert(rest.take(0) =~= Seq::<char>::empty());
    assert(parsed_into(acc.insert(key, value), rest) == Some(acc.insert(key, value)));
}

/// Reading a text of two parts is reading the first and then the second,
/// if the first is empty or ends with a comma.
pub proof fn lemma_read_in_parts(acc: Map<Seq<char>, Seq<char>>, first: Seq<char>, second: Seq<char>)
    requires
        first.len() == 0 || first.last() == ',',
    ensures
        parsed_into(acc, first + second) == match parsed_into(acc, first) {
            Some(map) => parsed_into(map, second),
            None => None,
        },
    decreases first.len(),
{
    if first.len() == 0 {
        assert(first + second =~= second);
        assert(first.take(0) =~= Seq::<char>::empty());
    } else {
        let whole = first + second;
        lemma_index_of(first, ',');
        let comma = index_of(first, ',');
        // The first part ends with a comma, so its first comma is inside it.
        assert(comma < first.len()) by {
            if comma == first.len() {
                assert(first[first.len() - 1] != ',');
            }
        }
        lemma_index_of_concat(first, second, ',');
        assert(index_of(whole, ',') == comma);
        assert(whole.take(comma) =~= first.take(comma));
        let left = first.skip(comma + 1);
        assert(whole.skip(comma + 1) =~= left + second);
        if left.len() > 0 {
            assert(left.last() == first.last());
        }
        let kv = first.take(comma);
        if !(kv.len() > 0 && parsed_pair(kv) is None) {
            let next = if kv.len() > 0 {
                acc.insert(parsed_pair(kv)->Some_0.0, parsed_pair(kv)->Some_0.1)
            } else {
                acc
            };
            lemma_read_in_parts(next, left, second);
        }
    }
}

/// Reading what was written gives back what was written: the pairs of a
/// list that was written out, then read, are the pairs of the list, put
/// into the map in their order.
pub proof fn lemma_read_rendered(acc: Map<Seq<char>, Seq<char>>, order: Seq<(Seq<char>, Seq<char>)>)
    requires
        forall|i: int| 0 <= i < order.len() ==> plain((#[trigger] order[i]).0) && plain(order[i].1),
    ensures
        rendered(order).len() == 0 || rendered(order).last() == ',',
        parsed_into(acc, rendered(order)) == Some(put_all(acc, order)),
    decreases order.len(),
{
    if order.len() == 0 {
        assert(rendered(order).take(0) =~= Seq::<char>::empty());
    } else {
        let front = order.drop_last();
        let last = order.last();
        assert forall|i: int| 0 <= i < front.len() implies plain((#[trigger] front[i]).0) && plain(
            front[i].1,
        ) by {
            assert(front[i] == order[i]);
        }
        lemma_read_rendered(acc, front);
        lemma_read_in_parts(acc, rendered(front), pair_text(last));
        assert(plain(order[order.len() - 1].0));
        lemma_read_pair(put_all(acc, front), last.0, last.1);
    }
}

/// Putting a listing of a map into the empty map gives the map.
pub proof fn lemma_put_listing(order: Seq<(Seq<char>, Seq<char>)>, map: Map<Seq<char>, Seq<char>>)
    requires
        is_listing(order, map),
    ensures
        put_all(Map::empty(), order) == map,
{
    let nothing = Map::<Seq<char>, Seq<char>>::empty();
    lemma_put_all(nothing, order);
    let built = put_all(nothing, order);
    assert forall|k: Seq<char>| built.contains_key(k) <==> map.contains_key(k) by {
        if built.contains_key(k) {
            assert(!nothing.contains_key(k));
            assert(exists|i: int| 0 <= i < order.len() && (#[trigger] order[i]).0 == k);
            let i = choose|i: int| 0 <= i < order.len() && (#[trigger] order[i]).0 == k;
            assert(map.contains_pair(order[i].0, order[i].1));
        }
        if map.contains_key(k) {
            let i = choose|i: int| 0 <= i < order.len() && (#[trigger] order[i]).0 == k;
            assert(built.contains_pair(order[i].0, order[i].1));
        }
    }
    assert forall|k: Seq<char>| built.contains_key(k) implies built[k] == map[k] by {
        assert(map.contains_key(k));
        let i = choose|i: int| 0 <= i < order.len() && (#[trigger] order[i]).0 == k;
        assert(map.contains_pair(order[i].0, order[i].1));
        assert(built.contains_pair(order[i].0, order[i].1));
    }
    assert(built =~= map);
}

/// What `put_all` builds: the keys of the map it started from and those of
/// the list, and under each key of a list without twice the same key, the
/// value that the list has for it.
pub proof fn lemma_put_all(acc: Map<Seq<char>, Seq<char>>, order: Seq<(Seq<char>, Seq<char>)>)
    requires
        forall|i: int, j: int|
            0 <= i < j < order.len() ==> (#[trigger] order[i]).0 != (#[trigger] order[j]).0,
    ensures
        forall|k: Seq<char>|
            put_all(acc, order).contains_key(k) <==> acc.contains_key(k) || exists|i: int|
                0 <= i < order.len() && (#[trigger] order[i]).0 == k,
        forall|i: int|
            0 <= i < order.len() ==> put_all(acc, order).contains_pair(
                (#[trigger] order[i]).0,
                order[i].1,
            ),
        forall|k: Seq<char>|
            #[trigger] acc.contains_key(k) && !(exists|i: int|
                0 <= i < order.len() && (#[trigger] order[i]).0 == k) ==> put_all(
                acc,
                order,
            ).contains_pair(k, acc[k]),
    decreases order.len(),
{
    if order.len() > 0 {
        let front = order.drop_last();
        let last = order.last();
        assert forall|i: int, j: int| 0 <= i < j < front.len() implies (#[trigger] front[i]).0 != (
        #[trigger] front[j]).0 by {
            assert(front[i] == order[i]);
            assert(front[j] == order[j]);
        }
        lemma_put_all(acc, front);
        let built = put_all(acc, order);
        assert forall|k: Seq<char>| built.contains_key(k) <==> acc.contains_key(k) || exists|i: int|
            0 <= i < order.len() && (#[trigger] order[i]).0 == k by {
            if built.contains_key(k) && !acc.contains_key(k) {
                if k == last.0 {
                    assert(order[order.len() - 1].0 == k);
                } else {
                    let i = choose|i: int| 0 <= i < front.len() && (#[trigger] front[i]).0 == k;
                    assert(order[i].0 == k);
                }
            }
            if exists|i: int| 0 <= i < order.len() && (#[trigger] order[i]).0 == k {
                let i = choose|i: int| 0 <= i < order.len() && (#[trigger] order[i]).0 == k;
                if i < front.len() {
                    assert(front[i].0 == k);
                }
            }
        }
        assert forall|i: int| 0 <= i < order.len() implies built.contains_pair(
            (#[trigger] order[i]).0,
            order[i].1,
        ) by {
            if i < front.len() {
                assert(front[i] == order[i]);
                assert(order[i].0 != order[order.len() - 1].0);
            }
        }
        assert forall|k: Seq<char>|
            #[trigger] acc.contains_key(k) && !(exists|i: int|
                0 <= i < order.len() && (#[trigger] order[i]).0 == k) implies built.contains_pair(
            k,
            acc[k],
        ) by {
            assert(order[order.len() - 1].0 != k);
            if exists|i: int| 0 <= i < front.len() && (#[trigger] front[i]).0 == k {
                let i = choose|i: int| 0 <= i < front.len() && (#[trigger] front[i]).0 == k;
                assert(order[i].0 == k);
            }
        }
    }
}

/// Putting a listing of one map into another gives the union of the two,
/// in which the listed map has the say where both have a key.
pub proof fn lemma_put_listing_into(
    acc: Map<Seq<char>, Seq<char>>,
    order: Seq<(Seq<char>, Seq<char>)>,
    map: Map<Seq<char>, Seq<char>>,
)
    requires
        is_listing(order, map),
    ensures
        put_all(acc, order) == acc.union_prefer_right(map),
{
    lemma_put_all(acc, order);
    let built = put_all(acc, order);
    let both = acc.union_prefer_right(map);
    assert forall|k: Seq<char>| built.contains_key(k) <==> both.contains_key(k) by {
        if built.contains_key(k) && !acc.contains_key(k) {
            assert(exists|i: int| 0 <= i < order.len() && (#[trigger] order[i]).0 == k);
            let i = choose|i: int| 0 <= i < order.len() && (#[trigger] order[i]).0 == k;
            assert(map.contains_pair(order[i].0, order[i].1));
        }
        if map.contains_key(k) {
            let i = choose|i: int| 0 <= i < order.len() && (#[trigger] order[i]).0 == k;
            assert(built.contains_pair(order[i].0, order[i].1));
        }
    }
    assert forall|k: Seq<char>| built.contains_key(k) implies built[k] == both[k] by {
        if map.contains_key(k) {
            let i = choose|i: int| 0 <= i < order.len() && (#[trigger] order[i]).0 == k;
            assert(map.contains_pair(order[i].0, order[i].1));
            assert(built.contains_pair(order[i].0, order[i].1));
        } else {
            if exists|i: int| 0 <= i < order.len() && (#[trigger] order[i]).0 == k {
                let i = choose|i: int| 0 <= i < order.len() && (#[trigger] order[i]).0 == k;
                assert(map.contains_pair(order[i].0, order[i].1));
            }
            assert(acc.contains_key(k));
            assert(built.contains_pair(k, acc[k]));
        }
    }
    assert(built =~= both);
}

/// The round trip. A list whose keys and values have neither `,` nor `=`
/// in them, written out in whatever order and read again, is the list it
/// was.
pub proof fn lemma_round_trip(map: Map<Seq<char>, Seq<char>>, order: Seq<(Seq<char>, Seq<char>)>)
    requires
        is_listing(order, map),
        all_plain(map),
    ensures
        parsed(rendered(order)) == Some(map),
{
    assert forall|i: int| 0 <= i < order.len() implies plain((#[trigger] order[i]).0) && plain(
        order[i].1,
    ) by {
        assert(map.contains_pair(order[i].0, order[i].1));
        assert(plain(map[order[i].0]));
    }
    lemma_read_rendered(Map::empty(), order);
    lemma_put_listing(order, map);
}

/// A listing read back to front is a listing still.
pub proof fn lemma_reversed_listing(
    order: Seq<(Seq<char>, Seq<char>)>,
    back: Seq<(Seq<char>, Seq<char>)>,
    map: Map<Seq<char>, Seq<char>>,
)
    requires
        is_listing(order, map),
        back.len() == order.len(),
        forall|i: int| 0 <= i < back.len() ==> #[trigger] back[i] == order[order.len() - 1 - i],
    ensures
        is_listing(back, map),
{
    let n = order.len() as int;
    assert forall|i: int| 0 <= i < back.len() implies map.contains_pair(
        (#[trigger] back[i]).0,
        back[i].1,
    ) by {
        assert(map.contains_pair(order[n - 1 - i].0, order[n - 1 - i].1));
    }
    assert forall|k: Seq<char>| map.contains_key(k) implies exists|i: int|
        0 <= i < back.len() && (#[trigger] back[i]).0 == k by {
        let j = choose|j: int| 0 <= j < order.len() && (#[trigger] order[j]).0 == k;
        assert(back[n - 1 - j] == order[j]);
    }
    assert forall|i: int, j: int| 0 <= i < j < back.len() implies (#[trigger] back[i]).0 != (
    #[trigger] back[j]).0 by {
        assert(order[n - 1 - j].0 != order[n - 1 - i].0);
    }
}

/// Read, written, read: a list that was read, written out in whatever order
/// and read again, is the list that was read the first time.
pub proof fn lemma_read_write_read(input: Seq<char>, order: Seq<(Seq<char>, Seq<char>)>)
    requires
        parsed(input) is Some,
        is_listing(order, parsed(input)->Some_0),
    ensures
        parsed(rendered(order)) == parsed(input),
{
    assert(all_plain(Map::<Seq<char>, Seq<char>>::empty()));
    lemma_parsed_is_plain(Map::empty(), input);
    lemma_round_trip(parsed(input)->Some_0, order);
}

/// Neither a key nor a value of the map has `,` or `=` in it.
pub open spec fn all_plain(map: Map<Seq<char>, Seq<char>>) -> bool {
    forall|k: Seq<char>| #[trigger] map.contains_key(k) ==> plain(k) && plain(map[k])
}

/// What is read never has a separator in it: the keys and values of a list
/// that was read have neither `,` nor `=` in them, so that every list that
/// was read can be written and read again.
pub proof fn lemma_parsed_is_plain(acc: Map<Seq<char>, Seq<char>>, input: Seq<char>)
    requires
        all_plain(acc),
        parsed_into(acc, input) is Some,
    ensures
        all_plain(parsed_into(acc, input)->Some_0),
    decreases input.len(),
{
    lemma_index_of(input, ',');
    let comma = index_of(input, ',');
    let kv = input.take(comma);
    let next = if kv.len() > 0 {
        acc.insert(parsed_pair(kv)->Some_0.0, parsed_pair(kv)->Some_0.1)
    } else {
        acc
    };
    if kv.len() > 0 {
        lemma_index_of(kv, '=');
        let eq = index_of(kv, '=');
        let key = kv.take(eq);
        let after = kv.skip(eq + 1);
        lemma_index_of(after, '=');
        let value = after.take(index_of(after, '='));
        assert forall|i: int| 0 <= i < key.len() implies #[trigger] key[i] != ',' && key[i]
            != '=' by {
            assert(key[i] == kv[i]);
            assert(kv[i] == input[i]);
        }
        assert forall|i: int| 0 <= i < value.len() implies #[trigger] value[i] != ',' && value[i]
            != '=' by {
            assert(value[i] == after[i]);
            assert(after[i] == kv[eq + 1 + i]);
            assert(kv[eq + 1 + i] == input[eq + 1 + i]);
        }
        assert(plain(key));
        assert(plain(value));
        assert(parsed_pair(kv) == Some((key, value)));
        assert forall|k: Seq<char>| #[trigger] next.contains_key(k) implies plain(k) && plain(
            next[k],
        ) by {
            if k != key {
                assert(acc.contains_key(k));
                assert(plain(acc[k]));
                assert(next[k] == acc[k]);
            } else {
                assert(next[k] == value);
            }
        }
        assert(all_plain(next));
    } else {
        assert(next == acc);
    }
    assert(all_plain(next));
    if comma < input.len() {
        lemma_parsed_is_plain(next, input.skip(comma + 1));
    } else {
        assert(parsed_into(acc, input) == Some(next));
    }
}

/// Finds `c` in `input` between `from` and `to`.
fn find(input: &str, from: usize, to: usize, c: char) -> (at: usize)
    requires
        from <= to <= input@.len(),
    ensures
        from <= at <= to,
        at - from == index_of(input@.subrange(from as int, to as int), c),
{
    let mut at: usize = from;
    let ghost part = input@.subrange(from as int, to as int);
    while at < to && input.get_char(at) != c
        invariant
            from <= at <= to <= input@.len(),
            part == input@.subrange(from as int, to as int),
            forall|i: int| 0 <= i < at - from ==> part[i] != c,
        decreases to - at,
    {
        assert(part[at - from] == input@[at as int]);
        at += 1;
    }
    proof {
        if at < to {
            assert(part[at - from] == input@[at as int]);
        }
        lemma_index_of_is(part, c, at - from);
    }
    at
}

/// A key-value list of the command line.
pub struct CliKeyValues {
    inner: FxHashMap<String, String>,
}

impl View for CliKeyValues {
    type V = Map<Seq<char>, Seq<char>>;

    /// The pairs, as a map from keys to values.
    closed spec fn view(&self) -> Map<Seq<char>, Seq<char>> {
        entries(self.inner)
    }
}

/// Writes a list of pairs: each as key, `=`, value, `,`.
pub fn render(pairs: &Vec<(String, String)>) -> (text: String)
    ensures
        text@ == rendered(pair_texts(pairs@)),
{
    let mut text = String::new();
    let mut i: usize = 0;
    let ghost order = pair_texts(pairs@);
    assert(order.take(0) =~= Seq::<(Seq<char>, Seq<char>)>::empty());
    proof {
        reveal_strlit("=");
        reveal_strlit(",");
    }
    while i < pairs.len()
        invariant
            i <= pairs.len(),
            order == pair_texts(pairs@),
            "="@ == seq!['='],
            ","@ == seq![','],
            text@ == rendered(order.take(i as int)),
        decreases pairs.len() - i,
    {
        let ghost before = text@;
        text.append(pairs[i].0.as_str());
        text.append("=");
        text.append(pairs[i].1.as_str());
        text.append(",");
        proof {
            let next = order.take(i + 1);
            assert(next.drop_last() =~= order.take(i as int));
            assert(next.last() == order[i as int]);
            assert(text@ =~= before + pair_text(order[i as int]));
        }
        i += 1;
    }
    assert(order.take(order.len() as int) =~= order);
    text
}

impl CliKeyValues {
    /// What is said of a pair without `=`.
    pub open spec fn pair_error() -> Seq<char> {
        "pairs must be separated by '='"@
    }

    /// A list without pairs.
    pub fn default() -> (r: Self)
        ensures
            r@ == Map::<Seq<char>, Seq<char>>::empty(),
    {
        CliKeyValues { inner: labels_empty() }
    }

    /// Reads a key-value list.
    ///
    /// Pairs are parted by commas, key and value by `=`. Empty input is an
    /// empty list, and a comma at the end is put up with. A pair without
    /// `=` fails the whole list. Of two pairs with the same key the later
    /// one counts.
    pub fn from_str(input: &str) -> (r: Result<Self, String>)
        ensures
            match parsed(input@) {
                Some(map) => r matches Ok(list) && list@ == map,
                None => r matches Err(error) && error@ == Self::pair_error(),
            },
    {
        let length: usize = input.unicode_len();
        let mut labels = labels_empty();
        let mut start: usize = 0;
        assert(input@.skip(0) =~= input@);
        loop
            invariant_except_break
                start <= length,
                length == input@.len(),
                parsed(input@) == parsed_into(entries(labels), input@.skip(start as int)),
            ensures
                parsed(input@) == Some(entries(labels)),
            decreases length - start,
        {
            let ghost rest = input@.skip(start as int);
            let ghost acc = entries(labels);
            let comma: usize = find(input, start, length, ',');
            proof {
                assert(input@.subrange(start as int, length as int) =~= rest);
                assert(rest.take(comma - start) =~= input@.subrange(start as int, comma as int));
            }
            let ghost kv = input@.subrange(start as int, comma as int);
            if comma > start {
                let eq: usize = find(input, start, comma, '=');
                if eq == comma {
                    assert(parsed_pair(kv) is None);
                    return Err(String::from_str("pairs must be separated by '='"));
                }
                let value_end: usize = find(input, eq + 1, comma, '=');
                let key = input.substring_char(start, eq).to_owned();
                let value = input.substring_char(eq + 1, value_end).to_owned();
                proof {
                    let after = kv.skip(eq - start + 1);
                    assert(after =~= input@.subrange(eq + 1, comma as int));
                    assert(kv.take(eq - start) =~= input@.subrange(start as int, eq as int));
                    assert(after.take(value_end - eq - 1) =~= input@.subrange(
                        eq + 1,
                        value_end as int,
                    ));
                    assert(parsed_pair(kv) == Some((key@, value@)));
                }
                labels_insert(&mut labels, key, value);
            }
            if comma == length {
                break ;
            }
            proof {
                assert(rest.skip(comma - start + 1) =~= input@.skip(comma + 1));
            }
            start = comma + 1;
        }
        Ok(CliKeyValues { inner: labels })
    }

    /// The pairs of the list, each once, in no order that can be relied on.
    pub fn pairs(&self) -> (pairs: Vec<(String, String)>)
        ensures
            is_listing(pair_texts(pairs@), self@),
    {
        labels_pairs(&self.inner)
    }

    /// Puts a pair into the list, in place of what the list may have held
    /// under that key.
    pub fn insert(&mut self, key: String, value: String)
        ensures
            final(self)@ == old(self)@.insert(key@, value@),
    {
        labels_insert(&mut self.inner, key, value);
    }

    /// Puts all pairs of `other` into the list. Where both have a key, the
    /// value of `other` counts.
    pub fn extend(&mut self, other: CliKeyValues)
        ensures
            final(self)@ == old(self)@.union_prefer_right(other@),
    {
        let mut pairs = other.pairs();
        let ghost order = pair_texts(pairs@);
        let ghost start = self@;
        let ghost mut done: Seq<(Seq<char>, Seq<char>)> = Seq::empty();
        // The pairs are taken from the back of the list. No key is listed
        // twice, so the order in which they are put does not matter.
        while pairs.len() > 0
            invariant
                done.len() + pairs@.len() == order.len(),
                pair_texts(pairs@) == order.take(pairs@.len() as int),
                forall|i: int| 0 <= i < done.len() ==> #[trigger] done[i] == order[order.len() - 1 - i],
                self@ == put_all(start, done),
            decreases pairs.len(),
        {
            let ghost before = pairs@;
            let ghost held = self@;
            match pairs.pop() {
                Some(pair) => {
                    proof {
                        let n = before.len() as int;
                        assert(pair_texts(before)[n - 1] == (pair.0@, pair.1@));
                        assert(order.take(n)[n - 1] == order[n - 1]);
                        assert(pair_texts(pairs@) =~= order.take(n - 1));
                        let next = done.push((pair.0@, pair.1@));
                        assert(next.drop_last() =~= done);
                        assert(next.last() == (pair.0@, pair.1@));
                        done = next;
                    }
                    self.insert(pair.0, pair.1);
                },
                None => {},
            }
        }
        proof {
            lemma_reversed_listing(order, done, other@);
            lemma_put_listing_into(start, done, other@);
        }
    }

    /// Writes the list: each pair as key, `=`, value, `,`, the pairs in no
    /// order that can be relied on.
    pub fn to_string(&self) -> (text: String)
        ensures
            exists|order: Seq<(Seq<char>, Seq<char>)>|
                is_listing(order, self@) && text@ == #[trigger] rendered(order),
    {
        let pairs = self.pairs();
        render(&pairs)
    }
}

} // verus!
