//! The order of texts, and a map that keeps its keys in it.

use vstd::prelude::*;
use vstd::utf8::encode_utf8;

verus! {

/// `a` and `b` agree before `i`, and at `i` it is `a` that ends or holds the
/// smaller byte.
pub open spec fn less_at(a: Seq<u8>, b: Seq<u8>, i: int) -> bool {
    &&& 0 <= i <= a.len()
    &&& i < b.len()
    &&& forall|j: int| 0 <= j < i ==> #[trigger] a[j] == b[j]
    &&& i < a.len() ==> a[i] < b[i]
}

/// `a` comes before `b`, byte by byte.
pub open spec fn bytes_less(a: Seq<u8>, b: Seq<u8>) -> bool {
    exists|i: int| less_at(a, b, i)
}

/// `a` comes before `b`: their UTF-8 bytes do.
pub open spec fn text_less(a: Seq<char>, b: Seq<char>) -> bool {
    bytes_less(encode_utf8(a), encode_utf8(b))
}

/// Different texts have different bytes.
pub proof fn lemma_same_bytes(a: Seq<char>, b: Seq<char>)
    requires
        encode_utf8(a) == encode_utf8(b),
    ensures
        a == b,
{
    vstd::utf8::encode_utf8_decode_utf8(a);
    vstd::utf8::encode_utf8_decode_utf8(b);
}

/// No text comes before itself.
pub proof fn lemma_irreflexive(a: Seq<char>)
    ensures
        !text_less(a, a),
{
}

/// Of three texts in order the first comes before the last.
pub proof fn lemma_transitive(a: Seq<char>, b: Seq<char>, c: Seq<char>)
    requires
        text_less(a, b),
        text_less(b, c),
    ensures
        text_less(a, c),
{
    let (x, y, z) = (encode_utf8(a), encode_utf8(b), encode_utf8(c));
    let i = choose|i: int| less_at(x, y, i);
    let j = choose|j: int| less_at(y, z, j);
    if i < j {
        assert(y[i] == z[i]);
        assert(less_at(x, z, i)) by {
            assert forall|k: int| 0 <= k < i implies #[trigger] x[k] == z[k] by {
                assert(x[k] == y[k]);
                assert(y[k] == z[k]);
            }
        }
    } else {
        assert(less_at(x, z, j)) by {
            assert forall|k: int| 0 <= k < j implies #[trigger] x[k] == z[k] by {
                assert(x[k] == y[k]);
                assert(y[k] == z[k]);
            }
            if j < x.len() && j < i {
                assert(x[j] == y[j]);
            }
        }
    }
}

/// Of two texts one comes before the other, or they are the same.
pub proof fn lemma_total(a: Seq<char>, b: Seq<char>)
    ensures
        text_less(a, b) || text_less(b, a) || a == b,
{
    lemma_total_from(encode_utf8(a), encode_utf8(b), 0);
    if encode_utf8(a) == encode_utf8(b) {
        lemma_same_bytes(a, b);
    }
}

proof fn lemma_total_from(a: Seq<u8>, b: Seq<u8>, i: int)
    requires
        0 <= i <= a.len(),
        i <= b.len(),
        forall|j: int| 0 <= j < i ==> #[trigger] a[j] == b[j],
    ensures
        bytes_less(a, b) || bytes_less(b, a) || a == b,
    decreases a.len() - i,
{
    if i == a.len() && i == b.len() {
        assert(a =~= b);
    } else if i == a.len() {
        assert(less_at(a, b, i));
    } else if i == b.len() {
        assert(less_at(b, a, i));
    } else if a[i] < b[i] {
        assert(less_at(a, b, i));
    } else if b[i] < a[i] {
        assert(less_at(b, a, i));
    } else {
        lemma_total_from(a, b, i + 1);
    }
}

/// One more character has its bytes behind those before it.
proof fn lemma_bytes_pushed(a: Seq<char>, c: char)
    ensures
        encode_utf8(a.push(c)) == encode_utf8(a) + encode_utf8(seq![c]),
    decreases a.len(),
{
    let one = seq![c];
    assert(one.drop_first() =~= Seq::empty());
    if a.len() == 0 {
        assert(a.push(c) =~= one);
        assert(encode_utf8(a) + encode_utf8(one) =~= encode_utf8(one));
    } else {
        lemma_bytes_pushed(a.drop_first(), c);
        assert(a.push(c).drop_first() =~= a.drop_first().push(c));
        assert(encode_utf8(a.push(c)) =~= encode_utf8(a) + encode_utf8(one));
    }
}

/// `a` with a zero behind it has a zero byte behind its bytes, and comes
/// after `a`.
pub proof fn lemma_next_text(a: Seq<char>)
    ensures
        encode_utf8(a.push('\0')) == encode_utf8(a).push(0u8),
        text_less(a, a.push('\0')),
{
    lemma_bytes_pushed(a, '\0');
    let one = seq!['\0'];
    vstd::utf8::is_ascii_chars_encode_utf8(one);
    assert(one[0] as u8 == 0u8);
    assert(encode_utf8(one) =~= seq![0u8]);
    assert(encode_utf8(a.push('\0')) =~= encode_utf8(a).push(0u8));
    assert(less_at(encode_utf8(a), encode_utf8(a.push('\0')), encode_utf8(a).len() as int));
}

/// No text stands between `a` and `a` with a zero behind it.
pub proof fn lemma_nothing_between(text: Seq<char>, a: Seq<char>)
    requires
        !text_less(text, a),
        text_less(text, a.push('\0')),
    ensures
        text == a,
{
    lemma_next_text(a);
    lemma_total(text, a);
    if text_less(a, text) {
        let (x, y, z) = (encode_utf8(a), encode_utf8(text), encode_utf8(a).push(0u8));
        let i = choose|i: int| less_at(x, y, i);
        let j = choose|j: int| less_at(y, z, j);
        if j < i {
            assert(x[j] == y[j]);
        } else if i < j {
            assert(y[i] == z[i]);
        }
        assert(false);
    }
}

/// Whether `a` comes before `b`.
pub fn text_before(a: &String, b: &String) -> (before: bool)
    ensures
        before == text_less(a@, b@),
{
    let x = a.as_str().as_bytes();
    let y = b.as_str().as_bytes();
    let mut i: usize = 0;
    while i < x.len() && i < y.len()
        invariant
            i <= x@.len(),
            i <= y@.len(),
            x@ == encode_utf8(a@),
            y@ == encode_utf8(b@),
            forall|j: int| 0 <= j < i ==> #[trigger] x@[j] == y@[j],
        decreases x@.len() - i,
    {
        if x[i] < y[i] {
            assert(less_at(x@, y@, i as int));
            return true;
        }
        if y[i] < x[i] {
            assert(less_at(y@, x@, i as int));
            assert(!text_less(a@, b@)) by {
                lemma_asymmetric(b@, a@);
            }
            return false;
        }
        i = i + 1;
    }
    if i < y.len() {
        assert(less_at(x@, y@, i as int));
        true
    } else {
        assert(!bytes_less(x@, y@));
        false
    }
}

/// Of two texts at most one comes before the other.
pub proof fn lemma_asymmetric(a: Seq<char>, b: Seq<char>)
    requires
        text_less(a, b),
    ensures
        !text_less(b, a),
        a != b,
{
    if text_less(b, a) {
        lemma_transitive(a, b, a);
    }
    lemma_irreflexive(a);
}

/// A map from texts, its keys in order.
#[derive(Debug, PartialEq, Eq)]
pub struct TextMap<V> {
    pub entries: Vec<(String, V)>,
}

/// An entry stands under `key` at `i`.
pub open spec fn entry_at<V>(entries: Seq<(String, V)>, key: Seq<char>, i: int) -> bool {
    0 <= i < entries.len() && entries[i].0@ == key
}

/// Some entry stands under `key`.
pub open spec fn has_entry<V>(entries: Seq<(String, V)>, key: Seq<char>) -> bool {
    exists|i: int| entry_at(entries, key, i)
}

/// What the entries map `key` to.
pub open spec fn entry_value<V>(entries: Seq<(String, V)>, key: Seq<char>) -> V {
    entries[choose|i: int| entry_at(entries, key, i)].1
}

/// The keys of the entries come in order.
pub open spec fn in_order<V>(entries: Seq<(String, V)>) -> bool {
    forall|i: int, j: int|
        0 <= i < j < entries.len() ==> text_less(
            (#[trigger] entries[i]).0@,
            (#[trigger] entries[j]).0@,
        )
}

impl<V> View for TextMap<V> {
    type V = Map<Seq<char>, V>;

    open spec fn view(&self) -> Map<Seq<char>, V> {
        Map::new(
            |key: Seq<char>| has_entry(self.entries@, key),
            |key: Seq<char>| entry_value(self.entries@, key),
        )
    }
}

proof fn lemma_entry<V>(entries: Seq<(String, V)>, i: int)
    requires
        in_order(entries),
        0 <= i < entries.len(),
    ensures
        has_entry(entries, entries[i].0@),
        entry_value(entries, entries[i].0@) == entries[i].1,
{
    let key = entries[i].0@;
    assert(entry_at(entries, key, i));
    let c = choose|c: int| entry_at(entries, key, c);
    lemma_irreflexive(key);
    if c < i {
        assert(text_less(entries[c].0@, entries[i].0@));
    } else if i < c {
        assert(text_less(entries[i].0@, entries[c].0@));
    }
}

impl<V> TextMap<V> {
    pub open spec fn wf(self) -> bool {
        in_order(self.entries@)
    }

    pub fn new() -> (map: Self)
        ensures
            map.wf(),
            map@ == Map::<Seq<char>, V>::empty(),
            map.entries@.len() == 0,
    {
        let map = TextMap { entries: Vec::new() };
        assert(map@ =~= Map::<Seq<char>, V>::empty());
        map
    }

    /// Where `key` stands, or else where it would.
    fn position(&self, key: &String) -> (found: (usize, bool))
        requires
            self.wf(),
        ensures
            found.0 <= self.entries@.len(),
            found.1 == self@.dom().contains(key@),
            found.1 ==> found.0 < self.entries@.len() && self.entries@[found.0 as int].0@ == key@,
            forall|j: int|
                0 <= j < found.0 ==> text_less((#[trigger] self.entries@[j]).0@, key@),
            !found.1 ==> forall|j: int|
                found.0 <= j < self.entries@.len() ==> text_less(
                    key@,
                    (#[trigger] self.entries@[j]).0@,
                ),
    {
        let mut i: usize = 0;
        while i < self.entries.len() && text_before(&self.entries[i].0, key)
            invariant
                self.wf(),
                i <= self.entries@.len(),
                forall|j: int| 0 <= j < i ==> text_less((#[trigger] self.entries@[j]).0@, key@),
            decreases self.entries@.len() - i,
        {
            i = i + 1;
        }
        if i < self.entries.len() && self.entries[i].0 == *key {
            proof {
                lemma_entry(self.entries@, i as int);
            }
            (i, true)
        } else {
            proof {
                if i < self.entries@.len() {
                    lemma_total(self.entries@[i as int].0@, key@);
                }
                assert forall|j: int| i <= j < self.entries@.len() implies text_less(
                    key@,
                    (#[trigger] self.entries@[j]).0@,
                ) by {
                    if i < j {
                        lemma_transitive(key@, self.entries@[i as int].0@, self.entries@[j].0@);
                    }
                }
                lemma_irreflexive(key@);
                assert(!has_entry(self.entries@, key@));
            }
            (i, false)
        }
    }

    pub fn get(&self, key: &String) -> (found: Option<&V>)
        requires
            self.wf(),
        ensures
            match found {
                Some(value) => self@.dom().contains(key@) && self@[key@] == *value,
                None => !self@.dom().contains(key@),
            },
    {
        let (i, present) = self.position(key);
        if present {
            proof {
                lemma_entry(self.entries@, i as int);
            }
            Some(&self.entries[i].1)
        } else {
            None
        }
    }

    pub fn contains_key(&self, key: &String) -> (present: bool)
        requires
            self.wf(),
        ensures
            present == self@.dom().contains(key@),
    {
        self.position(key).1
    }

    /// Put `value` under `key`, in place of what stood there.
    pub fn insert(&mut self, key: String, value: V)
        requires
            old(self).wf(),
        ensures
            final(self).wf(),
            final(self)@ == old(self)@.insert(key@, value),
    {
        let (i, present) = self.position(&key);
        let ghost before = self.entries@;
        if present {
            self.entries.set(i, (key, value));
        } else {
            self.entries.insert(i, (key, value));
        }
        proof {
            let after = self.entries@;
            if present {
                assert(after =~= before.update(i as int, (key, value)));
                assert forall|a: int, b: int| 0 <= a < b < after.len() implies text_less(
                    (#[trigger] after[a]).0@,
                    (#[trigger] after[b]).0@,
                ) by {
                    assert(after[a].0@ == before[a].0@);
                    assert(after[b].0@ == before[b].0@);
                }
            } else {
                assert(after =~= before.insert(i as int, (key, value)));
                assert forall|a: int, b: int| 0 <= a < b < after.len() implies text_less(
                    (#[trigger] after[a]).0@,
                    (#[trigger] after[b]).0@,
                ) by {
                    let x = if a < i { a } else { a - 1 };
                    let y = if b < i { b } else { b - 1 };
                    if a != i {
                        assert(after[a] == before[x]);
                    }
                    if b != i {
                        assert(after[b] == before[y]);
                    }
                }
            }
            assert forall|k: Seq<char>| #[trigger] self@.dom().contains(k) == old(self)@.insert(
                key@,
                value,
            ).dom().contains(k) by {
                lemma_insert_keys(before, after, key, value, i as int, present, k);
            }
            assert forall|k: Seq<char>| self@.dom().contains(k) implies #[trigger] self@[k] == old(
                self)@.insert(key@, value)[k] by {
                let c = choose|c: int| entry_at(after, k, c);
                lemma_entry(after, c);
                if c != i {
                    let x = if present || c < i { c } else { c - 1 };
                    assert(after[c] == before[x]);
                    lemma_entry(before, x);
                    if k == key@ {
                        lemma_irreflexive(k);
                        if c < i {
                            assert(text_less(after[c].0@, after[i as int].0@));
                        } else {
                            assert(text_less(after[i as int].0@, after[c].0@));
                        }
                    }
                }
            }
            assert(self@ =~= old(self)@.insert(key@, value));
        }
    }

    /// Take out what stands under `key`.
    pub fn remove(&mut self, key: &String) -> (removed: Option<V>)
        requires
            old(self).wf(),
        ensures
            final(self).wf(),
            final(self)@ == old(self)@.remove(key@),
            match removed {
                Some(value) => old(self)@.dom().contains(key@) && old(self)@[key@] == value,
                None => !old(self)@.dom().contains(key@) && *final(self) == *old(self),
            },
    {
        let (i, present) = self.position(key);
        let ghost before = self.entries@;
        if !present {
            assert(self@ =~= old(self)@.remove(key@));
            return None;
        }
        proof {
            lemma_entry(before, i as int);
        }
        let entry = self.entries.remove(i);
        proof {
            let after = self.entries@;
            assert(after =~= before.remove(i as int));
            assert forall|a: int, b: int| 0 <= a < b < after.len() implies text_less(
                (#[trigger] after[a]).0@,
                (#[trigger] after[b]).0@,
            ) by {
                let x = if a < i { a } else { a + 1 };
                let y = if b < i { b } else { b + 1 };
                assert(after[a] == before[x]);
                assert(after[b] == before[y]);
            }
            assert forall|k: Seq<char>| #[trigger] has_entry(after, k) == (has_entry(before, k) && k
                != key@) by {
                if has_entry(after, k) {
                    let c = choose|c: int| entry_at(after, k, c);
                    let x = if c < i { c } else { c + 1 };
                    assert(entry_at(before, k, x));
                    lemma_irreflexive(k);
                    if x < i {
                        assert(text_less(before[x].0@, before[i as int].0@));
                    } else {
                        assert(text_less(before[i as int].0@, before[x].0@));
                    }
                }
                if has_entry(before, k) && k != key@ {
                    let c = choose|c: int| entry_at(before, k, c);
                    let x = if c < i { c } else { c - 1 };
                    assert(entry_at(after, k, x));
                }
            }
            assert forall|k: Seq<char>| has_entry(after, k) implies #[trigger] entry_value(after, k)
                == entry_value(before, k) by {
                let c = choose|c: int| entry_at(after, k, c);
                let x = if c < i { c } else { c + 1 };
                assert(after[c] == before[x]);
                lemma_entry(after, c);
                lemma_entry(before, x);
            }
            assert(self@ =~= old(self)@.remove(key@));
        }
        Some(entry.1)
    }

    /// The keys, in order.
    pub fn keys(&self) -> (keys: Vec<String>)
        requires
            self.wf(),
        ensures
            keys@ == self.entries@.map_values(|entry: (String, V)| entry.0),
            forall|i: int, j: int|
                0 <= i < j < keys@.len() ==> text_less(
                    (#[trigger] keys@[i])@,
                    (#[trigger] keys@[j])@,
                ),
            forall|key: Seq<char>|
                self@.dom().contains(key) <==> exists|i: int|
                    0 <= i < keys@.len() && (#[trigger] keys@[i])@ == key,
    {
        let mut keys: Vec<String> = Vec::new();
        let mut i: usize = 0;
        while i < self.entries.len()
            invariant
                i <= self.entries@.len(),
                keys@.len() == i,
                forall|j: int| 0 <= j < i ==> (#[trigger] keys@[j]) == self.entries@[j].0,
            decreases self.entries@.len() - i,
        {
            keys.push(self.entries[i].0.clone());
            i = i + 1;
        }
        proof {
            assert forall|key: Seq<char>|
                self@.dom().contains(key) <==> exists|i: int|
                    0 <= i < keys@.len() && (#[trigger] keys@[i])@ == key by {
                if self@.dom().contains(key) {
                    let c = choose|c: int| entry_at(self.entries@, key, c);
                    assert(keys@[c]@ == key);
                }
                if exists|i: int| 0 <= i < keys@.len() && (#[trigger] keys@[i])@ == key {
                    let c = choose|c: int| 0 <= c < keys@.len() && (#[trigger] keys@[c])@ == key;
                    assert(entry_at(self.entries@, key, c));
                }
            }
        }
        keys
    }
}

proof fn lemma_insert_keys<V>(
    before: Seq<(String, V)>,
    after: Seq<(String, V)>,
    key: String,
    value: V,
    i: int,
    present: bool,
    k: Seq<char>,
)
    requires
        0 <= i <= before.len(),
        present ==> i < before.len() && before[i].0@ == key@ && after == before.update(
            i,
            (key, value),
        ),
        !present ==> after == before.insert(i, (key, value)),
    ensures
        has_entry(after, k) == (has_entry(before, k) || k == key@),
{
    assert(entry_at(after, key@, i));
    if has_entry(after, k) {
        let c = choose|c: int| entry_at(after, k, c);
        if c != i {
            let x = if present || c < i { c } else { c - 1 };
            assert(entry_at(before, k, x));
        }
    }
    if has_entry(before, k) {
        let c = choose|c: int| entry_at(before, k, c);
        let x = if present || c < i { c } else { c + 1 };
        assert(entry_at(after, k, x));
    }
}

/// The first byte in which two sequences differ decides which is less, and a
/// sequence is less than each that continues it; none is less than itself.
pub proof fn the_first_difference_decides(a: Seq<u8>, b: Seq<u8>, i: int)
    ensures
        0 <= i < a.len() && i < b.len() && a.take(i) == b.take(i) && a[i] < b[i] ==> bytes_less(
            a,
            b,
        ) && !bytes_less(b, a),
        b.len() > 0 ==> bytes_less(a, a + b) && !bytes_less(a + b, a),
        !bytes_less(a, a),
{
    if 0 <= i < a.len() && i < b.len() && a.take(i) == b.take(i) && a[i] < b[i] {
        assert forall|j: int| 0 <= j < i implies #[trigger] a[j] == b[j] by {
            assert(a.take(i)[j] == b.take(i)[j]);
        }
        assert(less_at(a, b, i));
        if bytes_less(b, a) {
            let k = choose|k: int| less_at(b, a, k);
            if k > i {
                assert(b[i] == a[i]);
            } else if k < i {
                assert(a[k] == b[k]);
            }
        }
    }
    if b.len() > 0 {
        assert(less_at(a, a + b, a.len() as int));
        if bytes_less(a + b, a) {
            let k = choose|k: int| less_at(a + b, a, k);
            assert((a + b)[k] == a[k]);
        }
    }
    if bytes_less(a, a) {
        let k = choose|k: int| less_at(a, a, k);
        assert(a[k] < a[k]);
    }
}

} // verus!
