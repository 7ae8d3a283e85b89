//! A table from text to values in which no key occurs twice.

use vstd::prelude::*;

verus! {

/// One row of a [`Table`].
pub struct Row<V> {
    pub key: String,
    pub value: V,
}

/// Rows in no particular order, with distinct keys.
pub struct Table<V> {
    rows: Vec<Row<V>>,
}

/// The map that a sequence of rows stands for.
pub open spec fn rows_map<V>(rows: Seq<Row<V>>) -> Map<Seq<char>, V>
    decreases rows.len(),
{
    if rows.len() == 0 {
        Map::empty()
    } else {
        rows_map(rows.drop_last()).insert(rows.last().key@, rows.last().value)
    }
}

/// No key occurs twice.
pub open spec fn distinct_keys<V>(rows: Seq<Row<V>>) -> bool {
    forall|i: int, j: int|
        0 <= i < rows.len() && 0 <= j < rows.len() && i != j ==> (#[trigger] rows[i]).key@ != (
        #[trigger] rows[j]).key@
}

/// Whether a listing has each of the keys once and no other.
pub open spec fn lists_each_once<T>(lines: Seq<(String, T)>, keys: Set<Seq<char>>) -> bool {
    &&& forall|i: int| 0 <= i < lines.len() ==> keys.contains((#[trigger] lines[i]).0@)
    &&& forall|i: int, j: int|
        0 <= i < lines.len() && 0 <= j < lines.len() && i != j ==> (#[trigger] lines[i]).0@ != (
        #[trigger] lines[j]).0@
    &&& forall|key: Seq<char>| #[trigger]
        keys.contains(key) ==> exists|i: int|
            0 <= i < lines.len() && (#[trigger] lines[i]).0@ == key
}

/// Such a listing has as many lines as there are keys, its keys are exactly those asked for,
/// and no two lines have the same key.
pub proof fn listing_has_each_key_once<T>(lines: Seq<(String, T)>, keys: Set<Seq<char>>)
    requires
        lists_each_once(lines, keys),
    ensures
        ({
            let listed = Seq::new(lines.len(), |i: int| lines[i].0@);
            &&& listed.no_duplicates()
            &&& listed.to_set() == keys
            &&& keys.finite()
            &&& keys.len() == lines.len()
        }),
{
    let listed = Seq::new(lines.len(), |i: int| lines[i].0@);
    assert forall|i: int, j: int|
        0 <= i < listed.len() && 0 <= j < listed.len() && i != j implies listed[i]
        != listed[j] by {
        assert(lines[i].0@ != lines[j].0@);
    }
    assert forall|key: Seq<char>| #[trigger] keys.contains(key) implies listed.contains(key) by {
        let i = choose|i: int| 0 <= i < lines.len() && (#[trigger] lines[i]).0@ == key;
        assert(listed[i] == key);
    }
    assert forall|key: Seq<char>| #[trigger] listed.contains(key) implies keys.contains(key) by {
        let i = choose|i: int| 0 <= i < listed.len() && listed[i] == key;
        assert(keys.contains(lines[i].0@));
    }
    assert(listed.to_set() =~= keys);
    listed.unique_seq_to_set();
}

/// A key is in the map exactly if some row has it.
proof fn lemma_rows_map_contains<V>(rows: Seq<Row<V>>, key: Seq<char>)
    ensures
        rows_map(rows).contains_key(key) <==> exists|i: int|
            0 <= i < rows.len() && (#[trigger] rows[i]).key@ == key,
    decreases rows.len(),
{
    if rows.len() > 0 {
        let front = rows.drop_last();
        lemma_rows_map_contains(front, key);
        if rows_map(front).contains_key(key) {
            let i = choose|i: int| 0 <= i < front.len() && (#[trigger] front[i]).key@ == key;
            assert(rows[i].key@ == key);
        }
        if exists|i: int| 0 <= i < rows.len() && (#[trigger] rows[i]).key@ == key {
            let i = choose|i: int| 0 <= i < rows.len() && (#[trigger] rows[i]).key@ == key;
            if i < front.len() {
                assert(front[i].key@ == key);
            } else {
                assert(rows.last().key@ == key);
            }
        }
    }
}

/// Each row's key is mapped to its value.
proof fn lemma_rows_map_at<V>(rows: Seq<Row<V>>, i: int)
    requires
        distinct_keys(rows),
        0 <= i < rows.len(),
    ensures
        rows_map(rows).contains_key(rows[i].key@),
        rows_map(rows)[rows[i].key@] == rows[i].value,
    decreases rows.len(),
{
    let front = rows.drop_last();
    if i < front.len() {
        assert(distinct_keys(front)) by {
            assert forall|a: int, b: int|
                0 <= a < front.len() && 0 <= b < front.len() && a != b implies (
            #[trigger] front[a]).key@ != (#[trigger] front[b]).key@ by {
                assert(rows[a].key@ != rows[b].key@);
            }
        }
        lemma_rows_map_at(front, i);
        assert(rows[i].key@ != rows[rows.len() - 1].key@);
    }
}

/// Taking out one row takes its key out of the map.
proof fn lemma_rows_map_remove<V>(rows: Seq<Row<V>>, i: int)
    requires
        distinct_keys(rows),
        0 <= i < rows.len(),
    ensures
        distinct_keys(rows.remove(i)),
        rows_map(rows.remove(i)) == rows_map(rows).remove(rows[i].key@),
{
    let rest = rows.remove(i);
    let key = rows[i].key@;
    assert forall|a: int, b: int|
        0 <= a < rest.len() && 0 <= b < rest.len() && a != b implies (#[trigger] rest[a]).key@ != (
    #[trigger] rest[b]).key@ by {
        let a2 = if a < i { a } else { a + 1 };
        let b2 = if b < i { b } else { b + 1 };
        assert(rows[a2].key@ != rows[b2].key@);
    }
    assert forall|k: Seq<char>|
        rows_map(rest).contains_key(k) <==> #[trigger] rows_map(rows).remove(key).contains_key(
            k,
        ) by {
        lemma_rows_map_contains(rest, k);
        lemma_rows_map_contains(rows, k);
        if rows_map(rest).contains_key(k) {
            let a = choose|a: int| 0 <= a < rest.len() && (#[trigger] rest[a]).key@ == k;
            let a2 = if a < i { a } else { a + 1 };
            assert(rows[a2].key@ == k);
            assert(rows[a2].key@ != rows[i].key@);
        }
        if rows_map(rows).remove(key).contains_key(k) {
            let a = choose|a: int| 0 <= a < rows.len() && (#[trigger] rows[a]).key@ == k;
            let a2 = if a < i { a } else { a - 1 };
            assert(rest[a2].key@ == k);
        }
    }
    assert forall|k: Seq<char>| #[trigger] rows_map(rest).contains_key(k) implies rows_map(rest)[k]
        == rows_map(rows).remove(key)[k] by {
        lemma_rows_map_contains(rest, k);
        let a = choose|a: int| 0 <= a < rest.len() && (#[trigger] rest[a]).key@ == k;
        let a2 = if a < i { a } else { a + 1 };
        lemma_rows_map_at(rest, a);
        lemma_rows_map_at(rows, a2);
        assert(rows[a2].key@ != rows[i].key@);
    }
    assert(rows_map(rest) =~= rows_map(rows).remove(key));
}

impl<V> View for Table<V> {
    type V = Map<Seq<char>, V>;

    closed spec fn view(&self) -> Map<Seq<char>, V> {
        rows_map(self.rows@)
    }
}

impl<V> Table<V> {
    /// No key occurs twice.
    pub closed spec fn wf(&self) -> bool {
        distinct_keys(self.rows@)
    }

    /// An empty table.
    pub fn new() -> (table: Self)
        ensures
            table.wf(),
            table@ == Map::<Seq<char>, V>::empty(),
    {
        Table { rows: Vec::new() }
    }

    /// Where `key` stands, if it does.
    fn find(&self, key: &String) -> (at: Option<usize>)
        ensures
            match at {
                Some(i) => i < self.rows@.len() && self.rows@[i as int].key@ == key@,
                None => !self@.contains_key(key@),
            },
    {
        let mut i: usize = 0;
        while i < self.rows.len()
            invariant
                i <= self.rows@.len(),
                forall|j: int| 0 <= j < i ==> (#[trigger] self.rows@[j]).key@ != key@,
            decreases self.rows@.len() - i,
        {
            if self.rows[i].key == *key {
                return Some(i);
            }
            i = i + 1;
        }
        proof {
            lemma_rows_map_contains(self.rows@, key@);
        }
        None
    }

    /// The value under `key`.
    pub fn get(&self, key: &str) -> (value: Option<&V>)
        requires
            self.wf(),
        ensures
            match value {
                Some(v) => self@.contains_key(key@) && *v == self@[key@],
                None => !self@.contains_key(key@),
            },
    {
        match self.find(&key.to_string()) {
            Some(i) => {
                proof {
                    lemma_rows_map_at(self.rows@, i as int);
                }
                Some(&self.rows[i].value)
            },
            None => None,
        }
    }

    /// Takes `key` out and hands back what stood under it.
    pub fn remove(&mut self, key: &str) -> (value: Option<V>)
        requires
            old(self).wf(),
        ensures
            final(self).wf(),
            final(self)@ == old(self)@.remove(key@),
            match value {
                Some(v) => old(self)@.contains_key(key@) && v == old(self)@[key@],
                None => !old(self)@.contains_key(key@),
            },
    {
        match self.find(&key.to_string()) {
            Some(i) => {
                proof {
                    lemma_rows_map_at(self.rows@, i as int);
                    lemma_rows_map_remove(self.rows@, i as int);
                }
                Some(self.rows.remove(i).value)
            },
            None => {
                assert(self@ =~= self@.remove(key@));
                None
            },
        }
    }

    /// Puts `value` under `key` and hands back what stood there before.
    pub fn insert(&mut self, key: &str, value: V) -> (before: Option<V>)
        requires
            old(self).wf(),
        ensures
            final(self).wf(),
            final(self)@ == old(self)@.insert(key@, value),
            match before {
                Some(v) => old(self)@.contains_key(key@) && v == old(self)@[key@],
                None => !old(self)@.contains_key(key@),
            },
    {
        let before = self.remove(key);
        let ghost rest = self.rows@;
        self.rows.push(Row { key: key.to_string(), value });
        proof {
            assert(self.rows@.drop_last() =~= rest);
            assert forall|i: int, j: int|
                0 <= i < self.rows@.len() && 0 <= j < self.rows@.len() && i != j implies (
            #[trigger] self.rows@[i]).key@ != (#[trigger] self.rows@[j]).key@ by {
                lemma_rows_map_contains(rest, key@);
                if i < rest.len() && j < rest.len() {
                    assert(rest[i].key@ != rest[j].key@);
                } else if i < rest.len() {
                    assert(rest[i].key@ != key@);
                } else {
                    assert(rest[j].key@ != key@);
                }
            }
            assert(old(self)@.remove(key@).insert(key@, value) =~= old(self)@.insert(key@, value));
        }
        before
    }

    /// Each key once, with what `show` makes of the value under it.
    pub fn list<T, F: Fn(&V) -> T>(&self, show: F) -> (lines: Vec<(String, T)>)
        requires
            self.wf(),
            forall|value: &V| #[trigger] show.requires((value,)),
        ensures
            lists_each_once(lines@, self@.dom()),
            forall|i: int|
                0 <= i < lines@.len() ==> show.ensures(
                    (&self@[lines@[i].0@],),
                    (#[trigger] lines@[i]).1,
                ),
    {
        let mut lines: Vec<(String, T)> = Vec::new();
        let mut at: usize = 0;
        while at < self.rows.len()
            invariant
                at <= self.rows@.len(),
                lines@.len() == at,
                forall|value: &V| #[trigger] show.requires((value,)),
                forall|i: int|
                    0 <= i < at ==> (#[trigger] lines@[i]).0@ == self.rows@[i].key@
                        && show.ensures((&self.rows@[i].value,), lines@[i].1),
            decreases self.rows@.len() - at,
        {
            let row = &self.rows[at];
            lines.push((row.key.clone(), show(&row.value)));
            at = at + 1;
        }
        proof {
            assert forall|i: int| 0 <= i < lines@.len() implies self@.contains_key(
                (#[trigger] lines@[i]).0@,
            ) && show.ensures((&self@[lines@[i].0@],), lines@[i].1) by {
                lemma_rows_map_at(self.rows@, i);
            }
            assert forall|i: int, j: int|
                0 <= i < lines@.len() && 0 <= j < lines@.len() && i != j implies (
            #[trigger] lines@[i]).0@ != (#[trigger] lines@[j]).0@ by {
                assert(self.rows@[i].key@ != self.rows@[j].key@);
            }
            assert forall|key: Seq<char>| #[trigger]
                self@.dom().contains(key) implies exists|i: int|
                0 <= i < lines@.len() && (#[trigger] lines@[i]).0@ == key by {
                lemma_rows_map_contains(self.rows@, key);
                let i = choose|i: int|
                    0 <= i < self.rows@.len() && (#[trigger] self.rows@[i]).key@ == key;
                assert(lines@[i].0@ == key);
            }
        }
        lines
    }
}

} // verus!
