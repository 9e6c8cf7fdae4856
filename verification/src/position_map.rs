use vstd::prelude::*;

use crate::common::Position;

verus! {

/// The map that results from inserting the entries in order, a later entry replacing an earlier
/// one with the same position.
pub open spec fn entries_map<V>(s: Seq<(Position, V)>) -> Map<Position, V>
    decreases s.len(),
{
    if s.len() == 0 {
        Map::empty()
    } else {
        entries_map(s.drop_last()).insert(s.last().0, s.last().1)
    }
}

/// A map from positions to values, kept as the list of its insertions.
#[derive(Clone, Debug, PartialEq, Eq)]
pub struct PositionMap<V> {
    pub entries: Vec<(Position, V)>,
}

impl<V> View for PositionMap<V> {
    type V = Map<Position, V>;

    open spec fn view(&self) -> Map<Position, V> {
        entries_map(self.entries@)
    }
}

proof fn lemma_entries_map_push<V>(s: Seq<(Position, V)>, e: (Position, V))
    ensures
        entries_map(s.push(e)) == entries_map(s).insert(e.0, e.1),
{
    assert(s.push(e).drop_last() == s);
}

proof fn lemma_entries_map_lookup<V>(s: Seq<(Position, V)>, p: Position, i: int)
    requires
        0 <= i < s.len(),
        s[i].0 == p,
        forall|j: int| i < j < s.len() ==> (#[trigger] s[j]).0 != p,
    ensures
        entries_map(s).contains_key(p),
        entries_map(s)[p] == s[i].1,
    decreases s.len(),
{
    if i < s.len() - 1 {
        lemma_entries_map_lookup(s.drop_last(), p, i);
    }
}

proof fn lemma_entries_map_absent<V>(s: Seq<(Position, V)>, p: Position)
    requires
        forall|j: int| 0 <= j < s.len() ==> (#[trigger] s[j]).0 != p,
    ensures
        !entries_map(s).contains_key(p),
    decreases s.len(),
{
    if s.len() > 0 {
        lemma_entries_map_absent(s.drop_last(), p);
    }
}

/// Every position that occurs in the entries is a key of the map.
pub proof fn lemma_entries_map_has_entry<V>(s: Seq<(Position, V)>, j: int)
    requires
        0 <= j < s.len(),
    ensures
        entries_map(s).contains_key(s[j].0),
    decreases s.len(),
{
    if j < s.len() - 1 {
        lemma_entries_map_has_entry(s.drop_last(), j);
    }
}

/// Every key of the map occurs in the entries.
pub proof fn lemma_entries_map_key_entry<V>(s: Seq<(Position, V)>, p: Position) -> (j: int)
    requires
        entries_map(s).contains_key(p),
    ensures
        0 <= j < s.len(),
        s[j].0 == p,
    decreases s.len(),
{
    if s.last().0 == p {
        (s.len() - 1) as int
    } else {
        lemma_entries_map_key_entry(s.drop_last(), p)
    }
}

impl<V> PositionMap<V> {
    pub fn new() -> (r: PositionMap<V>)
        ensures
            r@ == Map::<Position, V>::empty(),
    {
        PositionMap { entries: Vec::new() }
    }

    /// Set the value of a position.
    pub fn insert(&mut self, position: Position, value: V)
        ensures
            final(self)@ == old(self)@.insert(position, value),
    {
        proof {
            lemma_entries_map_push(self.entries@, (position, value));
        }
        self.entries.push((position, value));
    }

    /// Return the value of a position, if the map holds it.
    pub fn get(&self, position: &Position) -> (r: Option<&V>)
        ensures
            r is Some <==> self@.contains_key(*position),
            r is Some ==> *r->0 == self@[*position],
    {
        let mut i: usize = self.entries.len();
        while i > 0
            invariant
                0 <= i <= self.entries@.len(),
                forall|j: int| i <= j < self.entries@.len() ==> (#[trigger] self.entries@[j]).0 != *position,
            decreases i,
        {
            i = i - 1;
            if self.entries[i].0 == *position {
                proof {
                    lemma_entries_map_lookup(self.entries@, *position, i as int);
                }
                return Some(&self.entries[i].1);
            }
        }
        proof {
            lemma_entries_map_absent(self.entries@, *position);
        }
        None
    }
}

/// What a map gives back after an insertion: the inserted value at its position, and at every
/// other position what it held before.
pub proof fn lemma_read_after_write<V>(s: Seq<(Position, V)>, p: Position, v: V, q: Position)
    ensures
        entries_map(s.push((p, v))).contains_key(p),
        entries_map(s.push((p, v)))[p] == v,
        q != p ==> (entries_map(s.push((p, v))).contains_key(q) <==> entries_map(s).contains_key(q)),
        q != p && entries_map(s).contains_key(q) ==> entries_map(s.push((p, v)))[q] == entries_map(s)[q],
{
    lemma_entries_map_push(s, (p, v));
}

/// Whether `s` holds no value twice.
pub open spec fn distinct<T>(s: Seq<T>) -> bool {
    forall|i: int, j: int| 0 <= i < j < s.len() ==> s[i] != s[j]
}

/// The set of columns of the positions in the map.
pub open spec fn columns_of<V>(m: Map<Position, V>) -> Set<i32> {
    m.dom().map(|p: Position| p.x)
}

/// The set of rows of the positions in the map.
pub open spec fn rows_of<V>(m: Map<Position, V>) -> Set<i32> {
    m.dom().map(|p: Position| p.y)
}

/// Return whether the vector holds the value.
pub fn contains_i32(v: &Vec<i32>, x: i32) -> (r: bool)
    ensures
        r == v@.contains(x),
{
    let mut i: usize = 0;
    while i < v.len()
        invariant
            0 <= i <= v@.len(),
            forall|j: int| 0 <= j < i ==> v@[j] != x,
        decreases v@.len() - i,
    {
        if v[i] == x {
            return true;
        }
        i = i + 1;
    }
    false
}

/// Return the number of distinct columns of the positions in the map.
pub fn count_columns<V>(map: &PositionMap<V>) -> (r: usize)
    ensures
        r == columns_of(map@).len(),
{
    let entries = &map.entries;
    let ghost m = map@;
    let mut columns: Vec<i32> = Vec::new();
    let mut i: usize = 0;
    while i < entries.len()
        invariant
            0 <= i <= entries@.len(),
            entries == &map.entries,
            m == map@,
            distinct(columns@),
            columns@.len() <= i,
            forall|k: int| 0 <= k < columns@.len() ==> columns_of(m).contains(#[trigger] columns@[k]),
            forall|j: int| 0 <= j < i ==> columns@.contains((#[trigger] entries@[j]).0.x),
        decreases entries@.len() - i,
    {
        let x = entries[i].0.x;
        proof {
            lemma_entries_map_has_entry(entries@, i as int);
            assert(m.dom().contains(entries@[i as int].0));
            assert(columns_of(m).contains(x));
        }
        let ghost before = columns@;
        if !contains_i32(&columns, x) {
            columns.push(x);
            proof {
                assert(columns@.last() == x);
            }
        }
        proof {
            assert forall|j: int| 0 <= j < i + 1 implies columns@.contains((#[trigger] entries@[j]).0.x) by {
                if j < i {
                    let k = choose|k: int| 0 <= k < before.len() && before[k] == entries@[j].0.x;
                    assert(columns@[k] == before[k]);
                }
            }
        }
        i = i + 1;
    }
    proof {
        assert forall|c: i32| #[trigger] columns_of(m).contains(c) implies columns@.contains(c) by {
            let p = choose|p: Position| m.dom().contains(p) && p.x == c;
            let j = lemma_entries_map_key_entry(entries@, p);
        }
        assert(columns@.to_set() == columns_of(m));
        columns@.unique_seq_to_set();
    }
    columns.len()
}

/// Return the number of distinct rows of the positions in the map.
pub fn count_rows<V>(map: &PositionMap<V>) -> (r: usize)
    ensures
        r == rows_of(map@).len(),
{
    let entries = &map.entries;
    let ghost m = map@;
    let mut rows: Vec<i32> = Vec::new();
    let mut i: usize = 0;
    while i < entries.len()
        invariant
            0 <= i <= entries@.len(),
            entries == &map.entries,
            m == map@,
            distinct(rows@),
            rows@.len() <= i,
            forall|k: int| 0 <= k < rows@.len() ==> rows_of(m).contains(#[trigger] rows@[k]),
            forall|j: int| 0 <= j < i ==> rows@.contains((#[trigger] entries@[j]).0.y),
        decreases entries@.len() - i,
    {
        let y = entries[i].0.y;
        proof {
            lemma_entries_map_has_entry(entries@, i as int);
            assert(m.dom().contains(entries@[i as int].0));
            assert(rows_of(m).contains(y));
        }
        let ghost before = rows@;
        if !contains_i32(&rows, y) {
            rows.push(y);
            proof {
                assert(rows@.last() == y);
            }
        }
        proof {
            assert forall|j: int| 0 <= j < i + 1 implies rows@.contains((#[trigger] entries@[j]).0.y) by {
                if j < i {
                    let k = choose|k: int| 0 <= k < before.len() && before[k] == entries@[j].0.y;
                    assert(rows@[k] == before[k]);
                }
            }
        }
        i = i + 1;
    }
    proof {
        assert forall|c: i32| #[trigger] rows_of(m).contains(c) implies rows@.contains(c) by {
            let p = choose|p: Position| m.dom().contains(p) && p.y == c;
            let j = lemma_entries_map_key_entry(entries@, p);
        }
        assert(rows@.to_set() == rows_of(m));
        rows@.unique_seq_to_set();
    }
    rows.len()
}

} // verus!
