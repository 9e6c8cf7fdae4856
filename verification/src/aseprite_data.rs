use vstd::prelude::*;

use crate::common::Position;
use crate::sprite_sheet::Rect;

verus! {

/// Where a sprite lies in its sheet.
#[derive(Copy, Clone, Debug, PartialEq, Eq, Structural)]
pub struct Frame {
    pub x: usize,
    pub y: usize,
    pub w: usize,
    pub h: usize,
}

/// The data of a sprite sheet export: every sprite's name, as bytes, with its frame.
#[derive(Clone, Debug)]
pub struct AsepriteData {
    pub frames: Vec<(Vec<u8>, Frame)>,
}

/// Whether `a` comes before `b` in dictionary order: at the first byte where they differ, `a`
/// has the smaller one. Only compares names of the same length.
pub open spec fn lex_less(a: Seq<u8>, b: Seq<u8>) -> bool {
    exists|i: int| 0 <= i < a.len() && i < b.len() && a[i] < b[i] && forall|j: int| 0 <= j < i ==> #[trigger] a[j] == b[j]
}

/// The order of sprite names: shorter names first, names of the same length in dictionary order.
/// Names end in the sprite's number, so this is the order of the numbers.
pub open spec fn key_less(a: Seq<u8>, b: Seq<u8>) -> bool {
    a.len() < b.len() || (a.len() == b.len() && lex_less(a, b))
}

/// No name comes before itself.
pub proof fn lemma_key_less_irreflexive(a: Seq<u8>)
    ensures
        !key_less(a, a),
{
}

/// The order of names is transitive.
pub proof fn lemma_key_less_transitive(a: Seq<u8>, b: Seq<u8>, c: Seq<u8>)
    requires
        key_less(a, b),
        key_less(b, c),
    ensures
        key_less(a, c),
{
    if a.len() == b.len() && b.len() == c.len() {
        let i1 = choose|i: int|
            0 <= i < a.len() && i < b.len() && a[i] < b[i] && forall|j: int| 0 <= j < i ==> #[trigger] a[j] == b[j];
        let i2 = choose|i: int|
            0 <= i < b.len() && i < c.len() && b[i] < c[i] && forall|j: int| 0 <= j < i ==> #[trigger] b[j] == c[j];
        if i1 <= i2 {
            assert forall|j: int| 0 <= j < i1 implies #[trigger] a[j] == c[j] by {
                assert(a[j] == b[j]);
                assert(b[j] == c[j]);
            }
            if i1 < i2 {
                assert(b[i1] == c[i1]);
            }
        } else {
            assert forall|j: int| 0 <= j < i2 implies #[trigger] a[j] == c[j] by {
                assert(a[j] == b[j]);
                assert(b[j] == c[j]);
            }
            assert(a[i2] == b[i2]);
        }
    }
}

/// Two names that agree on their first `k` bytes and differ somewhere after have a first byte
/// where they differ.
proof fn lemma_first_difference(a: Seq<u8>, b: Seq<u8>, k: int) -> (i: int)
    requires
        a.len() == b.len(),
        0 <= k <= a.len(),
        forall|j: int| 0 <= j < k ==> #[trigger] a[j] == b[j],
        exists|j: int| k <= j < a.len() && a[j] != b[j],
    ensures
        k <= i < a.len(),
        a[i] != b[i],
        forall|j: int| 0 <= j < i ==> #[trigger] a[j] == b[j],
    decreases a.len() - k,
{
    if a[k] != b[k] {
        k
    } else {
        lemma_first_difference(a, b, k + 1)
    }
}

/// Of two different names one comes before the other.
pub proof fn lemma_key_less_total(a: Seq<u8>, b: Seq<u8>)
    requires
        a != b,
    ensures
        key_less(a, b) || key_less(b, a),
{
    if a.len() == b.len() {
        if forall|j: int| 0 <= j < a.len() ==> #[trigger] a[j] == b[j] {
            assert(a =~= b);
        } else {
            let i = lemma_first_difference(a, b, 0);
            if a[i] < b[i] {
                assert(lex_less(a, b));
            } else {
                assert(forall|j: int| 0 <= j < i ==> #[trigger] b[j] == a[j]);
                assert(lex_less(b, a));
            }
        }
    }
}

/// Return whether name `a` comes before name `b`.
pub fn key_comes_first(a: &Vec<u8>, b: &Vec<u8>) -> (r: bool)
    ensures
        r == key_less(a@, b@),
{
    if a.len() < b.len() {
        return true;
    }
    if a.len() > b.len() {
        return false;
    }
    let mut i: usize = 0;
    while i < a.len()
        invariant
            a@.len() == b@.len(),
            0 <= i <= a@.len(),
            forall|j: int| 0 <= j < i ==> #[trigger] a@[j] == b@[j],
        decreases a@.len() - i,
    {
        if a[i] != b[i] {
            let r = a[i] < b[i];
            proof {
                if r {
                    assert(lex_less(a@, b@));
                } else {
                    assert forall|k: int|
                        0 <= k < a@.len() && k < b@.len() && a@[k] < b@[k] implies !(forall|j: int|
                        0 <= j < k ==> #[trigger] a@[j] == b@[j]) by {
                        if k > i {
                            assert(a@[i as int] != b@[i as int]);
                        } else if k < i {
                            assert(a@[k] == b@[k]);
                        }
                    }
                }
            }
            return r;
        }
        i = i + 1;
    }
    proof {
        assert(a@ =~= b@);
    }
    false
}

/// Whether no two frames have the same name.
pub open spec fn names_distinct(frames: Seq<(Vec<u8>, Frame)>) -> bool {
    forall|i: int, j: int| 0 <= i < j < frames.len() ==> frames[i].0@ != frames[j].0@
}

/// Whether `order` lists every index of the frames once, ordered by the frames' names.
pub open spec fn is_name_order(frames: Seq<(Vec<u8>, Frame)>, order: Seq<usize>) -> bool {
    &&& order.len() == frames.len()
    &&& forall|i: int| 0 <= i < order.len() ==> order[i] < frames.len()
    &&& forall|k: usize| k < frames.len() ==> #[trigger] order.contains(k)
    &&& forall|i: int, j: int|
        0 <= i < j < order.len() ==> key_less(frames[order[i] as int].0@, frames[order[j] as int].0@)
}

/// The rectangle a frame describes.
pub open spec fn rect_of(f: Frame) -> Rect {
    Rect { position: Position { x: f.x as i32, y: f.y as i32 }, width: f.w, height: f.h }
}

/// Whether every frame lies where a position can address it.
pub open spec fn frames_fit(frames: Seq<(Vec<u8>, Frame)>) -> bool {
    forall|i: int| 0 <= i < frames.len() ==> (#[trigger] frames[i]).1.x <= i32::MAX && frames[i].1.y <= i32::MAX
}

impl AsepriteData {
    /// Return the indices of the frames ordered by their names.
    pub fn name_order(&self) -> (order: Vec<usize>)
        requires
            names_distinct(self.frames@),
        ensures
            is_name_order(self.frames@, order@),
    {
        let frames = &self.frames;
        let mut order: Vec<usize> = Vec::new();
        let mut i: usize = 0;
        while i < frames.len()
            invariant
                0 <= i <= frames@.len(),
                names_distinct(frames@),
                order@.len() == i,
                forall|a: int| 0 <= a < order@.len() ==> order@[a] < i,
                forall|k: usize| k < i ==> #[trigger] order@.contains(k),
                forall|a: int, b: int|
                    0 <= a < b < order@.len() ==> key_less(frames@[order@[a] as int].0@, frames@[order@[b] as int].0@),
            decreases frames@.len() - i,
        {
            let mut p: usize = 0;
            while p < order.len()
                invariant
                    0 <= p <= order@.len(),
                    order@.len() == i,
                    i < frames@.len(),
                    forall|a: int| 0 <= a < order@.len() ==> order@[a] < i,
                    forall|q: int| 0 <= q < p ==> !key_less(frames@[i as int].0@, frames@[order@[q] as int].0@),
                ensures
                    0 <= p <= order@.len(),
                    forall|q: int| 0 <= q < p ==> !key_less(frames@[i as int].0@, frames@[order@[q] as int].0@),
                    p < order@.len() ==> key_less(frames@[i as int].0@, frames@[order@[p as int] as int].0@),
                decreases order@.len() - p,
            {
                if key_comes_first(&frames[i].0, &frames[order[p]].0) {
                    break;
                }
                p = p + 1;
            }
            let ghost before = order@;
            let ghost ki = frames@[i as int].0@;
            proof {
                assert forall|q: int| 0 <= q < p implies key_less(frames@[before[q] as int].0@, ki) by {
                    assert(before[q] < i);
                    assert(frames@[before[q] as int].0@ != ki);
                    lemma_key_less_total(frames@[before[q] as int].0@, ki);
                }
                assert(p < before.len() ==> key_less(ki, frames@[before[p as int] as int].0@));
            }
            order.insert(p, i);
            proof {
                before.insert_ensures(p as int, i);
                assert forall|a: int, b: int| 0 <= a < b < order@.len() implies key_less(
                    frames@[order@[a] as int].0@,
                    frames@[order@[b] as int].0@,
                ) by {
                    if b < p {
                        assert(order@[a] == before[a] && order@[b] == before[b]);
                    } else if b == p {
                        assert(order@[a] == before[a]);
                    } else if a < p {
                        assert(order@[a] == before[a] && order@[b] == before[b - 1]);
                        assert(key_less(frames@[before[a] as int].0@, ki));
                        assert(p <= b - 1);
                        if p < b - 1 {
                            assert(key_less(frames@[before[p as int] as int].0@, frames@[before[b - 1] as int].0@));
                            lemma_key_less_transitive(ki, frames@[before[p as int] as int].0@, frames@[before[b - 1] as int].0@);
                        }
                        lemma_key_less_transitive(frames@[before[a] as int].0@, ki, frames@[before[b - 1] as int].0@);
                    } else if a == p {
                        assert(order@[b] == before[b - 1]);
                        if p < b - 1 {
                            assert(key_less(frames@[before[p as int] as int].0@, frames@[before[b - 1] as int].0@));
                            lemma_key_less_transitive(ki, frames@[before[p as int] as int].0@, frames@[before[b - 1] as int].0@);
                        }
                    } else {
                        assert(order@[a] == before[a - 1] && order@[b] == before[b - 1]);
                    }
                }
                assert forall|k: usize| k < i + 1 implies #[trigger] order@.contains(k) by {
                    if k == i {
                        assert(order@[p as int] == k);
                    } else {
                        assert(before.contains(k));
                        let a = choose|a: int| 0 <= a < before.len() && before[a] == k;
                        if a < p {
                            assert(order@[a] == k);
                        } else {
                            assert(order@[a + 1] == k);
                        }
                    }
                }
                assert forall|a: int| 0 <= a < order@.len() implies order@[a] < i + 1 by {
                    if a < p {
                        assert(order@[a] == before[a]);
                    } else if a > p {
                        assert(order@[a] == before[a - 1]);
                    }
                }
            }
            i = i + 1;
        }
        order
    }

    /// Return the rectangles of the frames, ordered by the frames' names. Names look like
    /// "<sheet name> <n>.aseprite", so this is the order of the sprites in the sheet.
    pub fn rect_iter(&self) -> (r: Vec<Rect>)
        requires
            names_distinct(self.frames@),
            frames_fit(self.frames@),
        ensures
            exists|order: Seq<usize>|
                {
                    &&& is_name_order(self.frames@, order)
                    &&& r@.len() == order.len()
                    &&& forall|i: int|
                        0 <= i < order.len() ==> #[trigger] r@[i] == rect_of(self.frames@[order[i] as int].1)
                },
    {
        let order = self.name_order();
        let mut rects: Vec<Rect> = Vec::new();
        let mut i: usize = 0;
        while i < order.len()
            invariant
                0 <= i <= order@.len(),
                is_name_order(self.frames@, order@),
                frames_fit(self.frames@),
                rects@.len() == i,
                forall|k: int| 0 <= k < i ==> #[trigger] rects@[k] == rect_of(self.frames@[order@[k] as int].1),
            decreases order@.len() - i,
        {
            let f = self.frames[order[i]].1;
            assert(f.x <= i32::MAX && f.y <= i32::MAX);
            rects.push(Rect::new(Position::new(f.x as i32, f.y as i32), f.w, f.h));
            i = i + 1;
        }
        rects
    }
}

/// With different names there is only one way to order the frames by name.
pub proof fn lemma_name_order_is_unique(frames: Seq<(Vec<u8>, Frame)>, o1: Seq<usize>, o2: Seq<usize>)
    requires
        names_distinct(frames),
        is_name_order(frames, o1),
        is_name_order(frames, o2),
    ensures
        o1 == o2,
{
    assert forall|i: int| 0 <= i < o1.len() implies o1[i] == o2[i] by {
        lemma_name_order_position(frames, o1, o2, i);
    }
    assert(o1 =~= o2);
}

/// The frame at place `i` of one name order is at place `i` of any other: exactly `i` frames
/// come before it in both.
proof fn lemma_name_order_position(frames: Seq<(Vec<u8>, Frame)>, o1: Seq<usize>, o2: Seq<usize>, i: int)
    requires
        names_distinct(frames),
        is_name_order(frames, o1),
        is_name_order(frames, o2),
        0 <= i < o1.len(),
    ensures
        o1[i] == o2[i],
    decreases i,
{
    if o1[i] != o2[i] {
        let k1 = o1[i] as int;
        let k2 = o2[i] as int;
        assert(o2.contains(o1[i]));
        assert(o1.contains(o2[i]));
        let a = choose|a: int| 0 <= a < o2.len() && o2[a] == k1;
        let b = choose|b: int| 0 <= b < o1.len() && o1[b] == k2;
        if a < i {
            lemma_name_order_position(frames, o1, o2, a);
            assert(o1[a] == k1);
            assert(false) by {
                assert(o1[a] == o1[i]);
                if a < i {
                    assert(key_less(frames[o1[a] as int].0@, frames[o1[i] as int].0@));
                    lemma_key_less_irreflexive(frames[k1].0@);
                }
            }
        }
        if b < i {
            lemma_name_order_position(frames, o1, o2, b);
            assert(o2[b] == k2);
            assert(key_less(frames[o2[b] as int].0@, frames[o2[i] as int].0@));
            lemma_key_less_irreflexive(frames[k2].0@);
        }
        assert(a > i && b > i);
        assert(key_less(frames[k1].0@, frames[k2].0@));
        assert(key_less(frames[k2].0@, frames[k1].0@));
        lemma_key_less_transitive(frames[k1].0@, frames[k2].0@, frames[k1].0@);
        lemma_key_less_irreflexive(frames[k1].0@);
    }
}

} // verus!
