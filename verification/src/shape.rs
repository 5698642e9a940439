//! How many members the objects of a JSON text are written with. A reader that keeps the last of
//! several members with one name hides how many there were.

use crate::json::{lemma_array, Json, Tree};
use vstd::prelude::*;

verus! {

/// How far a text was scanned.
#[verifier::ext_equal]
pub struct Scan {
    /// The number of lists and objects that are open.
    pub depth: int,
    /// Whether a string is open.
    pub quoted: bool,
    /// Whether the next byte of the string is escaped.
    pub escaped: bool,
    /// Whether the outermost list or object was closed. What follows it does not count.
    pub done: bool,
    /// For each part of the outermost list or object, and for each part of that part, into how many
    /// parts it is parted by the commas directly inside it.
    pub parts: Seq<Seq<nat>>,
}

/// One more byte is scanned.
pub open spec fn scan_byte(s: Scan, b: u8) -> Scan {
    if s.done {
        s
    } else if s.quoted {
        if s.escaped {
            Scan { escaped: false, ..s }
        } else if b == 92 {
            Scan { escaped: true, ..s }
        } else if b == 34 {
            Scan { quoted: false, ..s }
        } else {
            s
        }
    } else if b == 34 {
        Scan { quoted: true, ..s }
    } else if b == 91 || b == 123 {
        Scan { depth: s.depth + 1, ..s }
    } else if b == 93 || b == 125 {
        Scan { depth: s.depth - 1, done: s.depth == 1, ..s }
    } else if b == 44 && s.depth == 1 {
        Scan { parts: s.parts.push(seq![1]), ..s }
    } else if b == 44 && s.depth == 2 {
        Scan { parts: s.parts.drop_last().push(s.parts.last().push(1)), ..s }
    } else if b == 44 && s.depth == 3 {
        let inner = s.parts.last();
        Scan {
            parts: s.parts.drop_last().push(inner.drop_last().push(inner.last() + 1)),
            ..s
        }
    } else {
        s
    }
}

/// A text is scanned: brackets outside of strings open and close lists and objects, and commas
/// outside of strings part them.
pub open spec fn scanned(text: Seq<u8>) -> Scan
    decreases text.len(),
{
    if text.len() == 0 {
        Scan { depth: 0, quoted: false, escaped: false, done: false, parts: seq![seq![1]] }
    } else {
        scan_byte(scanned(text.drop_last()), text.last())
    }
}

/// For each part of the outermost list or object of a text, and for each part of that part, into
/// how many parts it is parted by the commas directly inside it.
pub open spec fn shape(text: Seq<u8>) -> Seq<Seq<nat>> {
    scanned(text).parts
}

/// For each part of the outermost list or object, into how many parts it is parted.
pub open spec fn outline(shape: Seq<Seq<nat>>) -> Seq<nat> {
    shape.map_values(|inner: Seq<nat>| inner.len())
}

/// The part `k` of a list or object.
pub open spec fn part(t: Tree, k: int) -> Tree {
    match t {
        Tree::Array(s) => s[k],
        Tree::Object(m) => m[k].1,
        _ => t,
    }
}

/// The number of parts of a list or object. Any other value has none.
pub open spec fn parts(t: Tree) -> nat {
    match t {
        Tree::Array(s) => s.len(),
        Tree::Object(m) => m.len(),
        _ => 0,
    }
}

/// Whether a list or object that is parted into `count` parts was read with as many, which an
/// object is not where a member is written twice. One without parts has no commas to part it.
pub open spec fn once(t: Tree, count: nat) -> bool {
    parts(t) == 0 || parts(t) == count
}

/// Whether no member of an object with this outline is written twice.
pub open spec fn outer_once(outline: Seq<nat>, t: Tree) -> bool {
    once(t, outline.len())
}

/// Whether no member is written twice in the object that is the part `k` of a list or object with
/// this outline.
pub open spec fn part_once(outline: Seq<nat>, t: Tree, k: int) -> bool {
    0 <= k < parts(t) && k < outline.len() ==> once(part(t, k), outline[k])
}

/// Whether no member is written twice in the objects that are parts of the part `k` of a list or
/// object with this shape.
pub open spec fn inner_once(shape: Seq<Seq<nat>>, t: Tree, k: int) -> bool {
    0 <= k < parts(t) && k < shape.len() ==> forall|j: int| #[trigger]
        part_once(shape[k], part(t, k), j)
}

/// Whether no member is written twice, in the outermost object, in those that are parts of it or of
/// the outermost list, and in those that are parts of these parts.
pub open spec fn written_once(shape: Seq<Seq<nat>>, t: Tree) -> bool {
    &&& outer_once(outline(shape), t)
    &&& forall|k: int| #[trigger] part_once(outline(shape), t, k)
    &&& forall|k: int| #[trigger] inner_once(shape, t, k)
}

/// The numbers as natural numbers.
pub open spec fn counts_view(counts: Seq<usize>) -> Seq<nat> {
    counts.map_values(|n: usize| n as nat)
}

/// The numbers as natural numbers.
pub open spec fn shape_view(shape: Seq<Vec<usize>>) -> Seq<Seq<nat>> {
    shape.map_values(|inner: Vec<usize>| counts_view(inner@))
}

/// Scans a text.
pub fn read_shape(text: &[u8]) -> (r: Vec<Vec<usize>>)
    ensures
        shape_view(r@) == shape(text@),
{
    let mut depth: i128 = 0;
    let mut quoted = false;
    let mut escaped = false;
    let mut done = false;
    let mut parts: Vec<Vec<usize>> = Vec::new();
    let mut inner: Vec<usize> = Vec::new();
    let mut count: usize = 1;
    proof {
        assert(counts_view(inner@).push(1) =~= seq![1nat]);
        assert(shape_view(parts@).push(seq![1nat]) =~= seq![seq![1nat]]);
    }
    for i in 0..text.len()
        invariant
            -(i as int) <= depth <= i,
            1 <= count,
            count + depth <= i + 1,
            scanned(text@.take(i as int)) == (Scan {
                depth: depth as int,
                quoted,
                escaped,
                done,
                parts: shape_view(parts@).push(counts_view(inner@).push(count as nat)),
            }),
    {
        let b: u8 = text[i];
        let ghost outer = shape_view(parts@);
        let ghost last = counts_view(inner@);
        proof {
            assert(text@.take(i + 1).drop_last() =~= text@.take(i as int));
            assert(text@.take(i + 1).last() == b);
            assert(outer.push(last.push(count as nat)).drop_last() =~= outer);
            assert(last.push(count as nat).drop_last() =~= last);
        }
        if done {
            // What follows the outermost list or object does not count.
        } else if quoted {
            if escaped {
                escaped = false;
            } else if b == 92 {
                escaped = true;
            } else if b == 34 {
                quoted = false;
            }
        } else if b == 34 {
            quoted = true;
        } else if b == 91 || b == 123 {
            depth = depth + 1;
        } else if b == 93 || b == 125 {
            done = depth == 1;
            depth = depth - 1;
        } else if b == 44 && depth == 1 {
            inner.push(count);
            assert(counts_view(inner@) =~= last.push(count as nat));
            parts.push(inner);
            assert(shape_view(parts@) =~= outer.push(last.push(count as nat)));
            inner = Vec::new();
            count = 1;
            assert(counts_view(inner@).push(1) =~= seq![1nat]);
        } else if b == 44 && depth == 2 {
            inner.push(count);
            assert(counts_view(inner@) =~= last.push(count as nat));
            count = 1;
        } else if b == 44 && depth == 3 {
            count = count + 1;
        }
    }
    assert(text@.take(text@.len() as int) =~= text@);
    let ghost outer = shape_view(parts@);
    let ghost last = counts_view(inner@);
    inner.push(count);
    assert(counts_view(inner@) =~= last.push(count as nat));
    parts.push(inner);
    assert(shape_view(parts@) =~= outer.push(last.push(count as nat)));
    parts
}

/// Into how many parts each part of the outermost list or object is parted.
pub fn read_outline(shape: &Vec<Vec<usize>>) -> (r: Vec<usize>)
    ensures
        counts_view(r@) == outline(shape_view(shape@)),
{
    let mut r: Vec<usize> = Vec::new();
    for i in 0..shape.len()
        invariant
            r@.len() == i,
            forall|j: int| 0 <= j < i ==> #[trigger] r@[j] == shape@[j]@.len(),
    {
        r.push(shape[i].len());
    }
    assert(counts_view(r@) =~= outline(shape_view(shape@)));
    r
}

/// Whether a list or object that is parted into `count` parts was read with as many.
fn is_once(v: &Json, count: usize) -> (r: bool)
    ensures
        r == once(v@, count as nat),
{
    broadcast use lemma_array;

    let n: usize = match v {
        Json::Array(items) => items.len(),
        Json::Object(o) => o.len(),
        _ => 0,
    };
    n == 0 || n == count
}

/// Whether no member of an object with this outline is written twice.
pub fn is_outer_once(outline: &Vec<usize>, v: &Json) -> (r: bool)
    ensures
        r == outer_once(counts_view(outline@), v@),
{
    is_once(v, outline.len())
}

/// Whether no member is written twice in `part`, which is the part `k` of a list or object with
/// this outline.
pub fn is_part_once(outline: &Vec<usize>, part: &Json, k: usize) -> (r: bool)
    ensures
        r == (k < counts_view(outline@).len() ==> once(part@, counts_view(outline@)[k as int])),
{
    k >= outline.len() || is_once(part, outline[k])
}

} // verus!
