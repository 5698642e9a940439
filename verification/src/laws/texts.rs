//! What holds of numbers and values in texts, and of what is counted in the text of a message.

use crate::args::{quoted, unexpected};
use crate::json::{json_text, Tree};
use crate::shape::{once, outline, scan_byte, scanned, shape, Scan};
use crate::text::{decimal, digit, signed_decimal};
use vstd::prelude::*;

verus! {

/// The number that decimal digits stand for.
pub open spec fn value_of(s: Seq<char>) -> int
    decreases s.len(),
{
    if s.len() == 0 {
        0
    } else {
        10 * value_of(s.drop_last()) + (s.last() as u32 - '0' as u32)
    }
}

/// A number in decimal is made of digits, the first of which is not zero unless it is the only one,
/// and stands for the number.
pub proof fn lemma_decimal(n: nat)
    ensures
        value_of(decimal(n)) == n,
        decimal(n).len() > 0,
        forall|i: int| 0 <= i < decimal(n).len() ==> '0' <= #[trigger] decimal(n)[i] <= '9',
        decimal(n)[0] == '0' ==> n == 0,
        n == 0 ==> decimal(n).len() == 1,
    decreases n,
{
    if n < 10 {
        assert(decimal(n) =~= seq![digit(n as int)]);
        assert(decimal(n).drop_last() =~= Seq::<char>::empty());
        assert(value_of(decimal(n).drop_last()) == 0);
        assert(digit(n as int) as u32 == '0' as u32 + n);
    } else {
        lemma_decimal(n / 10);
        let d = (n % 10) as int;
        assert(digit(d) as u32 == '0' as u32 + d);
        assert(decimal(n).drop_last() =~= decimal(n / 10));
        assert(decimal(n)[0] == decimal(n / 10)[0]);
        assert(10 * (n / 10) + n % 10 == n);
    }
}

/// A whole number in decimal has a sign just where it is negative.
pub proof fn lemma_signed_decimal(n: int)
    ensures
        n >= 0 ==> signed_decimal(n) == decimal(n as nat),
        n < 0 ==> signed_decimal(n) == "-"@ + decimal((-n) as nat),
{
    reveal_strlit("-");
    assert("-"@ =~= seq!['-']);
}

/// What is said of a value that was not expected.
pub proof fn lemma_what_is_said_of_a_value(n: int, s: Seq<char>, t: Tree)
    ensures
        unexpected(Tree::Null) == "null"@,
        unexpected(Tree::Bool(true)) == "boolean `true`"@,
        unexpected(Tree::Bool(false)) == "boolean `false`"@,
        unexpected(Tree::Int(n)) == "integer `"@ + signed_decimal(n) + "`"@,
        t is Float ==> unexpected(t) == "floating point `"@ + json_text(t) + "`"@,
        unexpected(Tree::String(s)) == "string "@ + quoted(s),
        t is Array ==> unexpected(t) == "sequence"@,
        t is Object ==> unexpected(t) == "map"@,
{
}

/// How the parts of a text are counted. Nothing counts inside of a string, which ends at a quote that
/// is not escaped, nor behind the outermost list or object. A comma begins another part of the
/// outermost list or object, of a part of it, or of a part of such a part.
pub proof fn lemma_what_counts(text: Seq<u8>, b: u8)
    ensures
        ({
            let s = scanned(text);
            let next = scanned(text.push(b));
            &&& s.done ==> next == s
            &&& !s.done && s.quoted ==> next.parts == s.parts && next.depth == s.depth && !next.done
            &&& !s.done && s.quoted && s.escaped ==> next.quoted && !next.escaped
            &&& !s.done && s.quoted && !s.escaped ==> (next.quoted <==> b != 34) && (next.escaped
                <==> b == 92)
            &&& !s.done && !s.quoted ==> {
                &&& next.quoted <==> b == 34
                &&& next.escaped == s.escaped
                &&& next.depth == if b == 91 || b == 123 {
                    s.depth + 1
                } else if b == 93 || b == 125 {
                    s.depth - 1
                } else {
                    s.depth
                }
                &&& next.done <==> (b == 93 || b == 125) && s.depth == 1
                &&& b != 44 || s.depth < 1 || s.depth > 3 ==> next.parts == s.parts
                &&& b == 44 && s.depth == 1 ==> next.parts == s.parts.push(seq![1nat])
                &&& b == 44 && s.depth == 2 ==> next.parts == s.parts.update(
                    s.parts.len() - 1,
                    s.parts.last().push(1),
                )
                &&& b == 44 && s.depth == 3 ==> next.parts == s.parts.update(
                    s.parts.len() - 1,
                    s.parts.last().update(s.parts.last().len() - 1, s.parts.last().last() + 1),
                )
            }
        }),
        scanned(Seq::empty()) == (Scan {
            depth: 0,
            quoted: false,
            escaped: false,
            done: false,
            parts: seq![seq![1nat]],
        }),
        shape(text) == scanned(text).parts,
        outline(shape(text)).len() == shape(text).len(),
        forall|i: int|
            0 <= i < shape(text).len() ==> #[trigger] outline(shape(text))[i] == shape(
                text,
            )[i].len(),
{
    lemma_parts_are_there(text);
    let s = scanned(text);
    let next = scanned(text.push(b));
    assert(text.push(b).drop_last() =~= text);
    assert(next == scan_byte(s, b));
    if !s.done && !s.quoted && b == 44 && s.depth == 2 {
        assert(next.parts =~= s.parts.update(s.parts.len() - 1, s.parts.last().push(1)));
    }
    if !s.done && !s.quoted && b == 44 && s.depth == 3 {
        let last = s.parts.last();
        assert(last.drop_last().push(last.last() + 1) =~= last.update(
            last.len() - 1,
            last.last() + 1,
        ));
        assert(next.parts =~= s.parts.update(
            s.parts.len() - 1,
            last.update(last.len() - 1, last.last() + 1),
        ));
    }
}

proof fn lemma_parts_are_there(text: Seq<u8>)
    ensures
        scanned(text).parts.len() > 0,
        scanned(text).parts.last().len() > 0,
    decreases text.len(),
{
    if text.len() > 0 {
        lemma_parts_are_there(text.drop_last());
    }
}

/// Whether a list or object was read with as many parts as it is written with.
pub proof fn lemma_written_and_read(s: Seq<Tree>, m: Seq<(Seq<char>, Tree)>, t: Tree, count: nat)
    requires
        t !is Array && t !is Object,
    ensures
        once(Tree::Array(s), count) <==> s.len() == 0 || s.len() == count,
        once(Tree::Object(m), count) <==> m.len() == 0 || m.len() == count,
        once(t, count),
{
}

} // verus!
