//! Comparing identifiers given as text.

use vstd::prelude::*;
use vstd::string::*;

verus! {

/// Whether two texts hold the same characters.
pub fn same_text(left: &str, right: &str) -> (same: bool)
    ensures
        same == (left@ == right@),
{
    let left_owned = left.to_owned();
    let right_owned = right.to_owned();
    left_owned == right_owned
}

/// Text order: character by character by code point, a proper prefix first.
pub open spec fn text_less(left: Seq<char>, right: Seq<char>) -> bool
    decreases left.len(),
{
    if left.len() == 0 {
        right.len() > 0
    } else if right.len() == 0 {
        false
    } else if left[0] != right[0] {
        (left[0] as int) < (right[0] as int)
    } else {
        text_less(left.drop_first(), right.drop_first())
    }
}

/// Text order is irreflexive, asymmetric and total.
pub proof fn lemma_text_order(a: Seq<char>, b: Seq<char>)
    ensures
        !text_less(a, a),
        text_less(a, b) ==> !text_less(b, a),
        a != b ==> text_less(a, b) || text_less(b, a),
    decreases a.len(),
{
    if a.len() > 0 {
        lemma_text_order(a.drop_first(), a.drop_first());
    }
    if a.len() > 0 && b.len() > 0 && a[0] == b[0] {
        lemma_text_order(a.drop_first(), b.drop_first());
        if a != b {
            assert(a.drop_first() != b.drop_first()) by {
                if a.drop_first() == b.drop_first() {
                    assert(a =~= seq![a[0]] + a.drop_first());
                    assert(b =~= seq![b[0]] + b.drop_first());
                }
            }
        }
    }
    if a.len() == 0 && b.len() == 0 {
        assert(a =~= b);
    }
}

/// Text order is transitive.
pub proof fn lemma_text_transitive(a: Seq<char>, b: Seq<char>, c: Seq<char>)
    requires
        text_less(a, b),
        text_less(b, c),
    ensures
        text_less(a, c),
    decreases a.len(),
{
    if a.len() > 0 && b.len() > 0 && c.len() > 0 && a[0] == b[0] && b[0] == c[0] {
        lemma_text_transitive(a.drop_first(), b.drop_first(), c.drop_first());
    }
}

/// Whether `left` comes before `right` in text order.
pub fn text_before(left: &str, right: &str) -> (before: bool)
    ensures
        before == text_less(left@, right@),
{
    let left_len = left.unicode_len();
    let right_len = right.unicode_len();
    let mut index: usize = 0;
    proof {
        assert(left@.skip(0) =~= left@);
        assert(right@.skip(0) =~= right@);
    }
    while index < left_len && index < right_len
        invariant
            left_len == left@.len(),
            right_len == right@.len(),
            index <= left_len,
            index <= right_len,
            text_less(left@, right@) == text_less(left@.skip(index as int), right@.skip(index as int)),
        decreases left_len - index,
    {
        let a = left.get_char(index);
        let b = right.get_char(index);
        if a != b {
            return (a as u32) < (b as u32);
        }
        proof {
            assert(left@.skip(index as int).drop_first() =~= left@.skip(index as int + 1));
            assert(right@.skip(index as int).drop_first() =~= right@.skip(index as int + 1));
        }
        index = index + 1;
    }
    index < right_len
}

/// Bytes a character takes in UTF-8: one below U+0080, two below U+0800,
/// three below U+10000, four above.
pub open spec fn utf8_len(c: char) -> nat {
    if (c as int) < 0x80 {
        1
    } else if (c as int) < 0x800 {
        2
    } else if (c as int) < 0x10000 {
        3
    } else {
        4
    }
}

/// Bytes a text takes in UTF-8.
pub open spec fn utf8_bytes(text: Seq<char>) -> nat
    decreases text.len(),
{
    if text.len() == 0 {
        0
    } else {
        utf8_bytes(text.drop_last()) + utf8_len(text.last())
    }
}

/// Bytes `c` takes in UTF-8.
pub fn char_utf8_len(c: char) -> (len: usize)
    ensures
        len == utf8_len(c),
{
    let code = c as u32;
    if code < 0x80 {
        1
    } else if code < 0x800 {
        2
    } else if code < 0x10000 {
        3
    } else {
        4
    }
}

/// `kept` is the longest prefix of `text` that fits in `max_bytes` bytes.
pub open spec fn longest_fitting_prefix(text: Seq<char>, max_bytes: nat, kept: Seq<char>) -> bool {
    exists|count: int| 0 <= count <= text.len() && kept == #[trigger] text.take(count)
        && utf8_bytes(text.take(count)) <= max_bytes
        && (count == text.len() || utf8_bytes(text.take(count + 1)) > max_bytes)
}

/// Cut `value` to at most `max_bytes` bytes without splitting a character:
/// the longest prefix that fits stays (all of it when it fits already).
pub fn truncate_utf8(value: &mut String, max_bytes: usize)
    ensures
        longest_fitting_prefix(old(value)@, max_bytes as nat, final(value)@),
{
    let length = value.as_str().unicode_len();
    let mut count: usize = 0;
    let mut bytes: usize = 0;
    while count < length
        invariant_except_break
            count <= length,
            length == value@.len(),
            bytes == utf8_bytes(value@.take(count as int)),
            bytes <= max_bytes,
        invariant
            count <= length,
            length == value@.len(),
            bytes == utf8_bytes(value@.take(count as int)),
            bytes <= max_bytes,
        ensures
            count == length || utf8_bytes(value@.take(count as int + 1)) > max_bytes,
        decreases length - count,
    {
        let c = value.as_str().get_char(count);
        let width = char_utf8_len(c);
        proof {
            assert(value@.take(count as int + 1).drop_last() =~= value@.take(count as int));
            assert(value@.take(count as int + 1).last() == c);
        }
        if width > max_bytes - bytes {
            break;
        }
        bytes = bytes + width;
        count = count + 1;
    }
    let kept = value.as_str().substring_char(0, count).to_owned();
    proof {
        assert(kept@ =~= value@.take(count as int));
    }
    *value = kept;
}

/// The UTF-8 length of `text`, or `cap` when it is longer.
pub fn utf8_bytes_capped(text: &str, cap: usize) -> (bytes: usize)
    ensures
        bytes == if utf8_bytes(text@) < cap { utf8_bytes(text@) } else { cap as nat },
{
    let length = text.unicode_len();
    let mut index: usize = 0;
    let mut bytes: usize = 0;
    while index < length
        invariant
            index <= length,
            length == text@.len(),
            bytes <= cap,
            bytes == if utf8_bytes(text@.take(index as int)) < cap { utf8_bytes(text@.take(index as int)) } else { cap as nat },
            utf8_bytes(text@.take(index as int)) >= cap ==> utf8_bytes(text@) >= cap,
        decreases length - index,
    {
        let c = text.get_char(index);
        proof {
            assert(text@.take(index as int + 1).drop_last() =~= text@.take(index as int));
            assert(text@.take(index as int + 1).last() == c);
            lemma_utf8_bytes_prefix(text@, index as int + 1);
        }
        let width = char_utf8_len(c);
        if bytes < cap {
            bytes = if width < cap - bytes { bytes + width } else { cap };
        }
        index = index + 1;
    }
    proof {
        assert(text@.take(index as int) =~= text@);
    }
    bytes
}

/// A prefix never takes more bytes than the whole text.
pub proof fn lemma_utf8_bytes_prefix(text: Seq<char>, count: int)
    requires
        0 <= count <= text.len(),
    ensures
        utf8_bytes(text.take(count)) <= utf8_bytes(text),
    decreases text.len() - count,
{
    if count < text.len() {
        lemma_utf8_bytes_prefix(text, count + 1);
        assert(text.take(count + 1).drop_last() =~= text.take(count));
    } else {
        assert(text.take(count) =~= text);
    }
}

} // verus!
