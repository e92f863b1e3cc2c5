//! A line of text that is edited, with a cursor that counts bytes and stands between characters.
use vstd::prelude::*;
use vstd::string::*;
use vstd::utf8::*;

use crate::text;

verus! {

/// How many bytes a character takes.
pub open spec fn width(c: char) -> nat {
    encode_scalar(c as u32).len()
}

/// How many bytes a text takes.
pub open spec fn size(s: Seq<char>) -> nat {
    encode_utf8(s).len()
}

/// Whether a cursor stands before the character at a position.
pub open spec fn stands_at(s: Seq<char>, cursor: usize, k: int) -> bool {
    0 <= k <= s.len() && size(s.take(k)) == cursor
}

/// Whether a cursor stands between two characters, or at an end.
pub open spec fn on_boundary(s: Seq<char>, cursor: usize) -> bool {
    exists|k: int| stands_at(s, cursor, k)
}

/// How many characters stand before a cursor.
pub open spec fn column(s: Seq<char>, cursor: usize) -> int {
    choose|k: int| stands_at(s, cursor, k)
}

/// A line with a text put in before the character at a position.
pub open spec fn put_in(s: Seq<char>, k: int, more: Seq<char>) -> Seq<char> {
    s.take(k) + more + s.skip(k)
}

proof fn lemma_size_add(a: Seq<char>, b: Seq<char>)
    ensures
        size(a + b) == size(a) + size(b),
    decreases a.len(),
{
    if a.len() == 0 {
        assert(a + b =~= b);
    } else {
        assert((a + b).drop_first() =~= a.drop_first() + b);
        lemma_size_add(a.drop_first(), b);
    }
}

proof fn lemma_size_one(c: char)
    ensures
        size(seq![c]) == width(c),
        width(c) >= 1,
{
    assert(seq![c].drop_first() =~= seq![]);
    assert(encode_utf8(Seq::<char>::empty()).len() == 0);
}

proof fn lemma_size_next(s: Seq<char>, k: int)
    requires
        0 <= k < s.len(),
    ensures
        size(s.take(k + 1)) == size(s.take(k)) + width(s[k]),
        width(s[k]) >= 1,
{
    assert(s.take(k + 1) =~= s.take(k) + seq![s[k]]);
    lemma_size_add(s.take(k), seq![s[k]]);
    lemma_size_one(s[k]);
}

proof fn lemma_size_grows(s: Seq<char>, i: int, j: int)
    requires
        0 <= i < j <= s.len(),
    ensures
        size(s.take(i)) < size(s.take(j)),
    decreases j - i,
{
    lemma_size_next(s, j - 1);
    if i < j - 1 {
        lemma_size_grows(s, i, j - 1);
    }
}

/// A cursor stands at one position only.
pub proof fn law_column_is_unique(s: Seq<char>, cursor: usize, k: int)
    requires
        stands_at(s, cursor, k),
    ensures
        on_boundary(s, cursor),
        column(s, cursor) == k,
{
    let other = column(s, cursor);
    assert(stands_at(s, cursor, other));
    if other < k {
        lemma_size_grows(s, other, k);
    } else if k < other {
        lemma_size_grows(s, k, other);
    }
}

/// Taking out what was put in gives back the line.
pub proof fn law_removal_undoes_insertion(s: Seq<char>, k: int, c: char)
    requires
        0 <= k <= s.len(),
    ensures
        put_in(s, k, seq![c]).remove(k) == s,
{
    assert(put_in(s, k, seq![c]).remove(k) =~= s);
}

fn char_width(c: char) -> (r: usize)
    ensures
        r == width(c),
        1 <= r <= 4,
{
    let code = c as u32;
    if code <= 0x7F {
        1
    } else if code <= 0x7FF {
        2
    } else if code <= 0xFFFF {
        3
    } else {
        4
    }
}

fn text_size(s: &str) -> (r: usize)
    ensures
        r == size(s@),
{
    s.as_bytes().len()
}

fn find_column(chars: &Vec<char>, cursor: usize) -> (r: usize)
    requires
        on_boundary(chars@, cursor),
    ensures
        r == column(chars@, cursor),
        stands_at(chars@, cursor, r as int),
{
    let mut at: usize = 0;
    let mut k: usize = 0;
    proof {
        assert(chars@.take(0) =~= seq![]);
        assert(encode_utf8(Seq::<char>::empty()).len() == 0);
    }
    let n: usize = chars.len();
    while at < cursor
        invariant
            on_boundary(chars@, cursor),
            n == chars@.len(),
            k <= n,
            at == size(chars@.take(k as int)),
            at <= cursor,
        decreases cursor - at,
    {
        proof {
            let target = column(chars@, cursor);
            assert(stands_at(chars@, cursor, target));
            if target <= k {
                if target < k {
                    lemma_size_grows(chars@, target, k as int);
                }
                assert(false);
            }
            lemma_size_next(chars@, k as int);
            if k + 1 < target {
                lemma_size_grows(chars@, k + 1, target);
            }
        }
        at = at + char_width(chars[k]);
        k = k + 1;
    }
    proof {
        law_column_is_unique(chars@, cursor, k as int);
    }
    k
}

fn place_of(chars: &Vec<char>, k: usize) -> (r: usize)
    requires
        k <= chars@.len(),
    ensures
        r == size(chars@.take(k as int)),
        stands_at(chars@, r, k as int),
        on_boundary(chars@, r),
{
    let before = text::slice_text(chars, 0, k);
    proof {
        assert(chars@.subrange(0, k as int) =~= chars@.take(k as int));
    }
    let r: usize = text_size(before.as_str());
    proof {
        assert(stands_at(chars@, r, k as int));
    }
    r
}

/// Where the character before the cursor begins.
pub fn previous_boundary(value: &str, cursor: usize) -> (r: usize)
    requires
        on_boundary(value@, cursor),
    ensures
        stands_at(
            value@,
            r,
            if column(value@, cursor) > 0 {
                column(value@, cursor) - 1
            } else {
                0
            },
        ),
        on_boundary(value@, r),
{
    let chars = text::chars_of(value);
    let k: usize = find_column(&chars, cursor);
    if k > 0 {
        place_of(&chars, k - 1)
    } else {
        place_of(&chars, 0)
    }
}

/// Where the character behind the cursor ends.
pub fn next_boundary(value: &str, cursor: usize) -> (r: usize)
    requires
        on_boundary(value@, cursor),
    ensures
        stands_at(
            value@,
            r,
            if column(value@, cursor) < value@.len() {
                column(value@, cursor) + 1
            } else {
                value@.len() as int
            },
        ),
        on_boundary(value@, r),
{
    let chars = text::chars_of(value);
    let k: usize = find_column(&chars, cursor);
    if k < chars.len() {
        place_of(&chars, k + 1)
    } else {
        place_of(&chars, k)
    }
}

/// Where a line ends.
pub fn end_boundary(value: &str) -> (r: usize)
    ensures
        stands_at(value@, r, value@.len() as int),
        on_boundary(value@, r),
{
    let r: usize = text_size(value);
    proof {
        assert(value@.take(value@.len() as int) =~= value@);
        assert(stands_at(value@, r, value@.len() as int));
    }
    r
}

/// Puts a text in at the cursor, which moves behind it.
pub fn insert_text(value: &mut String, cursor: &mut usize, more: &str)
    requires
        on_boundary(old(value)@, *old(cursor)),
    ensures
        final(value)@ == put_in(old(value)@, column(old(value)@, *old(cursor)), more@),
        stands_at(
            final(value)@,
            *final(cursor),
            column(old(value)@, *old(cursor)) + more@.len(),
        ),
        on_boundary(final(value)@, *final(cursor)),
{
    let chars = text::chars_of(value.as_str());
    let k: usize = find_column(&chars, *cursor);
    let mut out = text::slice_text(&chars, 0, k);
    text::push_text(&mut out, more);
    let place: usize = text_size(out.as_str());
    let ghost head = out@;
    let rest = text::slice_text(&chars, k, chars.len());
    text::push_text(&mut out, rest.as_str());
    proof {
        assert(chars@.subrange(0, k as int) =~= chars@.take(k as int));
        assert(chars@.subrange(k as int, chars@.len() as int) =~= chars@.skip(k as int));
        assert(out@ =~= put_in(chars@, k as int, more@));
        assert(out@.take(k + more@.len()) =~= head);
        assert(stands_at(out@, place, k + more@.len()));
    }
    *value = out;
    *cursor = place;
}

/// Puts a character in at the cursor, which moves behind it.
pub fn insert_char(value: &mut String, cursor: &mut usize, character: char)
    requires
        on_boundary(old(value)@, *old(cursor)),
    ensures
        final(value)@ == put_in(old(value)@, column(old(value)@, *old(cursor)), seq![character]),
        stands_at(final(value)@, *final(cursor), column(old(value)@, *old(cursor)) + 1),
        on_boundary(final(value)@, *final(cursor)),
{
    let mut more = String::new();
    more.push(character);
    proof {
        assert(more@ =~= seq![character]);
    }
    insert_text(value, cursor, more.as_str());
}

fn without(chars: &Vec<char>, k: usize) -> (r: String)
    requires
        k < chars@.len(),
    ensures
        r@ == chars@.remove(k as int),
{
    let n: usize = chars.len();
    let mut out = text::slice_text(chars, 0, k);
    let rest = text::slice_text(chars, k + 1, n);
    text::push_text(&mut out, rest.as_str());
    proof {
        assert(out@ =~= chars@.remove(k as int));
    }
    out
}

/// Takes out the character before the cursor, where there is one; the cursor moves to where it
/// began.
pub fn remove_previous_char(value: &mut String, cursor: &mut usize)
    requires
        on_boundary(old(value)@, *old(cursor)),
    ensures
        ({
            let k = column(old(value)@, *old(cursor));
            if k > 0 {
                final(value)@ == old(value)@.remove(k - 1) && stands_at(
                    final(value)@,
                    *final(cursor),
                    k - 1,
                )
            } else {
                final(value)@ == old(value)@ && *final(cursor) == *old(cursor)
            }
        }),
        on_boundary(final(value)@, *final(cursor)),
{
    let chars = text::chars_of(value.as_str());
    let k: usize = find_column(&chars, *cursor);
    if k == 0 {
        return;
    }
    let place: usize = place_of(&chars, k - 1);
    let out = without(&chars, k - 1);
    proof {
        assert(out@.take(k - 1) =~= chars@.take(k - 1));
        assert(stands_at(out@, place, k - 1));
    }
    *value = out;
    *cursor = place;
}

/// Takes out the character behind the cursor, where there is one.
pub fn remove_next_char(value: &mut String, cursor: usize)
    requires
        on_boundary(old(value)@, cursor) || cursor >= size(old(value)@),
    ensures
        final(value)@ == if on_boundary(old(value)@, cursor) && column(old(value)@, cursor)
            < old(value)@.len() {
            old(value)@.remove(column(old(value)@, cursor))
        } else {
            old(value)@
        },
        on_boundary(old(value)@, cursor) ==> stands_at(
            final(value)@,
            cursor,
            column(old(value)@, cursor),
        ) && on_boundary(final(value)@, cursor),
{
    proof {
        assert(value@.take(value@.len() as int) =~= value@);
    }
    if cursor >= text_size(value.as_str()) {
        proof {
            if on_boundary(value@, cursor) && column(value@, cursor) < value@.len() {
                lemma_size_grows(value@, column(value@, cursor), value@.len() as int);
            }
        }
        return;
    }
    let chars = text::chars_of(value.as_str());
    let k: usize = find_column(&chars, cursor);
    let out = without(&chars, k);
    proof {
        assert(out@.take(k as int) =~= chars@.take(k as int));
        assert(stands_at(out@, cursor, k as int));
    }
    *value = out;
}

} // verus!
