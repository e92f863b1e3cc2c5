//! What holds of texts and their pieces.
use vstd::prelude::*;

use crate::text;

verus! {

/// Whether a text is white space alone.
pub open spec fn blank(s: Seq<char>) -> bool {
    forall|i: int| 0 <= i < s.len() ==> text::is_space(#[trigger] s[i])
}

/// Of the ASCII characters, the blank and those from tab to carriage return are white space.
pub proof fn law_ascii_white_space(c: char)
    requires
        c as u32 <= 127,
    ensures
        text::is_space(c) <==> c == ' ' || 9 <= c as u32 <= 13,
{
}

proof fn lemma_trim_start(s: Seq<char>) -> (n: int)
    ensures
        0 <= n <= s.len(),
        blank(s.take(n)),
        text::trim_start(s) == s.skip(n),
        n < s.len() ==> !text::is_space(s[n]),
    decreases s.len(),
{
    if s.len() > 0 && text::is_space(s[0]) {
        let n = lemma_trim_start(s.drop_first());
        assert(s.drop_first().skip(n) =~= s.skip(n + 1));
        assert forall|i: int| 0 <= i < n + 1 implies text::is_space(#[trigger] s.take(n + 1)[i]) by {
            if i > 0 {
                assert(text::is_space(s.drop_first().take(n)[i - 1]));
            }
        }
        n + 1
    } else {
        assert(s.skip(0) =~= s);
        0
    }
}

proof fn lemma_trim_end(s: Seq<char>) -> (n: int)
    ensures
        0 <= n <= s.len(),
        blank(s.skip(n)),
        text::trim_end(s) == s.take(n),
        n > 0 ==> !text::is_space(s[n - 1]),
    decreases s.len(),
{
    if s.len() > 0 && text::is_space(s.last()) {
        let n = lemma_trim_end(s.drop_last());
        assert(s.drop_last().take(n) =~= s.take(n));
        assert forall|i: int| 0 <= i < s.len() - n implies text::is_space(#[trigger] s.skip(n)[i]) by {
            if i < s.len() - n - 1 {
                assert(text::is_space(s.drop_last().skip(n)[i]));
            }
        }
        n
    } else {
        assert(s.take(s.len() as int) =~= s);
        s.len() as int
    }
}

/// Trimming takes away white space at both ends and nothing else, and leaves none there.
pub proof fn law_trimmed(s: Seq<char>)
    ensures
        exists|a: int, b: int|
            0 <= a <= b <= s.len() && text::trim(s) == #[trigger] s.subrange(a, b) && blank(
                s.take(a),
            ) && blank(s.skip(b)),
        text::trim(s).len() > 0 ==> !text::is_space(text::trim(s)[0]) && !text::is_space(
            text::trim(s).last(),
        ),
        text::trim(text::trim(s)) == text::trim(s),
        text::trim(s).len() == 0 <==> blank(s),
{
    let a = lemma_trim_start(s);
    let t = text::trim_start(s);
    let n = lemma_trim_end(t);
    let b = a + n;
    assert(t.take(n) =~= s.subrange(a, b));
    assert(t.skip(n) =~= s.skip(b));
    assert(text::trim(s) == s.subrange(a, b));
    if n > 0 {
        assert(text::trim(s)[0] == s[a]);
        assert(text::trim(s).last() == t[n - 1]);
    }
    if blank(s) && a < s.len() {
        assert(text::is_space(s[a]));
    }
    if n == 0 {
        assert forall|i: int| 0 <= i < s.len() implies text::is_space(#[trigger] s[i]) by {
            if i < a {
                assert(text::is_space(s.take(a)[i]));
            } else {
                assert(text::is_space(s.skip(b)[i - b]));
            }
        }
    }
}

/// Lowercase and uppercase change ASCII letters alone, each to the other case.
pub proof fn law_ascii_case(s: Seq<char>, i: int)
    requires
        0 <= i < s.len(),
    ensures
        text::lower(s).len() == s.len(),
        text::upper(s).len() == s.len(),
        'A' <= s[i] <= 'Z' ==> text::lower(s)[i] as int == s[i] as int + 32,
        !('A' <= s[i] <= 'Z') ==> text::lower(s)[i] == s[i],
        'a' <= s[i] <= 'z' ==> text::upper(s)[i] as int == s[i] as int - 32,
        !('a' <= s[i] <= 'z') ==> text::upper(s)[i] == s[i],
{
}

/// A text contains another exactly where it is the other with something before and behind it, and
/// begins with it where nothing is before it.
pub proof fn law_containment(s: Seq<char>, needle: Seq<char>)
    ensures
        text::contains(s, needle) <==> exists|a: Seq<char>, b: Seq<char>| s == #[trigger] (a
            + needle + b),
        text::starts_with(s, needle) <==> exists|b: Seq<char>| s == #[trigger] (needle + b),
{
    if text::contains(s, needle) {
        let i = choose|i: int| text::occurs_at(s, needle, i);
        assert(s =~= s.take(i) + needle + s.skip(i + needle.len())) by {
            let n = needle.len() as int;
            assert(s.subrange(i, i + n) == needle);
            assert forall|k: int| 0 <= k < s.len() implies s[k] == (s.take(i) + needle + s.skip(
                i + n,
            ))[k] by {
                if i <= k < i + n {
                    assert(s.subrange(i, i + n)[k - i] == s[k]);
                }
            }
        }
    }
    if exists|a: Seq<char>, b: Seq<char>| s == #[trigger] (a + needle + b) {
        let (a, b) = choose|a: Seq<char>, b: Seq<char>| s == #[trigger] (a + needle + b);
        assert(s.subrange(a.len() as int, (a.len() + needle.len()) as int) =~= needle);
        assert(text::occurs_at(s, needle, a.len() as int));
    }
    if text::starts_with(s, needle) {
        let n = needle.len() as int;
        assert(s.subrange(0, n) == needle);
        assert(s =~= needle + s.skip(n)) by {
            assert forall|k: int| 0 <= k < s.len() implies s[k] == (needle + s.skip(n))[k] by {
                if k < n {
                    assert(s.subrange(0, n)[k] == s[k]);
                }
            }
        }
    }
    if exists|b: Seq<char>| s == #[trigger] (needle + b) {
        let b = choose|b: Seq<char>| s == #[trigger] (needle + b);
        assert(s.subrange(0, needle.len() as int) =~= needle);
    }
}

/// Splitting once gives what stands before the first separator and what stands behind it.
pub proof fn law_split_once<T>(s: Seq<T>, c: T)
    ensures
        text::split_once(s, c) is Some <==> s.contains(c),
        text::split_once(s, c) matches Some((a, b)) ==> s == a.push(c) + b && !a.contains(c),
{
    text::lemma_find(s, c);
    if s.contains(c) {
        let k = text::find(s, c);
        let a = s.subrange(0, k);
        let b = s.subrange(k + 1, s.len() as int);
        assert(s =~= a.push(c) + b);
        assert(!a.contains(c)) by {
            if a.contains(c) {
                let i = choose|i: int| 0 <= i < a.len() && a[i] == c;
                assert(s[i] == c);
            }
        }
    }
}

proof fn lemma_join_first(parts: Seq<Seq<char>>, sep: Seq<char>)
    requires
        parts.len() > 1,
    ensures
        text::join(parts, sep) == parts[0] + sep + text::join(parts.drop_first(), sep),
    decreases parts.len(),
{
    let rest = parts.drop_first();
    if parts.len() == 2 {
        assert(parts.drop_last().len() == 1);
        assert(text::join(parts.drop_last(), sep) == parts[0]);
        assert(text::join(rest, sep) == parts[1]);
        assert(parts.last() == parts[1]);
    } else {
        let front = parts.drop_last();
        lemma_join_first(front, sep);
        assert(front.drop_first() =~= rest.drop_last());
        assert(rest.last() == parts.last());
        let inner = text::join(rest.drop_last(), sep);
        assert(text::join(rest, sep) == inner + sep + parts.last());
        assert(parts[0] + sep + inner + sep + parts.last() =~= parts[0] + sep + (inner + sep
            + parts.last()));
    }
}

/// The pieces between separators hold no separator, and joined by it they are the text again.
pub proof fn law_pieces_make_the_text(s: Seq<char>, c: char)
    ensures
        text::join(text::split(s, c), seq![c]) == s,
        text::split(s, c).len() > 0,
        forall|i: int| 0 <= i < text::split(s, c).len() ==> !(#[trigger] text::split(s, c)[i]).contains(
            c,
        ),
    decreases s.len(),
{
    text::lemma_find(s, c);
    let pieces = text::split(s, c);
    if s.contains(c) {
        let k = text::find(s, c);
        let first = s.subrange(0, k);
        let rest = s.subrange(k + 1, s.len() as int);
        law_pieces_make_the_text(rest, c);
        let more = text::split(rest, c);
        assert(pieces == seq![first] + more);
        assert(pieces.drop_first() =~= more);
        lemma_join_first(pieces, seq![c]);
        assert(s =~= first + seq![c] + rest);
        assert forall|i: int| 0 <= i < pieces.len() implies !(#[trigger] pieces[i]).contains(c) by {
            if i == 0 {
                if first.contains(c) {
                    let j = choose|j: int| 0 <= j < first.len() && first[j] == c;
                    assert(s[j] == c);
                }
            } else {
                assert(pieces[i] == more[i - 1]);
            }
        }
    } else {
        assert(pieces =~= seq![s]);
    }
}

/// A text without white space is one word, and none where it is empty.
pub proof fn law_one_word(s: Seq<char>)
    requires
        forall|i: int| 0 <= i < s.len() ==> !text::is_space(#[trigger] s[i]),
    ensures
        s.len() == 0 ==> text::words(s) == Seq::<Seq<char>>::empty(),
        s.len() > 0 ==> text::words(s) == seq![s],
    decreases s.len(),
{
    if s.len() > 0 {
        let front = s.drop_last();
        law_one_word(front);
        assert(!text::is_space(s[s.len() - 1]));
        if s.len() > 1 {
            assert(!text::is_space(s[s.len() - 2]));
            assert(front.push(s.last()) =~= s);
            assert(text::words(s) =~= seq![s]);
        } else {
            assert(seq![s.last()] =~= s);
            assert(text::words(front) =~= Seq::<Seq<char>>::empty());
            assert(text::words(s) =~= seq![s]);
        }
    }
}

/// White space parts words: the words of a text are those before it and those after it.
pub proof fn law_white_space_parts_words(a: Seq<char>, c: char, b: Seq<char>)
    requires
        text::is_space(c),
    ensures
        text::words(a.push(c) + b) == text::words(a) + text::words(b),
    decreases b.len(),
{
    let s = a.push(c) + b;
    if b.len() == 0 {
        assert(s =~= a.push(c));
        assert(s.drop_last() =~= a);
        assert(text::words(b) =~= Seq::<Seq<char>>::empty());
        assert(text::words(s) =~= text::words(a));
    } else {
        let front = b.drop_last();
        law_white_space_parts_words(a, c, front);
        assert(s.drop_last() =~= a.push(c) + front);
        assert(s.last() == b.last());
        if b.len() == 1 {
            assert(text::words(front) =~= Seq::<Seq<char>>::empty());
            assert(s[s.len() - 2] == c);
        } else {
            assert(s[s.len() - 2] == b[b.len() - 2]);
            if !text::is_space(b.last()) && !text::is_space(b[b.len() - 2]) {
                lemma_last_word(front);
                let one = text::words(a);
                let two = text::words(front);
                assert((one + two).drop_last() =~= one + two.drop_last());
                assert((one + two).last() == two.last());
            }
        }
        assert(text::words(s) =~= text::words(a) + text::words(b));
    }
}

proof fn lemma_last_word(s: Seq<char>)
    requires
        s.len() > 0,
        !text::is_space(s.last()),
    ensures
        text::words(s).len() > 0,
{
}

} // verus!
