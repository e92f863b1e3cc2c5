//! File-system paths as sequences of bytes with `/` between the components.
use vstd::prelude::*;
use vstd::string::*;

use crate::text;

verus! {

/// The separator between path components.
pub const SEPARATOR: u8 = 47;

/// The byte of a full stop.
pub const DOT: u8 = 46;

/// Whether the path starts at the root.
pub open spec fn is_rooted(p: Seq<u8>) -> bool {
    p.len() > 0 && p[0] == SEPARATOR
}

/// Whether a piece between separators is a component: empty pieces never are, and a single dot is
/// one only at the beginning of the path.
pub open spec fn is_component(position: int, piece: Seq<u8>) -> bool {
    piece.len() > 0 && (piece != seq![DOT] || position == 0)
}

/// The components among the pieces.
pub open spec fn kept(pieces: Seq<Seq<u8>>) -> Seq<Seq<u8>>
    decreases pieces.len(),
{
    if pieces.len() == 0 {
        seq![]
    } else if is_component(pieces.len() - 1, pieces.last()) {
        kept(pieces.drop_last()).push(pieces.last())
    } else {
        kept(pieces.drop_last())
    }
}

/// The components of a path below its root.
pub open spec fn components(p: Seq<u8>) -> Seq<Seq<u8>> {
    kept(text::split(p, SEPARATOR))
}

/// Whether two paths have the same root and the same components.
pub open spec fn same_path(a: Seq<u8>, b: Seq<u8>) -> bool {
    is_rooted(a) == is_rooted(b) && components(a) == components(b)
}

/// The path without trailing separators and trailing `.` components.
pub open spec fn body(p: Seq<u8>) -> Seq<u8>
    decreases p.len(),
{
    if p.len() > 1 && p.last() == SEPARATOR {
        body(p.drop_last())
    } else if p.len() > 1 && p.last() == DOT && p[p.len() - 2] == SEPARATOR {
        body(p.drop_last())
    } else {
        p
    }
}

/// One more than the position of the last `c` in `s`, or zero where there is none.
pub open spec fn after_last(s: Seq<u8>, c: u8) -> int
    decreases s.len(),
{
    if s.len() == 0 {
        0
    } else if s.last() == c {
        s.len() as int
    } else {
        after_last(s.drop_last(), c)
    }
}

/// The final component of a path, where it is an ordinary name.
pub open spec fn file_name(p: Seq<u8>) -> Option<Seq<u8>> {
    let b = body(p);
    let name = b.skip(after_last(b, SEPARATOR));
    if name.len() == 0 || name == seq![DOT] || name == seq![DOT, DOT] {
        None
    } else {
        Some(name)
    }
}

/// Where the last dot of a name separates a stem from an extension: one more than its position,
/// or zero where there is no such dot.
pub open spec fn extension_start(name: Seq<u8>) -> int {
    if after_last(name, DOT) <= 1 {
        0
    } else {
        after_last(name, DOT)
    }
}

/// The final component without its extension.
pub open spec fn file_stem(p: Seq<u8>) -> Option<Seq<u8>> {
    match file_name(p) {
        Some(name) => if extension_start(name) == 0 {
            Some(name)
        } else {
            Some(name.take(extension_start(name) - 1))
        },
        None => None,
    }
}

/// The extension of the final component.
pub open spec fn extension(p: Seq<u8>) -> Option<Seq<u8>> {
    match file_name(p) {
        Some(name) => if extension_start(name) == 0 {
            None
        } else {
            Some(name.skip(extension_start(name)))
        },
        None => None,
    }
}

/// The path without its final component, where it has one.
pub open spec fn parent(p: Seq<u8>) -> Option<Seq<u8>> {
    let b = body(p);
    if b.len() == 0 || b == seq![SEPARATOR] {
        None
    } else {
        Some(body(b.take(after_last(b, SEPARATOR))))
    }
}

/// The path `b` seen from the directory `a`.
pub open spec fn join(a: Seq<u8>, b: Seq<u8>) -> Seq<u8> {
    if is_rooted(b) {
        b
    } else if a.len() == 0 || a.last() == SEPARATOR {
        a + b
    } else {
        a.push(SEPARATOR) + b
    }
}

/// Whether a path's extension is `mkv` in any ASCII case.
pub open spec fn is_mkv(p: Seq<u8>) -> bool {
    extension(p) matches Some(e) && e.len() == 3 && (e[0] == 77 || e[0] == 109) && (e[1] == 75
        || e[1] == 107) && (e[2] == 86 || e[2] == 118)
}

/// `after_last` gives the end of the part that finishes with the last `c`.
pub proof fn lemma_after_last(s: Seq<u8>, c: u8)
    ensures
        0 <= after_last(s, c) <= s.len(),
        after_last(s, c) > 0 ==> s[after_last(s, c) - 1] == c,
        forall|i: int| after_last(s, c) <= i < s.len() ==> s[i] != c,
    decreases s.len(),
{
    if s.len() > 0 && s.last() != c {
        let rest = s.drop_last();
        lemma_after_last(rest, c);
        assert forall|i: int| after_last(s, c) <= i < s.len() implies s[i] != c by {
            if i < rest.len() {
                assert(rest[i] != c);
            }
        }
    }
}

/// The body of a path is its beginning.
pub proof fn lemma_body(p: Seq<u8>)
    ensures
        body(p).len() <= p.len(),
        body(p) == p.take(body(p).len() as int),
    decreases p.len(),
{
    if p.len() > 1 && (p.last() == SEPARATOR || (p.last() == DOT && p[p.len() - 2] == SEPARATOR)) {
        lemma_body(p.drop_last());
        assert(p.drop_last().take(body(p).len() as int) == p.take(body(p).len() as int));
    } else {
        assert(p.take(p.len() as int) == p);
    }
}

/// A copy of the bytes between two positions.
pub fn slice_bytes(bytes: &Vec<u8>, from: usize, to: usize) -> (r: Vec<u8>)
    requires
        from <= to <= bytes@.len(),
    ensures
        r@ == bytes@.subrange(from as int, to as int),
{
    let mut out: Vec<u8> = Vec::new();
    let mut i: usize = from;
    while i < to
        invariant
            from <= i <= to <= bytes@.len(),
            out@ == bytes@.subrange(from as int, i as int),
        decreases to - i,
    {
        out.push(bytes[i]);
        i = i + 1;
    }
    out
}

/// Whether two byte strings are equal.
pub fn same_bytes(a: &Vec<u8>, b: &Vec<u8>) -> (r: bool)
    ensures
        r == (a@ == b@),
{
    if a.len() != b.len() {
        return false;
    }
    let mut i: usize = 0;
    while i < a.len()
        invariant
            a@.len() == b@.len(),
            i <= a@.len(),
            forall|j: int| 0 <= j < i ==> a@[j] == b@[j],
        decreases a@.len() - i,
    {
        if a[i] != b[i] {
            return false;
        }
        i = i + 1;
    }
    proof {
        assert(a@ == b@);
    }
    true
}

fn same_lists(a: &Vec<Vec<u8>>, b: &Vec<Vec<u8>>) -> (r: bool)
    ensures
        r == (a.deep_view() == b.deep_view()),
{
    if a.len() != b.len() {
        proof {
            assert(a.deep_view().len() != b.deep_view().len());
        }
        return false;
    }
    let mut i: usize = 0;
    while i < a.len()
        invariant
            a@.len() == b@.len(),
            i <= a@.len(),
            forall|j: int| 0 <= j < i ==> a.deep_view()[j] == b.deep_view()[j],
        decreases a@.len() - i,
    {
        proof {
            assert(a.deep_view()[i as int] == a@[i as int].deep_view());
            assert(b.deep_view()[i as int] == b@[i as int].deep_view());
            assert(a@[i as int].deep_view() == a@[i as int]@);
            assert(b@[i as int].deep_view() == b@[i as int]@);
        }
        if !same_bytes(&a[i], &b[i]) {
            return false;
        }
        i = i + 1;
    }
    proof {
        assert(a.deep_view() == b.deep_view());
    }
    true
}

/// The pieces of the bytes between separators.
fn byte_pieces(bytes: &Vec<u8>, c: u8) -> (r: Vec<Vec<u8>>)
    ensures
        r.deep_view() == text::split(bytes@, c),
{
    let ghost s = bytes@;
    let mut out: Vec<Vec<u8>> = Vec::new();
    let mut from: usize = 0;
    proof {
        assert(s.skip(0) == s);
        assert(out.deep_view() + text::split(s, c) == text::split(s, c));
    }
    loop
        invariant
            from <= s.len(),
            bytes@ == s,
            out.deep_view() + text::split(s.skip(from as int), c) == text::split(s, c),
        decreases s.len() - from,
    {
        let ghost rest = s.skip(from as int);
        let ghost before = out;
        let mut at: usize = from;
        while at < bytes.len() && bytes[at] != c
            invariant
                from <= at <= bytes@.len(),
                bytes@ == s,
                rest == s.skip(from as int),
                forall|j: int| 0 <= j < at - from ==> rest[j] != c,
            decreases bytes@.len() - at,
        {
            assert(rest[at - from] == s[at as int]);
            at = at + 1;
        }
        proof {
            text::lemma_find_unique(rest, c, at - from);
            text::lemma_find(rest, c);
        }
        let piece = slice_bytes(bytes, from, at);
        out.push(piece);
        proof {
            assert(piece.deep_view() == s.subrange(from as int, at as int));
            assert(out.deep_view() == before.deep_view().push(s.subrange(from as int, at as int)));
            assert(rest.subrange(0, at - from) == s.subrange(from as int, at as int));
        }
        if at >= bytes.len() {
            proof {
                assert(rest == s.subrange(from as int, at as int));
                assert(before.deep_view() + seq![rest] == out.deep_view());
            }
            return out;
        }
        proof {
            assert(rest.subrange(at - from + 1, rest.len() as int) == s.skip(at + 1));
            assert(text::split(rest, c) == seq![s.subrange(from as int, at as int)] + text::split(
                s.skip(at + 1),
                c,
            ));
            assert(out.deep_view() + text::split(s.skip(at + 1), c) == before.deep_view()
                + text::split(rest, c));
        }
        from = at + 1;
    }
}

/// One more than the position of the last `c`, or zero where there is none.
fn end_of_last(bytes: &Vec<u8>, to: usize, c: u8) -> (r: usize)
    requires
        to <= bytes@.len(),
    ensures
        r == after_last(bytes@.take(to as int), c),
        r <= to,
{
    let mut i: usize = to;
    while i > 0 && bytes[i - 1] != c
        invariant
            i <= to <= bytes@.len(),
            after_last(bytes@.take(i as int), c) == after_last(bytes@.take(to as int), c),
        decreases i,
    {
        proof {
            assert(bytes@.take(i as int).drop_last() == bytes@.take(i - 1));
        }
        i = i - 1;
    }
    i
}

/// The length of the body of the first `to` bytes.
fn body_len(bytes: &Vec<u8>, to: usize) -> (r: usize)
    requires
        to <= bytes@.len(),
    ensures
        r <= to,
        body(bytes@.take(to as int)) == bytes@.take(r as int),
{
    let mut i: usize = to;
    while i > 1 && (bytes[i - 1] == SEPARATOR || (bytes[i - 1] == DOT && bytes[i - 2] == SEPARATOR))
        invariant
            i <= to <= bytes@.len(),
            body(bytes@.take(to as int)) == body(bytes@.take(i as int)),
        decreases i,
    {
        proof {
            assert(bytes@.take(i as int).drop_last() == bytes@.take(i - 1));
        }
        i = i - 1;
    }
    i
}

/// A file-system path. Two paths are equal where they have the same root and the same components,
/// however they are spelt.
#[derive(Debug, Eq)]
pub struct FilePath {
    bytes: Vec<u8>,
}

impl PartialEq for FilePath {
    fn eq(&self, other: &FilePath) -> (r: bool) {
        self.same(other)
    }
}

impl vstd::std_specs::cmp::PartialEqSpecImpl for FilePath {
    open spec fn obeys_eq_spec() -> bool {
        true
    }

    open spec fn eq_spec(&self, other: &FilePath) -> bool {
        same_path(self@, other@)
    }
}

impl View for FilePath {
    type V = Seq<u8>;

    closed spec fn view(&self) -> Seq<u8> {
        self.bytes@
    }
}

impl DeepView for FilePath {
    type V = Seq<u8>;

    open spec fn deep_view(&self) -> Seq<u8> {
        self@
    }
}

impl Clone for FilePath {
    fn clone(&self) -> (r: Self)
        ensures
            r@ == self@,
    {
        let bytes = slice_bytes(&self.bytes, 0, self.bytes.len());
        proof {
            assert(self.bytes@.subrange(0, self.bytes@.len() as int) == self.bytes@);
        }
        FilePath { bytes }
    }
}

impl FilePath {
    /// The path with the given bytes.
    pub fn from_bytes(bytes: Vec<u8>) -> (r: Self)
        ensures
            r@ == bytes@,
    {
        FilePath { bytes }
    }

    /// The path that a text spells in UTF-8.
    pub fn from_text(value: &str) -> (r: Self)
        ensures
            r@ == vstd::utf8::encode_utf8(value@),
    {
        FilePath { bytes: value.as_bytes_vec() }
    }

    /// The bytes of the path.
    pub fn as_bytes(&self) -> (r: &Vec<u8>)
        ensures
            r@ == self@,
    {
        &self.bytes
    }

    /// The path as text, with a replacement character for each invalid sequence.
    pub fn display(&self) -> (r: String)
        ensures
            r@ == text::lossy(self@),
            vstd::utf8::valid_utf8(self@) ==> r@ == vstd::utf8::decode_utf8(self@),
    {
        text::decode_lossy(&self.bytes)
    }

    /// The components of the path below its root.
    pub fn component_list(&self) -> (r: Vec<Vec<u8>>)
        ensures
            r.deep_view() == components(self@),
    {
        let pieces = byte_pieces(&self.bytes, SEPARATOR);
        let mut out: Vec<Vec<u8>> = Vec::new();
        let mut i: usize = 0;
        while i < pieces.len()
            invariant
                i <= pieces@.len(),
                pieces.deep_view() == text::split(self@, SEPARATOR),
                out.deep_view() == kept(pieces.deep_view().take(i as int)),
            decreases pieces@.len() - i,
        {
            let ghost before = out;
            let piece = &pieces[i];
            let dot = piece.len() == 1 && piece[0] == DOT;
            proof {
                assert(pieces.deep_view()[i as int] == piece.deep_view());
                assert(piece.deep_view() == piece@);
                assert(dot == (piece@ =~= seq![DOT]));
                assert(pieces.deep_view().take(i + 1).drop_last() == pieces.deep_view().take(
                    i as int,
                ));
            }
            if piece.len() > 0 && (!dot || i == 0) {
                let copy = slice_bytes(piece, 0, piece.len());
                proof {
                    assert(copy.deep_view() == copy@);
                    assert(copy@ == piece@);
                }
                out.push(copy);
                proof {
                    assert(out.deep_view() == before.deep_view().push(piece@));
                }
            }
            i = i + 1;
        }
        proof {
            assert(pieces.deep_view().take(i as int) == pieces.deep_view());
        }
        out
    }

    /// Whether the path starts at the root.
    pub fn is_absolute(&self) -> (r: bool)
        ensures
            r == is_rooted(self@),
    {
        self.bytes.len() > 0 && self.bytes[0] == SEPARATOR
    }

    /// Whether two paths have the same root and the same components.
    pub fn same(&self, other: &FilePath) -> (r: bool)
        ensures
            r == same_path(self@, other@),
    {
        if self.is_absolute() != other.is_absolute() {
            return false;
        }
        let a = self.component_list();
        let b = other.component_list();
        same_lists(&a, &b)
    }

    /// The final component, where it is an ordinary name.
    pub fn file_name(&self) -> (r: Option<FilePath>)
        ensures
            r.deep_view() == file_name(self@),
    {
        let end = body_len(&self.bytes, self.bytes.len());
        let from = end_of_last(&self.bytes, end, SEPARATOR);
        let name = slice_bytes(&self.bytes, from, end);
        proof {
            assert(self@.take(self@.len() as int) == self@);
            assert(name@ == body(self@).skip(from as int));
        }
        let one = name.len() == 1 && name[0] == DOT;
        let two = name.len() == 2 && name[0] == DOT && name[1] == DOT;
        proof {
            assert(one == (name@ =~= seq![DOT]));
            assert(two == (name@ =~= seq![DOT, DOT]));
        }
        if name.len() == 0 || one || two {
            None
        } else {
            Some(FilePath { bytes: name })
        }
    }

    /// Where the last dot of this name separates a stem from an extension.
    fn dot_end(&self) -> (r: usize)
        ensures
            r == extension_start(self@),
            r <= self@.len(),
            r != 1,
    {
        let end = end_of_last(&self.bytes, self.bytes.len(), DOT);
        proof {
            assert(self@.take(self@.len() as int) == self@);
        }
        if end <= 1 {
            0
        } else {
            end
        }
    }

    /// The final component without its extension.
    pub fn file_stem(&self) -> (r: Option<FilePath>)
        ensures
            r.deep_view() == file_stem(self@),
    {
        match self.file_name() {
            Some(name) => {
                let end = name.dot_end();
                if end == 0 {
                    Some(name)
                } else {
                    Some(FilePath { bytes: slice_bytes(&name.bytes, 0, end - 1) })
                }
            },
            None => None,
        }
    }

    /// The extension of the final component.
    pub fn extension(&self) -> (r: Option<FilePath>)
        ensures
            r.deep_view() == extension(self@),
    {
        match self.file_name() {
            Some(name) => {
                let end = name.dot_end();
                if end == 0 {
                    None
                } else {
                    let bytes = slice_bytes(&name.bytes, end, name.bytes.len());
                    proof {
                        assert(bytes@ == name@.skip(end as int));
                    }
                    Some(FilePath { bytes })
                }
            },
            None => None,
        }
    }

    /// The path without its final component, where it has one.
    pub fn parent(&self) -> (r: Option<FilePath>)
        ensures
            r.deep_view() == parent(self@),
    {
        let end = body_len(&self.bytes, self.bytes.len());
        proof {
            assert(self@.take(self@.len() as int) == self@);
        }
        let ghost b = body(self@);
        let root = end == 1 && self.bytes[0] == SEPARATOR;
        proof {
            assert(root == (b =~= seq![SEPARATOR]));
        }
        if end == 0 || root {
            None
        } else {
            let from = end_of_last(&self.bytes, end, SEPARATOR);
            proof {
                assert(b.take(from as int) == self@.take(from as int));
            }
            let to = body_len(&self.bytes, from);
            let bytes = slice_bytes(&self.bytes, 0, to);
            Some(FilePath { bytes })
        }
    }

    /// The path `tail` seen from this directory.
    pub fn join(&self, tail: &FilePath) -> (r: FilePath)
        ensures
            r@ == join(self@, tail@),
    {
        if tail.is_absolute() {
            return tail.clone();
        }
        let mut bytes = slice_bytes(&self.bytes, 0, self.bytes.len());
        proof {
            assert(bytes@ == self@);
        }
        if bytes.len() > 0 && bytes[bytes.len() - 1] != SEPARATOR {
            bytes.push(SEPARATOR);
        }
        let mut more = slice_bytes(&tail.bytes, 0, tail.bytes.len());
        proof {
            assert(more@ == tail@);
        }
        bytes.append(&mut more);
        FilePath { bytes }
    }

    /// The path with more bytes at its end.
    pub fn with_suffix(&self, tail: &str) -> (r: FilePath)
        ensures
            r@ == self@ + vstd::utf8::encode_utf8(tail@),
    {
        let mut bytes = slice_bytes(&self.bytes, 0, self.bytes.len());
        proof {
            assert(bytes@ == self@);
        }
        let mut more = tail.as_bytes_vec();
        bytes.append(&mut more);
        FilePath { bytes }
    }

    /// Whether the extension is `mkv` in any ASCII case.
    pub fn is_mkv(&self) -> (r: bool)
        ensures
            r == is_mkv(self@),
    {
        match self.extension() {
            Some(e) => {
                let b = &e.bytes;
                b.len() == 3 && (b[0] == 77 || b[0] == 109) && (b[1] == 75 || b[1] == 107) && (b[2]
                    == 86 || b[2] == 118)
            },
            None => false,
        }
    }
}

/// A copy of a path that need not be there.
pub fn copy_path(value: &Option<FilePath>) -> (r: Option<FilePath>)
    ensures
        r.deep_view() == value.deep_view(),
{
    match value {
        Some(v) => Some(v.clone()),
        None => None,
    }
}

} // verus!
