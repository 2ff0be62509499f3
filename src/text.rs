//! Line splitting, line joining and UTF-8 offsets over character sequences.

use vstd::prelude::*;
use vstd::utf8::*;

verus! {

broadcast use vstd::seq::group_seq_axioms;

/// Drops one trailing carriage return.
pub open spec fn strip_cr(s: Seq<char>) -> Seq<char> {
    if s.len() > 0 && s.last() == '\r' {
        s.drop_last()
    } else {
        s
    }
}

/// The lines of `s[start..]`, where the current line began at `start` and the
/// scan has reached `i`.
pub open spec fn lines_from(s: Seq<char>, start: int, i: int) -> Seq<Seq<char>>
    decreases s.len() - i,
{
    if i >= s.len() {
        if start >= s.len() {
            seq![]
        } else {
            seq![strip_cr(s.subrange(start, s.len() as int))]
        }
    } else if s[i] == '\n' {
        seq![strip_cr(s.subrange(start, i))] + lines_from(s, i + 1, i + 1)
    } else {
        lines_from(s, start, i + 1)
    }
}

/// The lines of `s` as `str::lines` gives them: split at `\n`, one trailing
/// `\r` dropped from each, no empty last line after a final `\n`.
pub open spec fn lines_of(s: Seq<char>) -> Seq<Seq<char>> {
    lines_from(s, 0, 0)
}

/// Each line followed by `\n`, all concatenated.
pub open spec fn join_lines(ls: Seq<Seq<char>>) -> Seq<char>
    decreases ls.len(),
{
    if ls.len() == 0 {
        seq![]
    } else {
        join_lines(ls.drop_last()) + ls.last() + seq!['\n']
    }
}

/// The views of a vector of strings.
pub open spec fn views(v: Seq<String>) -> Seq<Seq<char>> {
    v.map_values(|s: String| s@)
}

/// The number of bytes of the UTF-8 encoding of `s`.
pub open spec fn utf8_len(s: Seq<char>) -> nat {
    encode_utf8(s).len()
}

/// `c` is the character index at which the UTF-8 encoding of `s` reaches byte `b`.
pub open spec fn is_char_offset(s: Seq<char>, b: int, c: int) -> bool {
    0 <= c <= s.len() && utf8_len(s.take(c)) == b
}

/// The character index that corresponds to byte offset `b`, if `b` falls on a
/// character boundary of the encoding of `s`.
pub open spec fn char_offset(s: Seq<char>, b: int) -> Option<int> {
    if exists|c: int| is_char_offset(s, b, c) {
        Some(choose|c: int| is_char_offset(s, b, c))
    } else {
        None
    }
}

pub proof fn lemma_encode_utf8_append(a: Seq<char>, b: Seq<char>)
    ensures
        encode_utf8(a + b) == encode_utf8(a) + encode_utf8(b),
    decreases a.len(),
{
    if a.len() == 0 {
        assert(a + b =~= b);
        assert(encode_utf8(a) =~= seq![]);
        assert(encode_utf8(a) + encode_utf8(b) =~= encode_utf8(b));
    } else {
        assert((a + b).drop_first() =~= a.drop_first() + b);
        lemma_encode_utf8_append(a.drop_first(), b);
        assert(encode_utf8(a + b) =~= encode_scalar(a[0] as u32) + encode_utf8(a.drop_first() + b));
    }
}

/// The encoded length of a prefix grows by the width of the next character.
pub proof fn lemma_utf8_len_take_next(s: Seq<char>, i: int)
    requires
        0 <= i < s.len(),
    ensures
        utf8_len(s.take(i + 1)) == utf8_len(s.take(i)) + encode_scalar(s[i] as u32).len(),
        encode_scalar(s[i] as u32).len() >= 1,
{
    assert(s.take(i + 1) =~= s.take(i) + seq![s[i]]);
    lemma_encode_utf8_append(s.take(i), seq![s[i]]);
    assert(seq![s[i]].drop_first() =~= Seq::<char>::empty());
    assert(encode_utf8(seq![s[i]]) =~= encode_scalar(s[i] as u32) + encode_utf8(Seq::<char>::empty()));
}

/// Longer prefixes have longer encodings.
pub proof fn lemma_utf8_len_take_mono(s: Seq<char>, i: int, j: int)
    requires
        0 <= i < j <= s.len(),
    ensures
        utf8_len(s.take(i)) < utf8_len(s.take(j)),
    decreases j - i,
{
    lemma_utf8_len_take_next(s, j - 1);
    if i < j - 1 {
        lemma_utf8_len_take_mono(s, i, j - 1);
    }
}

/// The number of bytes that `c` takes in UTF-8.
fn char_width(c: char) -> (w: usize)
    ensures
        w == encode_scalar(c as u32).len(),
{
    proof {
        char_is_scalar(c);
    }
    let v = c as u32;
    if v <= 0x7F {
        1
    } else if v <= 0x7FF {
        2
    } else if v <= 0xFFFF {
        3
    } else {
        4
    }
}

/// Finds the character index of `s` at which its UTF-8 encoding reaches byte
/// `b`, if `b` is a character boundary.
pub fn char_offset_of(s: &str, b: usize) -> (r: Option<usize>)
    ensures
        r matches Some(c) ==> char_offset(s@, b as int) == Some(c as int),
        r is None ==> char_offset(s@, b as int) is None,
{
    let n = s.unicode_len();
    let mut i: usize = 0;
    let mut acc: usize = 0;
    assert(s@.take(0) =~= Seq::<char>::empty());
    while i < n && acc < b
        invariant
            n == s@.len(),
            i <= n,
            acc == utf8_len(s@.take(i as int)),
            acc <= b,
            forall|j: int| 0 <= j < i ==> utf8_len(s@.take(j)) < b,
        decreases n - i,
    {
        let c = s.get_char(i);
        let w = char_width(c);
        proof {
            lemma_utf8_len_take_next(s@, i as int);
            assert forall|j: int| 0 <= j < i + 1 implies utf8_len(s@.take(j)) < b by {
                if j == i {
                }
            }
        }
        if w > b - acc {
            proof {
                assert forall|c2: int| !is_char_offset(s@, b as int, c2) by {
                    if 0 <= c2 <= s@.len() {
                        if c2 <= i {
                        } else {
                            if c2 > i + 1 {
                                lemma_utf8_len_take_mono(s@, i + 1, c2);
                            }
                        }
                    }
                }
            }
            return None;
        }
        acc = acc + w;
        i = i + 1;
    }
    if acc == b {
        proof {
            assert(is_char_offset(s@, b as int, i as int));
            let c2 = choose|c2: int| is_char_offset(s@, b as int, c2);
            if c2 < i {
                lemma_utf8_len_take_mono(s@, c2, i as int);
            } else if c2 > i {
                lemma_utf8_len_take_mono(s@, i as int, c2);
            }
        }
        Some(i)
    } else {
        proof {
            assert forall|c2: int| !is_char_offset(s@, b as int, c2) by {
                if 0 <= c2 <= s@.len() && c2 > i {
                    lemma_utf8_len_take_mono(s@, i as int, c2);
                }
            }
        }
        None
    }
}

/// The string with one trailing carriage return dropped.
fn strip_cr_str(s: &str) -> (r: String)
    ensures
        r@ == strip_cr(s@),
{
    let n = s.unicode_len();
    if n > 0 && s.get_char(n - 1) == '\r' {
        s.substring_char(0, n - 1).to_owned()
    } else {
        s.to_owned()
    }
}

/// Splits `s` into lines as `str::lines` does.
pub fn split_lines(s: &str) -> (r: Vec<String>)
    ensures
        views(r@) == lines_of(s@),
{
    let n = s.unicode_len();
    let mut out: Vec<String> = Vec::new();
    let mut start: usize = 0;
    let mut i: usize = 0;
    while i < n
        invariant
            n == s@.len(),
            start <= i <= n,
            views(out@) + lines_from(s@, start as int, i as int) == lines_of(s@),
        decreases n - i,
    {
        if s.get_char(i) == '\n' {
            let line = strip_cr_str(s.substring_char(start, i));
            proof {
                assert(views(out@.push(line)) =~= views(out@).push(line@));
                assert(lines_from(s@, start as int, i as int) == seq![line@] + lines_from(
                    s@,
                    i + 1,
                    i + 1,
                ));
                assert(views(out@) + lines_from(s@, start as int, i as int) =~= views(
                    out@.push(line),
                ) + lines_from(s@, i + 1, i + 1));
            }
            out.push(line);
            start = i + 1;
        }
        i = i + 1;
    }
    if start < n {
        let line = strip_cr_str(s.substring_char(start, n));
        proof {
            assert(views(out@.push(line)) =~= views(out@).push(line@));
            assert(views(out@) + seq![line@] =~= views(out@.push(line)));
        }
        out.push(line);
    } else {
        assert(views(out@) + Seq::<Seq<char>>::empty() =~= views(out@));
    }
    out
}

/// The view of an optional string.
pub open spec fn opt_view(o: Option<String>) -> Option<Seq<char>> {
    match o {
        Some(s) => Some(s@),
        None => None,
    }
}

/// The views of a vector of optional strings.
pub open spec fn opt_views(v: Seq<Option<String>>) -> Seq<Option<Seq<char>>> {
    v.map_values(|o: Option<String>| opt_view(o))
}

/// The view of an optional string slice.
pub open spec fn opt_str(o: Option<&str>) -> Option<Seq<char>> {
    match o {
        Some(s) => Some(s@),
        None => None,
    }
}

/// Whether two strings hold the same characters.
pub fn str_eq(a: &str, b: &str) -> (r: bool)
    ensures
        r == (a@ == b@),
{
    let n = a.unicode_len();
    if n != b.unicode_len() {
        return false;
    }
    let mut i: usize = 0;
    while i < n
        invariant
            n == a@.len(),
            n == b@.len(),
            i <= n,
            forall|j: int| 0 <= j < i ==> a@[j] == b@[j],
        decreases n - i,
    {
        if a.get_char(i) != b.get_char(i) {
            return false;
        }
        i = i + 1;
    }
    assert(a@ =~= b@);
    true
}

/// Appends `line` and a line feed to `out`.
pub fn push_line(out: &mut String, line: &str)
    ensures
        final(out)@ == old(out)@ + line@ + seq!['\n'],
{
    out.append(line);
    let nl = "\n";
    proof {
        reveal_strlit("\n");
    }
    out.append(nl);
}

} // verus!
