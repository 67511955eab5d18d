use vstd::prelude::*;
use vstd::string::*;

use crate::text::chars_of;

verus! {

/// A whitespace character of Unicode other than the line feed, which ends a line.
pub open spec fn is_blank(c: char) -> bool {
    ||| '\u{9}' <= c <= '\u{D}' && c != '\n'
    ||| c == '\u{20}'
    ||| c == '\u{85}'
    ||| c == '\u{A0}'
    ||| c == '\u{1680}'
    ||| '\u{2000}' <= c <= '\u{200A}'
    ||| c == '\u{2028}'
    ||| c == '\u{2029}'
    ||| c == '\u{202F}'
    ||| c == '\u{205F}'
    ||| c == '\u{3000}'
}

/// Whether `c` is whitespace within a line.
pub fn is_blank_char(c: char) -> (r: bool)
    ensures
        r == is_blank(c),
{
    ('\u{9}' <= c && c <= '\u{D}' && c != '\n') || c == '\u{20}' || c == '\u{85}' || c == '\u{A0}'
        || c == '\u{1680}' || ('\u{2000}' <= c && c <= '\u{200A}') || c == '\u{2028}' || c
        == '\u{2029}' || c == '\u{202F}' || c == '\u{205F}' || c == '\u{3000}'
}

/// The number of characters before the first line break, or all of them.
pub open spec fn line_len(s: Seq<char>) -> int
    decreases s.len(),
{
    if s.len() == 0 || s[0] == '\n' {
        0
    } else {
        1 + line_len(s.drop_first())
    }
}

/// A line without the blanks that it starts with.
pub open spec fn skip_blanks(s: Seq<char>) -> Seq<char>
    decreases s.len(),
{
    if s.len() > 0 && is_blank(s[0]) {
        skip_blanks(s.drop_first())
    } else {
        s
    }
}

/// The title that a heading line gives: the line is `#`, one or more
/// whitespace characters, then the title, which may be empty.
pub open spec fn heading_title(line: Seq<char>) -> Option<Seq<char>> {
    if line.len() >= 2 && line[0] == '#' && is_blank(line[1]) {
        Some(skip_blanks(line.drop_first()))
    } else {
        None
    }
}

/// The title of a post: that of its first heading line, if any line is one.
pub open spec fn title_of(s: Seq<char>) -> Option<Seq<char>>
    decreases s.len(),
{
    let n = line_len(s);
    if heading_title(s.take(n)) is Some {
        heading_title(s.take(n))
    } else if 0 <= n < s.len() {
        title_of(s.skip(n + 1))
    } else {
        None
    }
}

proof fn lemma_line_len_bounds(s: Seq<char>)
    ensures
        0 <= line_len(s) <= s.len(),
        line_len(s) < s.len() ==> s[line_len(s)] == '\n',
        forall|i: int| 0 <= i < line_len(s) ==> s[i] != '\n',
    decreases s.len(),
{
    if s.len() > 0 && s[0] != '\n' {
        lemma_line_len_bounds(s.drop_first());
        assert forall|i: int| 0 <= i < line_len(s) implies s[i] != '\n' by {
            if i > 0 {
                assert(s[i] == s.drop_first()[i - 1]);
            }
        }
    }
}

proof fn lemma_line_len_is(s: Seq<char>, e: int)
    requires
        0 <= e <= s.len(),
        e < s.len() ==> s[e] == '\n',
        forall|i: int| 0 <= i < e ==> s[i] != '\n',
    ensures
        line_len(s) == e,
    decreases s.len(),
{
    if e > 0 {
        lemma_line_len_is(s.drop_first(), e - 1);
    }
}

/// The title of a post's markdown text: the rest of its first line that is
/// `#`, one or more whitespace characters, and the title, which may be empty.
pub fn extract_title(text: &str) -> (r: Option<String>)
    ensures
        r is Some <==> title_of(text@) is Some,
        r is Some ==> r->0@ == title_of(text@)->0,
{
    let cs = chars_of(text);
    let n = cs.len();
    let mut pos: usize = 0;
    assert(cs@.skip(0) =~= text@);
    while pos <= n
        invariant
            cs@ == text@,
            n == cs.len(),
            pos <= n + 1,
            pos <= n ==> title_of(cs@.skip(pos as int)) == title_of(text@),
            pos > n ==> title_of(text@) is None,
        decreases n + 1 - pos,
    {
        let ghost rest = cs@.skip(pos as int);
        let mut e: usize = pos;
        while e < n && cs[e] != '\n'
            invariant
                cs@ == text@,
                n == cs.len(),
                pos <= e <= n,
                forall|i: int| pos <= i < e ==> cs@[i] != '\n',
            decreases n - e,
        {
            e = e + 1;
        }
        proof {
            assert forall|i: int| 0 <= i < e - pos implies rest[i] != '\n' by {
                assert(rest[i] == cs@[pos + i]);
            }
            lemma_line_len_is(rest, e - pos);
        }
        let ghost line = rest.take(e - pos);
        assert(line =~= cs@.subrange(pos as int, e as int));
        if e - pos >= 2 && cs[pos] == '#' && is_blank_char(cs[pos + 1]) {
            let mut k: usize = pos + 1;
            assert(line.drop_first() =~= cs@.subrange(pos + 1, e as int));
            while k < e && is_blank_char(cs[k])
                invariant
                    cs@ == text@,
                    n == cs.len(),
                    pos + 1 <= k <= e,
                    e <= n,
                    line =~= cs@.subrange(pos as int, e as int),
                    skip_blanks(line.drop_first()) == skip_blanks(cs@.subrange(k as int, e as int)),
                decreases e - k,
            {
                assert(cs@.subrange(k as int, e as int).drop_first() =~= cs@.subrange(
                    k + 1,
                    e as int,
                ));
                k = k + 1;
            }
            let t = text.substring_char(k, e);
            return Some(t.to_owned());
        }
        if e == n {
            assert(rest.take(e - pos) =~= rest.take(line_len(rest)));
            return None;
        }
        assert(rest.skip(e - pos + 1) =~= cs@.skip(e + 1));
        assert(rest.take(e - pos) =~= rest.take(line_len(rest)));
        pos = e + 1;
    }
    None
}

} // verus!
