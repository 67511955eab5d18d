use vstd::prelude::*;
use vstd::string::*;

use crate::text::chars_of;

verus! {

pub open spec fn is_ascii_digit(c: char) -> bool {
    '0' <= c && c <= '9'
}

/// The name of a post's source file: eight ASCII digits, then any characters
/// but a line break, then the extension `.md`.
pub open spec fn is_post_name(s: Seq<char>) -> bool {
    &&& s.len() >= 11
    &&& forall|i: int| 0 <= i < 8 ==> is_ascii_digit(#[trigger] s[i])
    &&& forall|i: int| 8 <= i < s.len() - 3 ==> #[trigger] s[i] != '\n'
    &&& s[s.len() - 3] == '.'
    &&& s[s.len() - 2] == 'm'
    &&& s[s.len() - 1] == 'd'
}

/// The name of a post without its `.md` extension: the date digits and the suffix.
pub open spec fn post_stem(s: Seq<char>) -> Seq<char> {
    s.take(s.len() - 3)
}

/// The eight date digits that a post's name starts with.
pub open spec fn date_digits(s: Seq<char>) -> Seq<char> {
    s.take(8)
}

pub open spec fn html_ext() -> Seq<char> {
    seq!['.', 'h', 't', 'm', 'l']
}

/// The name of the page that a post becomes.
pub open spec fn page_name(s: Seq<char>) -> Seq<char> {
    post_stem(s) + html_ext()
}

/// Whether a file name follows the post convention.
pub fn is_post_file_name(name: &str) -> (r: bool)
    ensures
        r == is_post_name(name@),
{
    let cs = chars_of(name);
    let n = cs.len();
    if n < 11 {
        return false;
    }
    if !(cs[n - 3] == '.' && cs[n - 2] == 'm' && cs[n - 1] == 'd') {
        return false;
    }
    let mut i: usize = 0;
    while i < 8
        invariant
            cs@ == name@,
            n == cs.len(),
            n >= 11,
            i <= 8,
            forall|j: int| 0 <= j < i ==> is_ascii_digit(#[trigger] cs@[j]),
        decreases 8 - i,
    {
        if !('0' <= cs[i] && cs[i] <= '9') {
            return false;
        }
        i = i + 1;
    }
    while i < n - 3
        invariant
            cs@ == name@,
            n == cs.len(),
            n >= 11,
            8 <= i <= n - 3,
            forall|j: int| 0 <= j < 8 ==> is_ascii_digit(#[trigger] cs@[j]),
            forall|j: int| 8 <= j < i ==> #[trigger] cs@[j] != '\n',
        decreases n - 3 - i,
    {
        if cs[i] == '\n' {
            return false;
        }
        i = i + 1;
    }
    true
}

/// The page name of a post's source file, or `None` where the name does not
/// follow the post convention.
pub fn output_file_name(name: &str) -> (r: Option<String>)
    ensures
        r is Some <==> is_post_name(name@),
        r is Some ==> r->0@ == page_name(name@),
{
    if is_post_file_name(name) {
        Some(page_file_name(name))
    } else {
        None
    }
}

/// The page name of a post's source file: its name with `.html` in place of `.md`.
pub fn page_file_name(name: &str) -> (r: String)
    requires
        is_post_name(name@),
    ensures
        r@ == page_name(name@),
{
    let n = name.unicode_len();
    let stem = name.substring_char(0, n - 3);
    let mut page = stem.to_owned();
    page.append(".html");
    proof {
        reveal_strlit(".html");
        assert(".html"@ =~= html_ext());
    }
    page
}

/// Distinct post files become distinct pages.
pub proof fn lemma_page_name_injective(a: Seq<char>, b: Seq<char>)
    requires
        is_post_name(a),
        is_post_name(b),
        page_name(a) == page_name(b),
    ensures
        a == b,
{
    let pa = page_name(a);
    assert(pa.take(pa.len() - 5) =~= post_stem(a));
    assert(page_name(b).take(page_name(b).len() - 5) =~= post_stem(b));
    assert(a =~= post_stem(a) + seq!['.', 'm', 'd']);
    assert(b =~= post_stem(b) + seq!['.', 'm', 'd']);
}

/// No post's page takes the name of the index page.
pub proof fn lemma_page_name_not_index(s: Seq<char>)
    requires
        is_post_name(s),
    ensures
        page_name(s) != seq!['i', 'n', 'd', 'e', 'x', '.', 'h', 't', 'm', 'l'],
{
    assert(page_name(s)[0] == s[0]);
    assert(is_ascii_digit(s[0]));
}

} // verus!
