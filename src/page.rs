use vstd::prelude::*;

use crate::article::Article;

verus! {

/// What HTML escaping writes for one character.
pub open spec fn escaped_char(c: char) -> Seq<char> {
    if c == '<' {
        seq!['&', 'l', 't', ';']
    } else if c == '>' {
        seq!['&', 'g', 't', ';']
    } else if c == '"' {
        seq!['&', 'q', 'u', 'o', 't', ';']
    } else if c == '&' {
        seq!['&', 'a', 'm', 'p', ';']
    } else if c == '\'' {
        seq!['&', '#', 'x', '2', '7', ';']
    } else if c == '`' {
        seq!['&', '#', 'x', '6', '0', ';']
    } else if c == '=' {
        seq!['&', '#', 'x', '3', 'D', ';']
    } else {
        seq![c]
    }
}

/// A text with each character replaced by what HTML escaping writes for it.
pub open spec fn html_escaped(s: Seq<char>) -> Seq<char>
    decreases s.len(),
{
    if s.len() == 0 {
        Seq::empty()
    } else {
        html_escaped(s.drop_last()) + escaped_char(s.last())
    }
}

/// Relies on handlebars' `html_escape`: it writes each character of the text
/// in turn, replacing `<`, `>`, `"`, `&`, `'`, `` ` `` and `=` by their entities.
#[verifier::external_body]
fn escape_html(s: &str) -> (r: String)
    ensures
        r@ == html_escaped(s@),
{
    handlebars::html_escape(s)
}

impl Article {
    /// The article as its own page shows it: the rendered markdown passes
    /// through as markup, and the other fields are HTML-escaped.
    pub fn for_article_page(&self) -> (r: Article)
        ensures
            r.title@ == html_escaped(self.title@),
            r.date@ == html_escaped(self.date@),
            r.contents@ == self.contents@,
            r.filename@ == html_escaped(self.filename@),
    {
        Article {
            title: escape_html(self.title.as_str()),
            date: escape_html(self.date.as_str()),
            contents: self.contents.clone(),
            filename: escape_html(self.filename.as_str()),
        }
    }
}

} // verus!
