use vstd::prelude::*;
use vstd::string::*;

use crate::date::{
    all_ascii_digits, dashed_digits, day_of_digits, is_valid_date, lemma_iso_of_digits,
    month_of_digits, year_of_digits, Date,
};
use crate::order::distinct_filenames;
use crate::post::{date_digits, is_post_name, lemma_page_name_injective, page_file_name, page_name};
use crate::title::{extract_title, title_of};

verus! {

/// One published post.
#[derive(Clone, Debug)]
pub struct Article {
    /// The title of the post's first heading line.
    pub title: String,
    /// The date of the post's name, written `YYYY-MM-DD`.
    pub date: String,
    /// The post's markdown rendered as an HTML fragment.
    pub contents: String,
    /// The name of the post's page.
    pub filename: String,
}

/// Why a post could not become an article.
#[derive(Clone, Copy, Debug, PartialEq, Eq, Structural)]
pub enum PostError {
    /// The date digits of the post's name name no calendar date.
    BadDate,
    /// No line of the post is a heading line.
    MissingTitle,
}

/// The HTML fragment that the markdown renderer makes of a text, with
/// strikethrough and tables enabled.
pub uninterp spec fn markdown_html(text: Seq<char>) -> Seq<char>;

/// Relies on pulldown_cmark's `Parser::new_ext` with the strikethrough and
/// table extensions and `html::push_html`: the HTML depends on the text alone.
#[verifier::external_body]
fn render_markdown(text: &str) -> (r: String)
    ensures
        r@ == markdown_html(text@),
{
    let mut options = pulldown_cmark::Options::empty();
    options.insert(pulldown_cmark::Options::ENABLE_STRIKETHROUGH);
    options.insert(pulldown_cmark::Options::ENABLE_TABLES);
    let parser = pulldown_cmark::Parser::new_ext(text, options);
    let mut html = String::new();
    pulldown_cmark::html::push_html(&mut html, parser);
    html
}

/// Whether the date digits of a post's name name a calendar date.
pub open spec fn has_valid_date(name: Seq<char>) -> bool {
    let d = date_digits(name);
    is_valid_date(year_of_digits(d), month_of_digits(d), day_of_digits(d))
}

impl Article {
    /// What the article made of a post's name and text holds.
    pub open spec fn describes(self, name: Seq<char>, text: Seq<char>) -> bool {
        &&& self.title@ == title_of(text)->0
        &&& self.date@ == dashed_digits(date_digits(name))
        &&& self.contents@ == markdown_html(text)
        &&& self.filename@ == page_name(name)
    }
}

/// The date of a post's name, or `None` where its digits name no date.
pub fn post_date(name: &str) -> (r: Option<Date>)
    requires
        is_post_name(name@),
    ensures
        r is Some <==> has_valid_date(name@),
        r is Some ==> r->0.wf() && r->0.year == year_of_digits(date_digits(name@)) && r->0.month
            == month_of_digits(date_digits(name@)) && r->0.day == day_of_digits(
            date_digits(name@),
        ),
{
    let digits = name.substring_char(0, 8);
    assert(digits@ =~= date_digits(name@));
    Date::from_digits(digits)
}

/// The article that a post becomes, from its file name and its markdown text.
pub fn make_article(name: &str, text: &str) -> (r: Result<Article, PostError>)
    requires
        is_post_name(name@),
    ensures
        r == Err::<Article, PostError>(PostError::BadDate) <==> !has_valid_date(name@),
        r == Err::<Article, PostError>(PostError::MissingTitle) <==> has_valid_date(name@)
            && title_of(text@) is None,
        r is Ok <==> has_valid_date(name@) && title_of(text@) is Some,
        r is Ok ==> r->Ok_0.describes(name@, text@),
{
    let date = match post_date(name) {
        Some(d) => d,
        None => return Err(PostError::BadDate),
    };
    let title = match extract_title(text) {
        Some(t) => t,
        None => return Err(PostError::MissingTitle),
    };
    proof {
        let d = date_digits(name@);
        assert(all_ascii_digits(d));
        assert(date.year <= 9999) by (nonlinear_arith)
            requires
                date.year == year_of_digits(d),
                0 <= crate::date::digit_value(d[0]) <= 9,
                0 <= crate::date::digit_value(d[1]) <= 9,
                0 <= crate::date::digit_value(d[2]) <= 9,
                0 <= crate::date::digit_value(d[3]) <= 9,
        ;
        lemma_iso_of_digits(d);
    }
    let iso = date.iso();
    let contents = render_markdown(text);
    let filename = page_file_name(name);
    Ok(Article { title, date: iso, contents, filename })
}

/// Articles made of posts with distinct names have distinct page names.
pub proof fn lemma_distinct_posts_distinct_pages(
    articles: Seq<Article>,
    names: Seq<Seq<char>>,
    texts: Seq<Seq<char>>,
)
    requires
        articles.len() == names.len(),
        articles.len() == texts.len(),
        forall|i: int| 0 <= i < names.len() ==> is_post_name(#[trigger] names[i]),
        forall|i: int| 0 <= i < articles.len() ==> #[trigger] articles[i].describes(names[i], texts[i]),
        forall|i: int, j: int| 0 <= i < j < names.len() ==> #[trigger] names[i] != #[trigger] names[j],
    ensures
        distinct_filenames(articles),
{
    assert forall|i: int, j: int| 0 <= i < articles.len() && 0 <= j < articles.len() && i != j implies #[trigger] articles[i].filename@ != #[trigger] articles[j].filename@ by {
        assert(articles[i].describes(names[i], texts[i]));
        assert(articles[j].describes(names[j], texts[j]));
        if articles[i].filename@ == articles[j].filename@ {
            lemma_page_name_injective(names[i], names[j]);
            if i < j {
                assert(names[i] != names[j]);
            } else {
                assert(names[j] != names[i]);
            }
        }
    }
}

} // verus!
