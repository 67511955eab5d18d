use blogsite::article::{make_article, post_date, Article, PostError};
use blogsite::date::Date;
use blogsite::post::{is_post_file_name, output_file_name};
use blogsite::title::extract_title;

#[test]
fn hello_post_becomes_article() {
    let text = "# Hello World\n\nBody *text*.";
    let a = make_article("20230101-hello.md", text).unwrap();
    assert_eq!(a.title, "Hello World");
    assert_eq!(a.date, "2023-01-01");
    assert_eq!(a.filename, "20230101-hello.html");
    assert!(a.contents.contains("<p>Body <em>text</em>.</p>\n"));
    assert!(a.contents.contains("<h1>Hello World</h1>"));
}

#[test]
fn name_without_date_is_ignored() {
    assert!(!is_post_file_name("notes.md"));
    assert_eq!(output_file_name("notes.md"), None);
}

#[test]
fn page_name_is_stem_with_html() {
    assert_eq!(output_file_name("20230101-a.md"), Some("20230101-a.html".to_string()));
    assert_eq!(output_file_name("20230101.md"), Some("20230101.html".to_string()));
    assert_eq!(output_file_name("20230101 café.md"), Some("20230101 café.html".to_string()));
}

#[test]
fn names_off_the_convention() {
    assert!(!is_post_file_name("2023010-a.md"));
    assert!(!is_post_file_name("20230101-a.markdown"));
    assert!(!is_post_file_name("20230101-a.md.bak"));
    assert!(!is_post_file_name("2023o101-a.md"));
    assert!(!is_post_file_name("20230101-a\nb.md"));
    assert!(!is_post_file_name(""));
    assert!(is_post_file_name("20230101-a.md"));
    assert!(is_post_file_name("99999999.md"));
}

#[test]
fn missing_title_is_an_error() {
    let r = make_article("20230101-x.md", "no heading here\n## second level\n#NoSpace\n");
    assert_eq!(r.err(), Some(PostError::MissingTitle));
}

#[test]
fn impossible_date_is_an_error() {
    assert_eq!(make_article("20231301-x.md", "# T").err(), Some(PostError::BadDate));
    assert_eq!(make_article("20230229-x.md", "# T").err(), Some(PostError::BadDate));
    assert_eq!(make_article("20230100-x.md", "# T").err(), Some(PostError::BadDate));
    assert_eq!(make_article("20230431-x.md", "# T").err(), Some(PostError::BadDate));
    assert_eq!(make_article("19000229-x.md", "# T").err(), Some(PostError::BadDate));
}

#[test]
fn date_is_checked_before_title() {
    assert_eq!(make_article("20231301-x.md", "no heading").err(), Some(PostError::BadDate));
}

#[test]
fn leap_days() {
    let a = make_article("20240229-leap.md", "# Leap").unwrap();
    assert_eq!(a.date, "2024-02-29");
    let b = make_article("20000229-leap.md", "# Leap").unwrap();
    assert_eq!(b.date, "2000-02-29");
}

#[test]
fn post_date_reads_digits() {
    assert_eq!(post_date("20230415-x.md"), Some(Date { year: 2023, month: 4, day: 15 }));
    assert_eq!(post_date("00010101.md"), Some(Date { year: 1, month: 1, day: 1 }));
    assert_eq!(post_date("20230230.md"), None);
}

#[test]
fn iso_date_is_zero_padded() {
    let d = Date::from_digits("00050709").unwrap();
    assert_eq!(d.iso(), "0005-07-09");
    assert_eq!(Date::from_digits("19991231").unwrap().iso(), "1999-12-31");
}

#[test]
fn title_is_first_heading_line() {
    assert_eq!(extract_title("intro\n# First\n# Second"), Some("First".to_string()));
    assert_eq!(extract_title("#   Spaced out"), Some("Spaced out".to_string()));
    assert_eq!(extract_title("#\tTabbed"), Some("Tabbed".to_string()));
    assert_eq!(extract_title("# \n# Real"), Some(String::new()));
    assert_eq!(extract_title("# "), Some(String::new()));
    assert_eq!(extract_title("text # not a heading\n# Yes # hash"), Some("Yes # hash".to_string()));
    assert_eq!(extract_title("## Sub\n#Tight"), None);
    assert_eq!(extract_title(""), None);
    assert_eq!(extract_title("# Ünïcode title"), Some("Ünïcode title".to_string()));
}

#[test]
fn strikethrough_and_tables_render() {
    let text = "# T\n\n~~gone~~\n\n| a | b |\n|---|---|\n| 1 | 2 |\n";
    let a = make_article("20230101-x.md", text).unwrap();
    assert!(a.contents.contains("<del>gone</del>"));
    assert!(a.contents.contains("<table>"));
    assert!(a.contents.contains("<td>1</td>"));
}

#[test]
fn raw_html_passes_through() {
    let a = make_article("20230101-x.md", "# T\n\n<div class=\"x\">hi</div>\n").unwrap();
    assert!(a.contents.contains("<div class=\"x\">hi</div>"));
}

#[test]
fn article_fields_are_plain() {
    let a = Article {
        title: "t".to_string(),
        date: "2023-01-01".to_string(),
        contents: String::new(),
        filename: "20230101.html".to_string(),
    };
    let b = a.clone();
    assert_eq!(b.filename, a.filename);
}

#[test]
fn title_gap_is_any_whitespace() {
    assert_eq!(extract_title("#\u{A0}T"), Some("T".to_string()));
    assert_eq!(extract_title("#\u{3000}Wide"), Some("Wide".to_string()));
    assert_eq!(extract_title("#\u{C}Feed"), Some("Feed".to_string()));
    assert_eq!(extract_title("#\u{2003} \tMixed"), Some("Mixed".to_string()));
    assert_eq!(extract_title("#\r\n# Next"), Some(String::new()));
    assert_eq!(extract_title("#\nT"), None);
    let e = make_article("20230101-blank.md", "intro\n#  \nbody").unwrap();
    assert_eq!(e.title, "");
    let a = make_article("20230101-nbsp.md", "#\u{A0}T\n\nbody").unwrap();
    assert_eq!(a.title, "T");
}
