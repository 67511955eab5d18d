use blogsite::article::{make_article, Article};
use blogsite::order::sort_articles;
use blogsite::text::str_lt;

fn art(filename: &str, title: &str) -> Article {
    Article {
        title: title.to_string(),
        date: String::new(),
        contents: String::new(),
        filename: filename.to_string(),
    }
}

fn names(v: &Vec<Article>) -> Vec<String> {
    v.iter().map(|a| a.filename.clone()).collect()
}

#[test]
fn index_lists_older_post_first() {
    let mut v = vec![
        make_article("20230102-b.md", "# B").unwrap(),
        make_article("20230101-a.md", "# A").unwrap(),
    ];
    sort_articles(&mut v);
    assert_eq!(names(&v), vec!["20230101-a.html", "20230102-b.html"]);
}

#[test]
fn same_date_orders_by_suffix() {
    let mut v = vec![art("20230101-c.html", ""), art("20230101-a.html", ""), art("20221231-z.html", ""), art("20230101-b.html", "")];
    sort_articles(&mut v);
    assert_eq!(names(&v), vec!["20221231-z.html", "20230101-a.html", "20230101-b.html", "20230101-c.html"]);
}

#[test]
fn sort_is_stable() {
    let mut v = vec![art("b", "1"), art("a", "2"), art("b", "3"), art("a", "4"), art("b", "5")];
    sort_articles(&mut v);
    let got: Vec<(String, String)> = v.iter().map(|a| (a.filename.clone(), a.title.clone())).collect();
    let want: Vec<(String, String)> = vec![("a", "2"), ("a", "4"), ("b", "1"), ("b", "3"), ("b", "5")]
        .into_iter()
        .map(|(f, t)| (f.to_string(), t.to_string()))
        .collect();
    assert_eq!(got, want);
}

#[test]
fn listing_order_does_not_matter() {
    let mut v1 = vec![art("20230103-c.html", "c"), art("20230101-a.html", "a"), art("20230102-b.html", "b")];
    let mut v2 = vec![art("20230102-b.html", "b"), art("20230103-c.html", "c"), art("20230101-a.html", "a")];
    sort_articles(&mut v1);
    sort_articles(&mut v2);
    assert_eq!(names(&v1), names(&v2));
    let t1: Vec<String> = v1.iter().map(|a| a.title.clone()).collect();
    let t2: Vec<String> = v2.iter().map(|a| a.title.clone()).collect();
    assert_eq!(t1, t2);
}

#[test]
fn sort_empty_and_single() {
    let mut v: Vec<Article> = Vec::new();
    sort_articles(&mut v);
    assert!(v.is_empty());
    let mut w = vec![art("x", "")];
    sort_articles(&mut w);
    assert_eq!(names(&w), vec!["x"]);
}

#[test]
fn lexicographic_comparison() {
    assert!(str_lt("a", "b"));
    assert!(str_lt("a", "ab"));
    assert!(!str_lt("ab", "a"));
    assert!(!str_lt("a", "a"));
    assert!(str_lt("", "a"));
    assert!(!str_lt("", ""));
    assert!(str_lt("Z", "a"));
    assert!(str_lt("z", "é"));
    assert!(str_lt("20230101-a.html", "20230102-b.html"));
}
