use blogsite::article::Article;

#[test]
fn article_page_escapes_all_but_contents() {
    let a = Article {
        title: "Tom & \"Jerry\" <3".to_string(),
        date: "2023-01-01".to_string(),
        contents: "<p>a &amp; b</p>\n".to_string(),
        filename: "20230101-x=y'`.html".to_string(),
    };
    let p = a.for_article_page();
    assert_eq!(p.title, "Tom &amp; &quot;Jerry&quot; &lt;3");
    assert_eq!(p.date, "2023-01-01");
    assert_eq!(p.contents, "<p>a &amp; b</p>\n");
    assert_eq!(p.filename, "20230101-x&#x3D;y&#x27;&#x60;.html");
}
