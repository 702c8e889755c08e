use node_worker::hooks::{is_html_name, with_source_notice, MIN_HTML_HEADER};

#[test]
fn html_names_end_with_the_extension() {
    assert!(is_html_name("index.html"));
    assert!(is_html_name("404.html"));
    assert!(is_html_name(".html"));
    assert!(is_html_name("a.b.html"));
    assert!(is_html_name("página.html"));
}

#[test]
fn other_names_are_not_html() {
    assert!(!is_html_name(""));
    assert!(!is_html_name("html"));
    assert!(!is_html_name("index.htm"));
    assert!(!is_html_name("index.html.j2"));
    assert!(!is_html_name("index.HTML"));
    assert!(!is_html_name("style.css"));
    assert!(!is_html_name("indexhtml"));
    assert!(!is_html_name("x.html "));
}

#[test]
fn names_shorter_than_the_extension() {
    assert!(!is_html_name("a"));
    assert!(!is_html_name("html"));
    assert!(!is_html_name("é"));
}

#[test]
fn notice_goes_in_front() {
    let page = with_source_notice("<p>hi</p>");
    assert_eq!(
        page,
        "<!-- This file is minified, but you can find this site's original source at https://github.com/videogame-hacker/som.codes/ -->\n<p>hi</p>"
    );
    assert!(page.starts_with(MIN_HTML_HEADER));
}

#[test]
fn notice_in_front_of_nothing() {
    assert_eq!(with_source_notice(""), MIN_HTML_HEADER);
}
