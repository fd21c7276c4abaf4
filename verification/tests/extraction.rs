use rust_web_scrapper::error::AppError;
use rust_web_scrapper::scraper::{
    build_prompt, clean_html_content, extract, extract_body, format_html, strip_markup,
    strip_noise, RegionNode, MAX_MARKUP_BYTES,
};

#[test]
fn body_of_a_plain_page_is_found() {
    let body = extract_body("<html><head><title>t</title></head><body><p>Hello</p></body></html>");
    assert_eq!(body, Some("<p>Hello</p>".to_string()));
}

#[test]
fn frameset_page_has_no_body() {
    let html = "<html><head></head><frameset><frame src=\"a.html\"></frameset></html>";
    assert_eq!(extract_body(html), None);
    match extract(html) {
        Err(AppError::ParseError(message)) => assert_eq!(message, "no body tag found"),
        _ => panic!("a page without a body must be a parse error"),
    }
}

#[test]
fn main_wins_over_section() {
    let html = "<section>from the section</section><main>from main</main>";
    assert_eq!(format_html(html), "from main");
}

#[test]
fn article_wins_over_content_class() {
    let html = "<div class=\"content\">from the class</div><article>from the article</article>";
    assert_eq!(format_html(html), "from the article");
}

#[test]
fn body_is_the_fallback() {
    assert_eq!(format_html("<div><p>just</p><p>a page</p></div>"), "just a page");
}

#[test]
fn script_inside_main_is_cut_out() {
    let html = "<main><p>kept</p><script>var dropped = 1;</script><p>also kept</p></main>";
    let text = format_html(html);
    assert_eq!(text, "kept also kept");
    assert!(!text.contains("dropped"));
}

#[test]
fn banner_class_is_noise() {
    let html = "<article><div class=\"cookie-banner\">accept cookies</div><p>news</p></article>";
    assert_eq!(format_html(html), "news");
}

#[test]
fn tags_become_spaces() {
    assert_eq!(strip_markup("a<b>c</b>d"), "a c d");
    assert_eq!(clean_html_content("one<br>two"), "one two");
}

#[test]
fn entities_become_spaces() {
    assert_eq!(strip_markup("fish&amp;chips"), "fish chips");
    assert_eq!(clean_html_content("fish&nbsp;&amp;&nbsp;chips"), "fish chips");
}

#[test]
fn whitespace_is_collapsed_and_trimmed() {
    assert_eq!(clean_html_content("  a \n\t b  "), "a b");
    assert_eq!(clean_html_content("<p> x </p>"), "x");
    assert_eq!(clean_html_content(""), "");
    assert_eq!(clean_html_content(" \n "), "");
}

#[test]
fn semicolon_outside_an_entity_is_kept() {
    assert_eq!(clean_html_content("a; b"), "a; b");
}

fn element(depth: usize, noise: bool) -> RegionNode {
    RegionNode { depth, text: None, noise }
}

fn text(depth: usize, text: &str) -> RegionNode {
    RegionNode { depth, text: Some(text.to_string()), noise: false }
}

#[test]
fn strip_noise_drops_what_stands_below_noise() {
    let nodes = vec![
        element(0, false),
        element(1, false),
        text(2, "kept"),
        element(2, true),
        text(3, "dropped"),
        element(3, false),
        text(4, "dropped too"),
        text(2, "kept again"),
        element(1, true),
        text(2, "gone"),
        element(1, false),
        text(2, "last"),
    ];
    assert_eq!(strip_noise(&nodes), " kept kept again last");
}

#[test]
fn strip_noise_writes_text_as_markup() {
    let nodes = vec![element(0, false), text(1, "a < b & c > d")];
    assert_eq!(strip_noise(&nodes), " a &lt; b &amp; c &gt; d");
    assert_eq!(clean_html_content(&strip_noise(&nodes)), "a b c d");
}

#[test]
fn strip_noise_of_nothing_is_empty() {
    assert_eq!(strip_noise(&Vec::new()), "");
    assert_eq!(strip_noise(&vec![element(0, true), text(1, "x")]), "");
}

#[test]
fn noise_inside_noise_stays_cut_to_the_end_of_the_outer_element() {
    let nodes = vec![
        element(0, false),
        element(1, true),
        element(2, true),
        text(3, "inner"),
        text(2, "outer"),
        text(1, "after"),
    ];
    assert_eq!(strip_noise(&nodes), " after");
}

#[test]
fn noscript_that_holds_markup_is_cut_out() {
    let html = "<main><p>visible</p><noscript><p>hidden <b>words</b></p></noscript><p>end</p></main>";
    let text = format_html(html);
    assert_eq!(text, "visible end");
    assert!(!text.contains("hidden"));
    assert!(!text.contains("words"));
}

#[test]
fn nested_noise_is_cut_out_whole() {
    let html = "<article><nav><ul><li>Home<script>track()</script></li></ul></nav><p>story</p><footer>about <span class=\"ads\">buy</span></footer></article>";
    assert_eq!(format_html(html), "story");
}

#[test]
fn text_that_repeats_noise_is_kept() {
    let html = "<main><p>menu</p><nav>menu</nav><p>menu</p></main>";
    assert_eq!(format_html(html), "menu menu");
}

#[test]
fn words_across_inline_tags_stay_apart() {
    assert_eq!(format_html("<main><p>one<b>two</b>three</p></main>"), "one two three");
}

#[test]
fn characters_written_as_references_become_spaces() {
    assert_eq!(format_html("<main>fish &amp; chips &lt;today&gt; caf&eacute;</main>"), "fish chips today caf\u{e9}");
}

#[test]
fn comments_are_no_text() {
    assert_eq!(format_html("<main>a<!-- hidden -->b</main>"), "a b");
}

#[test]
fn prompt_is_preamble_then_content() {
    let prompt = build_prompt("the page");
    assert!(prompt.starts_with("The following is the content of a webpage."));
    assert!(prompt.ends_with("structured and readable:\n\nthe page"));
}

#[test]
fn extraction_counts_words() {
    let html = "<html><body><main><h1>Title</h1><p>three  more words</p></main></body></html>";
    let extraction = extract(html).unwrap();
    assert_eq!(extraction.text, "Title three more words");
    assert_eq!(extraction.word_count, 4);
}

#[test]
fn longest_markup_keeps_the_parser_in_bounds() {
    assert_eq!(MAX_MARKUP_BYTES, 715_827_882);
    assert!(3 * (MAX_MARKUP_BYTES as u64) <= 1u64 << 31);
    assert!(3 * (MAX_MARKUP_BYTES as u64 + 1) > 1u64 << 31);
}

#[test]
fn empty_page_has_an_empty_body() {
    assert_eq!(extract_body(""), Some(String::new()));
    let extraction = extract("").unwrap();
    assert_eq!(extraction.text, "");
    assert_eq!(extraction.word_count, 0);
}

#[test]
fn cleaning_twice_is_cleaning_once() {
    let pages = ["a<b>c</b>d", "  x &amp; y ", "<p>one</p>\n<p>two</p>", "a; b", ""];
    for page in pages {
        let once = clean_html_content(page);
        assert_eq!(clean_html_content(&once), once);
        assert!(once.chars().count() <= page.chars().count());
    }
}
