use bageri::config::{Config, HtmlPage, PageAttributes, SpaPage};
use bageri::html::{
    escape_js, extract_body_content, extract_body_from_clean_html, find_html_files,
    generate_env_object, generate_html, glob_match, process_html_page, resolve,
};

fn attrs(title: &str, scripts: &[&str]) -> PageAttributes {
    PageAttributes {
        title: title.to_string(),
        favicon: String::new(),
        author: String::new(),
        description: String::new(),
        scripts: scripts.iter().map(|s| s.to_string()).collect(),
        styles: Vec::new(),
    }
}

fn names(v: &[&str]) -> Vec<String> {
    v.iter().map(|s| s.to_string()).collect()
}

#[test]
fn empty_title_falls_back_to_default() {
    let d = PageAttributes::default();
    let r = resolve(&d, &attrs("", &[]));
    assert_eq!(r.title, "Bageri App");
    assert_eq!(r.favicon, "favicon.ico");
    assert_eq!(r.author, "Your Name");
}

#[test]
fn page_title_overrides_default() {
    let d = PageAttributes::default();
    let r = resolve(&d, &attrs("Home", &[]));
    assert_eq!(r.title, "Home");
}

#[test]
fn scripts_are_defaults_then_page() {
    let d = attrs("x", &["a.js"]);
    let r = resolve(&d, &attrs("", &["b.js"]));
    assert_eq!(r.scripts, names(&["a.js", "b.js"]));
    assert_eq!(r.title, "x");
}

#[test]
fn escape_js_escapes_quote_backslash_and_controls() {
    assert_eq!(escape_js("http://x\"y"), "http://x\\\"y");
    assert_eq!(escape_js("a\\b\nc\rd\te"), "a\\\\b\\nc\\rd\\te");
    assert_eq!(escape_js(""), "");
}

fn unescape(lit: &str) -> String {
    let mut out = String::new();
    let mut it = lit.chars();
    while let Some(c) = it.next() {
        assert!(c != '"' && c != '\n' && c != '\r');
        if c == '\\' {
            match it.next().unwrap() {
                'n' => out.push('\n'),
                'r' => out.push('\r'),
                't' => out.push('\t'),
                o => out.push(o),
            }
        } else {
            out.push(c);
        }
    }
    out
}

#[test]
fn env_value_reads_back_after_escaping() {
    let env = vec![("API_URL".to_string(), "http://x\"y".to_string())];
    let obj = generate_env_object(&env);
    assert_eq!(obj, "{\n            \"API_URL\": \"http://x\\\"y\"\n        }");
    let start = obj.find(": \"").unwrap() + 3;
    let end = obj.rfind('"').unwrap();
    assert_eq!(unescape(&obj[start..end]), "http://x\"y");
}

#[test]
fn empty_env_object_is_braces() {
    assert_eq!(generate_env_object(&Vec::new()), "{}");
}

#[test]
fn env_object_joins_entries() {
    let env = vec![("A".to_string(), "1".to_string()), ("B".to_string(), "2".to_string())];
    assert_eq!(
        generate_env_object(&env),
        "{\n            \"A\": \"1\",\n            \"B\": \"2\"\n        }"
    );
}

#[test]
fn glob_star_splits_prefix_and_suffix() {
    assert!(glob_match("blog-*.html", "blog-1.html"));
    assert!(!glob_match("blog-*.html", "blog.html"));
    assert!(!glob_match("blog-*.html", "news-1.html"));
}

#[test]
fn glob_without_single_star_is_containment() {
    assert!(glob_match("about", "about-us.html"));
    assert!(!glob_match("contact", "about.html"));
    assert!(glob_match("a**b", "xa**by.html"));
    assert!(!glob_match("a**b", "axxb.html"));
}

#[test]
fn body_is_extracted_and_head_removed() {
    let out = extract_body_content("<html><head>...</head><body class=\"x\">hi</body></html>");
    assert_eq!(out, "<body>hi</body>");
}

#[test]
fn body_without_closing_tag_runs_to_end() {
    assert_eq!(extract_body_from_clean_html("<body>\n  hello  "), "<body>hello</body>");
}

#[test]
fn fragment_without_body_is_whole_body() {
    assert_eq!(extract_body_content("  <p>x</p>\n"), "<body><p>x</p></body>");
}

#[test]
fn closing_tag_before_opening_is_ignored() {
    assert_eq!(extract_body_from_clean_html("</body><body>x"), "<body>x</body>");
}

fn env_config() -> Config {
    let mut c = Config::default();
    c.env = vec![("API_URL".to_string(), "http://x\"y".to_string())];
    c
}

const ENV_SCRIPT: &str = "<script>// Inject environment variables\nwindow.ENV = {\n            \"API_URL\": \"http://x\\\"y\"\n        };</script>";

#[test]
fn spa_document_has_full_shape() {
    let c = env_config();
    let page = SpaPage { attributes: attrs("<Home>", &["b.js"]) };
    let mut c2 = c.clone();
    c2.default_page_attributes.scripts = names(&["a.js"]);
    c2.default_page_attributes.styles = names(&["s.css"]);
    let html = generate_html(&c2, &page);
    let expected = format!(
        "<!DOCTYPE html><html lang=\"en\"><head><meta charset=\"UTF-8\"><meta name=\"viewport\" content=\"width=device-width, initial-scale=1.0\"><title>&lt;Home&gt;</title><link rel=\"icon\" href=\"favicon.ico\"><meta name=\"author\" content=\"Your Name\"><meta name=\"description\" content=\"Description\"><script type=\"module\" src=\"a.js\"></script><script type=\"module\" src=\"b.js\"></script><link rel=\"stylesheet\" href=\"s.css\">{}</head><body><div id=\"app\"></div></body></html>",
        ENV_SCRIPT
    );
    assert_eq!(html, expected);
}

#[test]
fn empty_favicon_author_description_are_left_out() {
    let mut c = Config::default();
    c.default_page_attributes = attrs("T", &[]);
    let html = generate_html(&c, &SpaPage { attributes: attrs("", &[]) });
    assert_eq!(
        html,
        "<!DOCTYPE html><html lang=\"en\"><head><meta charset=\"UTF-8\"><meta name=\"viewport\" content=\"width=device-width, initial-scale=1.0\"><title>T</title><script>// Inject environment variables\nwindow.ENV = {};</script></head><body><div id=\"app\"></div></body></html>"
    );
}

#[test]
fn static_page_wraps_extracted_body() {
    let mut c = Config::default();
    c.default_page_attributes = attrs("T", &[]);
    let page = HtmlPage { pattern: None, attributes: attrs("About \"us\" & more", &[]) };
    let html = process_html_page(&c, &page, "<head><title>x</title></head><body>\n<p>a</p>\n</body>");
    assert_eq!(
        html,
        "<!DOCTYPE html><html lang=\"en\"><head><meta charset=\"UTF-8\"><meta name=\"viewport\" content=\"width=device-width, initial-scale=1.0\"><title>About &quot;us&quot; &amp; more</title><script>// Inject environment variables\nwindow.ENV = {};</script></head><body><p>a</p></body></html>"
    );
}

#[test]
fn pattern_page_selects_matching_html_entries() {
    let page = HtmlPage { pattern: Some("blog-*.html".to_string()), attributes: attrs("", &[]) };
    let entries = names(&["blog-1.html", "blog.html", "news-1.html", "blog-2.html", "blog-x.txt"]);
    assert_eq!(
        find_html_files("blog_posts", &page, &entries),
        names(&["src/blog-1.html", "src/blog-2.html"])
    );
}

#[test]
fn page_without_pattern_uses_its_name() {
    let page = HtmlPage { pattern: None, attributes: attrs("", &[]) };
    let entries = names(&["about.html", "index.html"]);
    assert_eq!(find_html_files("about", &page, &entries), names(&["src/about.html"]));
}

#[test]
fn missing_source_gives_no_files() {
    let page = HtmlPage { pattern: None, attributes: attrs("", &[]) };
    let entries = names(&["index.html"]);
    assert!(find_html_files("about", &page, &entries).is_empty());
}

#[test]
fn pattern_without_matches_gives_no_files() {
    let page = HtmlPage { pattern: Some("post-*.html".to_string()), attributes: attrs("", &[]) };
    assert!(find_html_files("posts", &page, &names(&["about.html"])).is_empty());
}
