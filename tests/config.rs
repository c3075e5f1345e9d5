use bageri::config::{
    default_author, default_description, default_favicon, default_html_pages, default_output_dir,
    default_pages, default_title, env_file_path, env_from_node_env, parse_env, parse_env_line,
    set_env_var, Config, Env, EnvFiles, HtmlPage, PageAttributes,
};

fn pairs(v: &[(&str, &str)]) -> Vec<(String, String)> {
    v.iter().map(|(k, x)| (k.to_string(), x.to_string())).collect()
}

#[test]
fn defaults_have_documented_values() {
    assert_eq!(default_title(), "Bageri App");
    assert_eq!(default_favicon(), "favicon.ico");
    assert_eq!(default_author(), "Your Name");
    assert_eq!(default_description(), "Description");
    assert_eq!(default_output_dir(), "dist");
}

#[test]
fn default_config_has_index_page() {
    let c = Config::default();
    assert_eq!(c.output_dir, "dist");
    assert_eq!(c.spa_pages.len(), 1);
    assert_eq!(c.spa_pages[0].0, "index");
    assert_eq!(default_pages()[0].1.attributes.title, "Bageri App");
    assert!(c.env.is_empty() && c.pre_hook.is_empty() && c.watch_patterns.is_empty());
}

#[test]
fn default_html_pages_are_about_and_blog() {
    let p = default_html_pages();
    assert_eq!(p[0].0, "about");
    assert!(p[0].1.pattern.is_none());
    assert_eq!(p[0].1.attributes.title, "About Us");
    assert_eq!(p[1].0, "blog_posts");
    assert_eq!(p[1].1.pattern.as_deref(), Some("blog-*.html"));
    assert_eq!(p[1].1.attributes.title, "Blog Post");
}

#[test]
fn source_files_from_pattern_or_name() {
    let a = PageAttributes::default();
    let p = HtmlPage { pattern: Some("x-*.html".to_string()), attributes: a.clone() };
    assert_eq!(p.get_source_files("x"), "x-*.html");
    let q = HtmlPage { pattern: None, attributes: a };
    assert_eq!(q.get_source_files("about"), "about.html");
}

#[test]
fn env_file_parsing_skips_comments_and_strips_quotes() {
    let text = "# comment\n\nAPI_URL = \"http://x\"\r\nNAME=bageri\nNOEQUALS\n  KEY2 =  v=w  \nAPI_URL=override";
    assert_eq!(
        parse_env(text),
        pairs(&[("API_URL", "override"), ("NAME", "bageri"), ("KEY2", "v=w")])
    );
}

#[test]
fn empty_env_file_is_empty_table() {
    assert!(parse_env("").is_empty());
    assert!(parse_env("\n\n# only\n").is_empty());
}

#[test]
fn env_line_forms() {
    assert_eq!(parse_env_line("  A=\"\"b\"\"  "), Some(("A".to_string(), "b".to_string())));
    assert_eq!(parse_env_line("#A=b"), None);
    assert_eq!(parse_env_line("   "), None);
    assert_eq!(parse_env_line("=v"), Some((String::new(), "v".to_string())));
}

#[test]
fn set_env_var_replaces_in_place() {
    let mut env = pairs(&[("A", "1"), ("B", "2")]);
    set_env_var(&mut env, "A".to_string(), "3".to_string());
    set_env_var(&mut env, "C".to_string(), "4".to_string());
    assert_eq!(env, pairs(&[("A", "3"), ("B", "2"), ("C", "4")]));
}

#[test]
fn env_selection_follows_node_env() {
    assert_eq!(env_from_node_env("production"), Env::Production);
    assert_eq!(env_from_node_env("development"), Env::Development);
    assert_eq!(env_from_node_env(""), Env::Development);
}

#[test]
fn env_file_defaults_and_overrides() {
    let none = EnvFiles::default();
    assert_eq!(env_file_path(&none, Env::Production), ".env.prd");
    assert_eq!(env_file_path(&none, Env::Development), ".env");
    let set = EnvFiles { dev: Some("dev.env".to_string()), prd: Some("prod.env".to_string()) };
    assert_eq!(env_file_path(&set, Env::Production), "prod.env");
    assert_eq!(env_file_path(&set, Env::Development), "dev.env");
}
