use bageri::cli::{Args, BuildCommand, Command, DevCommand};
use bageri::log::{
    colors_enabled, format_line, max_level, set_colors_enabled, set_max_level, should_log, Level,
    LogSettings,
};
use bageri::plan::{plan_html_page, spa_output_path, static_output_path};
use bageri::config::{HtmlPage, PageAttributes};

#[test]
fn verbosity_count_selects_level() {
    let mut a = Args { command: Command::Dev(DevCommand {}), log_level: 0, no_color: false };
    assert_eq!(a.log_level(), Level::Warn);
    a.log_level = 1;
    assert_eq!(a.log_level(), Level::Info);
    a.log_level = 2;
    assert_eq!(a.log_level(), Level::Debug);
    a.log_level = 3;
    assert_eq!(a.log_level(), Level::Trace);
    a.log_level = 200;
    a.command = Command::Build(BuildCommand {});
    assert_eq!(a.log_level(), Level::Trace);
}

#[test]
fn settings_gate_levels() {
    let mut s = LogSettings::new();
    assert_eq!(max_level(&s), Level::Info);
    assert!(colors_enabled(&s));
    assert!(should_log(&s, Level::Warn));
    assert!(!should_log(&s, Level::Debug));
    set_max_level(&mut s, Level::Error);
    assert!(!should_log(&s, Level::Warn));
    assert!(should_log(&s, Level::Error));
    set_colors_enabled(&mut s, false);
    assert!(!colors_enabled(&s));
    assert_eq!(max_level(&s), Level::Error);
}

#[test]
fn log_lines_are_labelled() {
    let mut s = LogSettings::new();
    assert_eq!(format_line(&s, Level::Error, "boom"), "[\x1b[31mERROR\x1b[0m] boom");
    set_colors_enabled(&mut s, false);
    assert_eq!(format_line(&s, Level::Warn, "careful"), "[WARN] careful");
    assert_eq!(Level::Trace.label(false), "TRACE");
}

#[test]
fn output_paths() {
    assert_eq!(spa_output_path("dist", "index"), "dist/index.html");
    assert_eq!(static_output_path("dist", "src/blog-1.html"), "dist/blog-1.html");
    assert_eq!(static_output_path("out", "plain.html"), "out/plain.html");
}

#[test]
fn plan_skips_missing_source_and_names_matches() {
    let a = PageAttributes::default();
    let about = HtmlPage { pattern: None, attributes: a.clone() };
    assert!(plan_html_page("dist", "about", &about, &vec!["index.html".to_string()]).is_empty());
    let blog = HtmlPage { pattern: Some("blog-*.html".to_string()), attributes: a };
    let entries = vec!["blog-2.html".to_string(), "blog-1.html".to_string()];
    let jobs = plan_html_page("dist", "blog_posts", &blog, &entries);
    assert_eq!(jobs.len(), 2);
    assert_eq!(jobs[0].source, "src/blog-2.html");
    assert_eq!(jobs[0].output, "dist/blog-2.html");
    assert_eq!(jobs[1].output, "dist/blog-1.html");
}
