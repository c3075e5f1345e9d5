//! Configuration model: global defaults, page tables, environment values and hooks.
use vstd::prelude::*;

use crate::text::{chars_of, find_after, find_spec, trim_range, trim_spec};

verus! {

/// Page metadata: scalar fields override defaults when non-empty, lists extend them.
#[derive(Debug, Clone)]
pub struct PageAttributes {
    pub title: String,
    pub favicon: String,
    pub author: String,
    pub description: String,
    pub scripts: Vec<String>,
    pub styles: Vec<String>,
}

/// The mathematical content of a `PageAttributes`.
pub struct AttributesView {
    pub title: Seq<char>,
    pub favicon: Seq<char>,
    pub author: Seq<char>,
    pub description: Seq<char>,
    pub scripts: Seq<Seq<char>>,
    pub styles: Seq<Seq<char>>,
}

pub open spec fn strings_view(v: Seq<String>) -> Seq<Seq<char>> {
    v.map_values(|s: String| s@)
}

impl View for PageAttributes {
    type V = AttributesView;

    open spec fn view(&self) -> AttributesView {
        AttributesView {
            title: self.title@,
            favicon: self.favicon@,
            author: self.author@,
            description: self.description@,
            scripts: strings_view(self.scripts@),
            styles: strings_view(self.styles@),
        }
    }
}

/// A page rendered from an author-supplied HTML file.
#[derive(Debug, Clone)]
pub struct HtmlPage {
    pub pattern: Option<String>,
    pub attributes: PageAttributes,
}

/// A page rendered as an application shell with an empty mount point.
#[derive(Debug, Clone)]
pub struct SpaPage {
    pub attributes: PageAttributes,
}

/// Environment files for development and production.
#[derive(Debug, Clone)]
pub struct EnvFiles {
    pub dev: Option<String>,
    pub prd: Option<String>,
}

#[derive(Debug, Clone, Copy, PartialEq, Eq, Structural)]
pub enum Env {
    Development,
    Production,
}

/// The whole build configuration. Page tables and the environment are kept as
/// lists of (key, value) pairs in which every key occurs once.
#[derive(Debug, Clone)]
pub struct Config {
    pub default_page_attributes: PageAttributes,
    pub spa_pages: Vec<(String, SpaPage)>,
    pub html_pages: Vec<(String, HtmlPage)>,
    pub watch_patterns: Vec<String>,
    pub env_files: EnvFiles,
    pub env: Vec<(String, String)>,
    pub pre_hook: Vec<String>,
    pub output_dir: String,
}

/// No two entries share a key.
pub open spec fn keys_unique<V>(s: Seq<(String, V)>) -> bool {
    forall|i: int, j: int| 0 <= i < j < s.len() ==> #[trigger] s[i].0@ != #[trigger] s[j].0@
}

impl Config {
    /// Page names are unique within each table, and environment keys are unique.
    pub open spec fn wf(&self) -> bool {
        &&& keys_unique(self.spa_pages@)
        &&& keys_unique(self.html_pages@)
        &&& keys_unique(self.env@)
    }
}

/// The view of an environment table: (key, value) character sequences, in order.
pub open spec fn env_view(env: Seq<(String, String)>) -> Seq<(Seq<char>, Seq<char>)> {
    env.map_values(|e: (String, String)| (e.0@, e.1@))
}


/// The attributes that apply where the configuration names none.
pub open spec fn default_attributes_view() -> AttributesView {
    AttributesView {
        title: "Bageri App"@,
        favicon: "favicon.ico"@,
        author: "Your Name"@,
        description: "Description"@,
        scripts: Seq::empty(),
        styles: Seq::empty(),
    }
}

pub fn default_title() -> (r: String)
    ensures
        r@ == "Bageri App"@,
{
    String::from_str("Bageri App")
}

pub fn default_author() -> (r: String)
    ensures
        r@ == "Your Name"@,
{
    String::from_str("Your Name")
}

pub fn default_description() -> (r: String)
    ensures
        r@ == "Description"@,
{
    String::from_str("Description")
}

pub fn default_favicon() -> (r: String)
    ensures
        r@ == "favicon.ico"@,
{
    String::from_str("favicon.ico")
}

pub fn default_output_dir() -> (r: String)
    ensures
        r@ == "dist"@,
{
    String::from_str("dist")
}

impl Default for PageAttributes {
    fn default() -> (r: PageAttributes)
        ensures
            r@ == default_attributes_view(),
    {
        let r = PageAttributes {
            title: default_title(),
            favicon: default_favicon(),
            author: default_author(),
            description: default_description(),
            scripts: Vec::new(),
            styles: Vec::new(),
        };
        assert(r@.scripts =~= Seq::<Seq<char>>::empty());
        assert(r@.styles =~= Seq::<Seq<char>>::empty());
        r
    }
}

impl Default for EnvFiles {
    fn default() -> (r: EnvFiles)
        ensures
            r.dev is None && r.prd is None,
    {
        EnvFiles { dev: None, prd: None }
    }
}

/// The default application-shell pages: one page `index` with default attributes.
pub fn default_pages() -> (r: Vec<(String, SpaPage)>)
    ensures
        r@.len() == 1,
        r@[0].0@ == "index"@,
        r@[0].1.attributes@ == default_attributes_view(),
{
    let mut pages: Vec<(String, SpaPage)> = Vec::new();
    pages.push((String::from_str("index"), SpaPage { attributes: PageAttributes::default() }));
    pages
}

/// The default static pages: `about` from `src/about.html`, and `blog_posts`
/// from every `blog-*.html` file, each with its own title.
pub fn default_html_pages() -> (r: Vec<(String, HtmlPage)>)
    ensures
        r@.len() == 2,
        r@[0].0@ == "about"@,
        r@[0].1.pattern is None,
        r@[0].1.attributes@ == (AttributesView { title: "About Us"@, ..default_attributes_view() }),
        r@[1].0@ == "blog_posts"@,
        r@[1].1.pattern matches Some(p) && p@ == "blog-*.html"@,
        r@[1].1.attributes@ == (AttributesView { title: "Blog Post"@, ..default_attributes_view() }),
{
    let mut pages: Vec<(String, HtmlPage)> = Vec::new();
    let mut about = PageAttributes::default();
    about.title = String::from_str("About Us");
    pages.push((String::from_str("about"), HtmlPage { pattern: None, attributes: about }));
    let mut blog = PageAttributes::default();
    blog.title = String::from_str("Blog Post");
    pages.push(
        (
            String::from_str("blog_posts"),
            HtmlPage { pattern: Some(String::from_str("blog-*.html")), attributes: blog },
        ),
    );
    pages
}

impl Default for Config {
    fn default() -> (r: Config)
        ensures
            r.default_page_attributes@ == default_attributes_view(),
            r.spa_pages@.len() == 1,
            r.html_pages@.len() == 2,
            r.watch_patterns@.len() == 0,
            r.env_files.dev is None && r.env_files.prd is None,
            r.env@.len() == 0,
            r.pre_hook@.len() == 0,
            r.output_dir@ == "dist"@,
            r.wf(),
    {
        let spa_pages = default_pages();
        let html_pages = default_html_pages();
        proof {
            reveal_strlit("about");
            reveal_strlit("blog_posts");
            assert(html_pages@[0].0@[0] != html_pages@[1].0@[0]);
            assert(keys_unique(html_pages@));
        }
        Config {
            default_page_attributes: PageAttributes::default(),
            spa_pages,
            html_pages,
            watch_patterns: Vec::new(),
            env_files: EnvFiles::default(),
            env: Vec::new(),
            pre_hook: Vec::new(),
            output_dir: default_output_dir(),
        }
    }
}

impl HtmlPage {
    /// The page's source pattern, or `<page_name>.html` where it has none.
    pub fn get_source_files(&self, page_name: &str) -> (r: String)
        ensures
            r@ == match self.pattern {
                Some(p) => p@,
                None => page_name@ + ".html"@,
            },
    {
        match &self.pattern {
            Some(p) => p.clone(),
            None => {
                let mut r = String::from_str(page_name);
                r.append(".html");
                r
            },
        }
    }
}

/// The environment selected by the value of `NODE_ENV`.
pub fn env_from_node_env(value: &str) -> (r: Env)
    ensures
        r == if value@ == "production"@ {
            Env::Production
        } else {
            Env::Development
        },
{
    if String::from_str(value) == String::from_str("production") {
        Env::Production
    } else {
        Env::Development
    }
}

/// The environment file read for `env`: the configured one, else `.env.prd`
/// for production and `.env` for development.
pub fn env_file_path(files: &EnvFiles, env: Env) -> (r: String)
    ensures
        r@ == match env {
            Env::Production => match files.prd {
                Some(p) => p@,
                None => ".env.prd"@,
            },
            Env::Development => match files.dev {
                Some(p) => p@,
                None => ".env"@,
            },
        },
{
    match env {
        Env::Production => match &files.prd {
            Some(p) => p.clone(),
            None => String::from_str(".env.prd"),
        },
        Env::Development => match &files.dev {
            Some(p) => p.clone(),
            None => String::from_str(".env"),
        },
    }
}

/// The text split at each line feed (a text with `k` line feeds has `k + 1` pieces).
pub open spec fn split_lines(s: Seq<char>) -> Seq<Seq<char>>
    decreases s.len(),
{
    if s.len() == 0 {
        seq![Seq::empty()]
    } else if s.last() == '\n' {
        split_lines(s.drop_last()).push(Seq::empty())
    } else {
        let ls = split_lines(s.drop_last());
        ls.update(ls.len() - 1, ls.last().push(s.last()))
    }
}

proof fn lemma_split_lines_nonempty(s: Seq<char>)
    ensures
        split_lines(s).len() >= 1,
    decreases s.len(),
{
    if s.len() > 0 {
        lemma_split_lines_nonempty(s.drop_last());
    }
}

/// Index of the first character of `s` at or after `i` that is not `"`.
pub open spec fn skip_quote(s: Seq<char>, i: int) -> int
    decreases s.len() - i,
{
    if i < 0 || i >= s.len() {
        s.len() as int
    } else if s[i] == '"' {
        skip_quote(s, i + 1)
    } else {
        i
    }
}

/// One past the last character of `s` before `j` that is not `"`.
pub open spec fn back_quote(s: Seq<char>, j: int) -> int
    decreases j,
{
    if j <= 0 || j > s.len() {
        0
    } else if s[j - 1] == '"' {
        back_quote(s, j - 1)
    } else {
        j
    }
}

/// `s` without the double quotes at either end.
pub open spec fn strip_quotes(s: Seq<char>) -> Seq<char> {
    let a = skip_quote(s, 0);
    let b = back_quote(s, s.len() as int);
    if a < b {
        s.subrange(a, b)
    } else {
        Seq::empty()
    }
}

/// What one line of an environment file defines: nothing for a blank line, a
/// comment or a line without `=`; else the trimmed key before the first `=` and
/// the trimmed, unquoted value after it.
pub open spec fn env_line(l: Seq<char>) -> Option<(Seq<char>, Seq<char>)> {
    let t = trim_spec(l);
    if t.len() == 0 || t[0] == '#' {
        None
    } else {
        match find_spec(t, seq!['=']) {
            Some(i) => Some(
                (trim_spec(t.subrange(0, i)), strip_quotes(trim_spec(t.subrange(i + 1, t.len() as int)))),
            ),
            None => None,
        }
    }
}

/// Where `key` stands in the table, if it does.
pub open spec fn key_index(env: Seq<(Seq<char>, Seq<char>)>, key: Seq<char>) -> Option<int>
    decreases env.len(),
{
    if env.len() == 0 {
        None
    } else if env.last().0 == key {
        Some(env.len() - 1)
    } else {
        key_index(env.drop_last(), key)
    }
}

/// The table with `key` bound to `value`: replaced in place, or added at the end.
pub open spec fn env_insert(env: Seq<(Seq<char>, Seq<char>)>, key: Seq<char>, value: Seq<char>) -> Seq<
    (Seq<char>, Seq<char>),
> {
    match key_index(env, key) {
        Some(i) => env.update(i, (key, value)),
        None => env.push((key, value)),
    }
}

/// The table that a sequence of lines defines; a later line wins.
pub open spec fn env_from_lines(lines: Seq<Seq<char>>) -> Seq<(Seq<char>, Seq<char>)>
    decreases lines.len(),
{
    if lines.len() == 0 {
        Seq::empty()
    } else {
        let e = env_from_lines(lines.drop_last());
        match env_line(lines.last()) {
            Some(kv) => env_insert(e, kv.0, kv.1),
            None => e,
        }
    }
}

/// The table that an environment file defines.
pub open spec fn parse_env_spec(content: Seq<char>) -> Seq<(Seq<char>, Seq<char>)> {
    env_from_lines(split_lines(content))
}

/// The characters `v[from..to]` without double quotes at either end.
fn strip_quotes_range(v: &Vec<char>, from: usize, to: usize) -> (r: String)
    requires
        from <= to <= v@.len(),
    ensures
        r@ == strip_quotes(v@.subrange(from as int, to as int)),
{
    let ghost s = v@.subrange(from as int, to as int);
    let mut a = from;
    while a < to && v[a] == '"'
        invariant
            from <= a <= to <= v@.len(),
            s == v@.subrange(from as int, to as int),
            skip_quote(s, (a - from) as int) == skip_quote(s, 0),
        decreases to - a,
    {
        a += 1;
    }
    let mut b = to;
    while b > a && v[b - 1] == '"'
        invariant
            from <= a <= b <= to <= v@.len(),
            s == v@.subrange(from as int, to as int),
            back_quote(s, (b - from) as int) == back_quote(s, s.len() as int),
            skip_quote(s, 0) == (a - from) as int,
        decreases b,
    {
        b -= 1;
    }
    if a == b {
        proof {
            lemma_back_quote_le(s, (b - from) as int);
        }
        crate::text::slice_string(v, a, a)
    } else {
        assert(back_quote(s, (b - from) as int) == (b - from) as int);
        assert(s.subrange((a - from) as int, (b - from) as int) =~= v@.subrange(a as int, b as int));
        crate::text::slice_string(v, a, b)
    }
}

proof fn lemma_back_quote_le(s: Seq<char>, j: int)
    ensures
        back_quote(s, j) <= if j < 0 {
            0
        } else {
            j
        },
    decreases j,
{
    if 0 < j <= s.len() && s[j - 1] == '"' {
        lemma_back_quote_le(s, j - 1);
    }
}

/// Reads one line of an environment file.
pub fn parse_env_line(line: &str) -> (r: Option<(String, String)>)
    ensures
        match r {
            Some(kv) => env_line(line@) == Some((kv.0@, kv.1@)),
            None => env_line(line@) is None,
        },
{
    let t = crate::text::trim(line);
    let v = chars_of(t.as_str());
    if v.len() == 0 || v[0] == '#' {
        return None;
    }
    let eq = vec!['='];
    assert(eq@ =~= seq!['=']);
    match find_after(&v, &eq, 0) {
        Some(i) => {
            let key = trim_range(&v, 0, i);
            let raw = trim_range(&v, i + 1, v.len());
            let rv = chars_of(raw.as_str());
            let value = strip_quotes_range(&rv, 0, rv.len());
            assert(rv@.subrange(0, rv@.len() as int) =~= rv@);
            Some((key, value))
        },
        None => None,
    }
}

proof fn lemma_key_index_none(env: Seq<(Seq<char>, Seq<char>)>, key: Seq<char>)
    requires
        key_index(env, key) is None,
    ensures
        forall|i: int| 0 <= i < env.len() ==> env[i].0 != key,
    decreases env.len(),
{
    if env.len() > 0 {
        lemma_key_index_none(env.drop_last(), key);
        assert forall|i: int| 0 <= i < env.len() implies env[i].0 != key by {
            if i < env.len() - 1 {
                assert(env.drop_last()[i] == env[i]);
            }
        }
    }
}

/// Binds `key` to `value` in an environment table, replacing an earlier binding.
pub fn set_env_var(env: &mut Vec<(String, String)>, key: String, value: String)
    requires
        keys_unique(old(env)@),
    ensures
        env_view(final(env)@) == env_insert(env_view(old(env)@), key@, value@),
        keys_unique(final(env)@),
{
    let ghost e = env_view(env@);
    let mut i = env.len();
    assert(e.take(i as int) =~= e);
    while i > 0
        invariant
            i <= env@.len(),
            e == env_view(env@),
            e == env_view(old(env)@),
            env@ == old(env)@,
            keys_unique(env@),
            key_index(e, key@) == key_index(e.take(i as int), key@),
        decreases i,
    {
        assert(e.take(i as int).drop_last() =~= e.take(i - 1));
        if env[i - 1].0 == key {
            assert(key_index(e, key@) == Some(i - 1));
            env.set(i - 1, (key, value));
            assert(env_view(env@) =~= e.update(i - 1, (key@, value@)));
            return;
        }
        i -= 1;
    }
    assert(key_index(e.take(0), key@) is None);
    proof {
        lemma_key_index_none(e, key@);
    }
    let ghost before = env@;
    env.push((key, value));
    assert(env_view(env@) =~= e.push((key@, value@)));
    assert forall|i: int, j: int| 0 <= i < j < env@.len() implies #[trigger] env@[i].0@
        != #[trigger] env@[j].0@ by {
        if j == env@.len() - 1 {
            assert(e[i].0 == before[i].0@);
        } else {
            assert(env@[i] == before[i] && env@[j] == before[j]);
        }
    }
}

/// The environment table that the text of an environment file defines.
pub fn parse_env(content: &str) -> (r: Vec<(String, String)>)
    ensures
        env_view(r@) == parse_env_spec(content@),
        keys_unique(r@),
{
    let v = chars_of(content);
    let mut env: Vec<(String, String)> = Vec::new();
    let mut start: usize = 0;
    let mut i: usize = 0;
    proof {
        assert(v@.take(0) =~= Seq::<char>::empty());
        assert(split_lines(v@.take(0)).drop_last() =~= Seq::<Seq<char>>::empty());
    }
    while i < v.len()
        invariant
            start <= i <= v@.len(),
            v@ == content@,
            split_lines(v@.take(i as int)).len() >= 1,
            split_lines(v@.take(i as int)).last() == v@.subrange(start as int, i as int),
            env_view(env@) == env_from_lines(split_lines(v@.take(i as int)).drop_last()),
            keys_unique(env@),
        decreases v@.len() - i,
    {
        let ghost ls = split_lines(v@.take(i as int));
        assert(v@.take(i + 1).drop_last() =~= v@.take(i as int));
        assert(v@.take(i + 1).last() == v@[i as int]);
        if v[i] == '\n' {
            let line = crate::text::slice_string(&v, start, i);
            match parse_env_line(line.as_str()) {
                Some(kv) => set_env_var(&mut env, kv.0, kv.1),
                None => {},
            }
            proof {
                let ls2 = split_lines(v@.take(i + 1));
                assert(ls2 == ls.push(Seq::<char>::empty()));
                assert(ls2.drop_last() =~= ls);
                assert(ls.drop_last() =~= ls2.drop_last().drop_last());
            }
            start = i + 1;
            assert(v@.subrange(start as int, i + 1) =~= Seq::<char>::empty());
        } else {
            proof {
                let ls2 = split_lines(v@.take(i + 1));
                assert(ls2.drop_last() =~= ls.drop_last());
                assert(v@.subrange(start as int, i + 1) =~= v@.subrange(start as int, i as int).push(
                    v@[i as int],
                ));
            }
        }
        i += 1;
    }
    let line = crate::text::slice_string(&v, start, v.len());
    match parse_env_line(line.as_str()) {
        Some(kv) => set_env_var(&mut env, kv.0, kv.1),
        None => {},
    }
    proof {
        let ls = split_lines(v@.take(i as int));
        assert(v@.take(i as int) =~= v@);
        assert(ls.drop_last() == ls.subrange(0, ls.len() - 1));
        assert(ls.drop_last().push(ls.last()) =~= ls);
        assert(ls.drop_last() =~= ls.subrange(0, ls.len() - 1));
    }
    env
}

} // verus!
