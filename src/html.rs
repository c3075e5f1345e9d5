//! HTML rendering: attribute resolution, escaping, environment injection and
//! the document shapes for application-shell and static pages.
use vstd::prelude::*;

use crate::config::{env_view, strings_view, AttributesView, Config, HtmlPage, PageAttributes, SpaPage};
use crate::text::{
    chars_of, contains, ends_with, find_after, find_from, find_spec, push_char, rfind, rfind_spec,
    starts_with, sub_chars, trim, trim_range, trim_spec, contains_spec, ends_with_spec, starts_with_spec,
};

verus! {

/// The concatenation of `f(c)` over the characters `c` of `s`.
pub open spec fn flat_map(s: Seq<char>, f: spec_fn(char) -> Seq<char>) -> Seq<char>
    decreases s.len(),
{
    if s.len() == 0 {
        Seq::empty()
    } else {
        flat_map(s.drop_last(), f) + f(s.last())
    }
}

pub proof fn lemma_flat_map_concat(a: Seq<char>, b: Seq<char>, f: spec_fn(char) -> Seq<char>)
    ensures
        flat_map(a + b, f) == flat_map(a, f) + flat_map(b, f),
    decreases b.len(),
{
    if b.len() == 0 {
        assert(a + b =~= a);
        assert(flat_map(a, f) + flat_map(b, f) =~= flat_map(a, f));
    } else {
        lemma_flat_map_concat(a, b.drop_last(), f);
        assert((a + b).drop_last() =~= a + b.drop_last());
        assert(flat_map(a, f) + flat_map(b, f) =~= flat_map(a, f) + flat_map(b.drop_last(), f) + f(b.last()));
    }
}

/// How maud writes one character of text or of an attribute value.
pub open spec fn html_escape_char(c: char) -> Seq<char> {
    if c == '&' {
        seq!['&', 'a', 'm', 'p', ';']
    } else if c == '<' {
        seq!['&', 'l', 't', ';']
    } else if c == '>' {
        seq!['&', 'g', 't', ';']
    } else if c == '"' {
        seq!['&', 'q', 'u', 'o', 't', ';']
    } else {
        seq![c]
    }
}

pub open spec fn html_escaped(s: Seq<char>) -> Seq<char> {
    flat_map(s, |c: char| html_escape_char(c))
}

/// Relies on maud's `Render` impl for `str` (its `escape_to_string`): `&`, `<`, `>`
/// and `"` become entities, every other character is copied.
#[verifier::external_body]
fn escape_html(s: &str) -> (r: String)
    ensures
        r@ == html_escaped(s@),
{
    let mut out = String::new();
    maud::Render::render_to(s, &mut out);
    out
}

/// Relies on `maud::DOCTYPE`: the document type declaration it renders.
#[verifier::external_body]
fn doctype() -> (r: String)
    ensures
        r@ == "<!DOCTYPE html>"@,
{
    maud::DOCTYPE.0.to_string()
}

/// How one character is written inside a double-quoted script string.
pub open spec fn js_escape_char(c: char) -> Seq<char> {
    if c == '\\' {
        seq!['\\', '\\']
    } else if c == '"' {
        seq!['\\', '"']
    } else if c == '\n' {
        seq!['\\', 'n']
    } else if c == '\r' {
        seq!['\\', 'r']
    } else if c == '\t' {
        seq!['\\', 't']
    } else {
        seq![c]
    }
}

pub open spec fn js_escaped(s: Seq<char>) -> Seq<char> {
    flat_map(s, |c: char| js_escape_char(c))
}

/// The character that the escape `\c` stands for in a script string.
pub open spec fn js_unescape_char(c: char) -> char {
    if c == 'n' {
        '\n'
    } else if c == 'r' {
        '\r'
    } else if c == 't' {
        '\t'
    } else {
        c
    }
}

/// Reads `t` as the body of a double-quoted script string: the value it denotes,
/// or `None` where `t` holds a bare quote or line break or ends inside an escape.
pub open spec fn js_string_value(t: Seq<char>) -> Option<Seq<char>>
    decreases t.len(),
{
    if t.len() == 0 {
        Some(Seq::empty())
    } else if t[0] == '\\' {
        if t.len() < 2 {
            None
        } else {
            match js_string_value(t.subrange(2, t.len() as int)) {
                Some(r) => Some(seq![js_unescape_char(t[1])] + r),
                None => None,
            }
        }
    } else if t[0] == '"' || t[0] == '\n' || t[0] == '\r' {
        None
    } else {
        match js_string_value(t.drop_first()) {
            Some(r) => Some(seq![t[0]] + r),
            None => None,
        }
    }
}

/// An escaped value is a valid script string body that reads back as the value.
pub proof fn lemma_js_escape_round_trip(s: Seq<char>)
    ensures
        js_string_value(js_escaped(s)) == Some(s),
    decreases s.len(),
{
    if s.len() > 0 {
        let f = |c: char| js_escape_char(c);
        let rest = s.drop_first();
        lemma_js_escape_round_trip(rest);
        assert(s =~= seq![s[0]] + rest);
        lemma_flat_map_concat(seq![s[0]], rest, f);
        assert(seq![s[0]].drop_last() =~= Seq::<char>::empty());
        assert(flat_map(Seq::<char>::empty(), f) =~= Seq::<char>::empty());
        assert(seq![s[0]].last() == s[0]);
        assert(flat_map(seq![s[0]], f) == flat_map(Seq::<char>::empty(), f) + f(s[0]));
        assert(flat_map(seq![s[0]], f) =~= js_escape_char(s[0]));
        let t = js_escape_char(s[0]) + js_escaped(rest);
        assert(js_escaped(s) == t);
        if t[0] == '\\' {
            assert(t.subrange(2, t.len() as int) =~= js_escaped(rest));
            assert(seq![js_unescape_char(t[1])] + rest =~= s);
        } else {
            assert(t.drop_first() =~= js_escaped(rest));
            assert(seq![t[0]] + rest =~= s);
        }
    }
}

/// `s` escaped for a double-quoted script string.
pub fn escape_js(s: &str) -> (r: String)
    ensures
        r@ == js_escaped(s@),
{
    let v = crate::text::chars_of(s);
    let mut r = String::new();
    let mut i: usize = 0;
    while i < v.len()
        invariant
            i <= v@.len(),
            v@ == s@,
            r@ == js_escaped(v@.subrange(0, i as int)),
        decreases v@.len() - i,
    {
        let c = v[i];
        if c == '\\' {
            push_char(&mut r, '\\');
            push_char(&mut r, '\\');
        } else if c == '"' {
            push_char(&mut r, '\\');
            push_char(&mut r, '"');
        } else if c == '\n' {
            push_char(&mut r, '\\');
            push_char(&mut r, 'n');
        } else if c == '\r' {
            push_char(&mut r, '\\');
            push_char(&mut r, 'r');
        } else if c == '\t' {
            push_char(&mut r, '\\');
            push_char(&mut r, 't');
        } else {
            push_char(&mut r, c);
        }
        assert(v@.subrange(0, i + 1).drop_last() =~= v@.subrange(0, i as int));
        assert(r@ =~= js_escaped(v@.subrange(0, i as int)) + js_escape_char(c));
        i += 1;
    }
    assert(v@.subrange(0, i as int) =~= s@);
    r
}


/// A page's value where it is non-empty, else the default's.
pub open spec fn pick(page: Seq<char>, default: Seq<char>) -> Seq<char> {
    if page.len() > 0 {
        page
    } else {
        default
    }
}

/// Effective attributes: scalars from the page where non-empty, lists as
/// defaults followed by the page's own.
pub open spec fn resolve_spec(d: AttributesView, p: AttributesView) -> AttributesView {
    AttributesView {
        title: pick(p.title, d.title),
        favicon: pick(p.favicon, d.favicon),
        author: pick(p.author, d.author),
        description: pick(p.description, d.description),
        scripts: d.scripts + p.scripts,
        styles: d.styles + p.styles,
    }
}

fn pick_string(page: &String, default: &String) -> (r: String)
    ensures
        r@ == pick(page@, default@),
{
    if page.as_str().is_empty() {
        default.clone()
    } else {
        page.clone()
    }
}

fn concat_strings(a: &Vec<String>, b: &Vec<String>) -> (r: Vec<String>)
    ensures
        strings_view(r@) == strings_view(a@) + strings_view(b@),
{
    let mut r: Vec<String> = Vec::new();
    let mut i: usize = 0;
    while i < a.len()
        invariant
            i <= a@.len(),
            r@ == a@.subrange(0, i as int),
        decreases a@.len() - i,
    {
        r.push(a[i].clone());
        assert(r@ =~= a@.subrange(0, i + 1));
        i += 1;
    }
    let mut j: usize = 0;
    while j < b.len()
        invariant
            j <= b@.len(),
            r@ == a@ + b@.subrange(0, j as int),
        decreases b@.len() - j,
    {
        r.push(b[j].clone());
        assert(r@ =~= a@ + b@.subrange(0, j + 1));
        j += 1;
    }
    assert(r@ =~= a@ + b@);
    assert(strings_view(a@ + b@) =~= strings_view(a@) + strings_view(b@));
    r
}

/// Merges a page's attributes over the defaults.
pub fn resolve(defaults: &PageAttributes, page: &PageAttributes) -> (r: PageAttributes)
    ensures
        r@ == resolve_spec(defaults@, page@),
{
    PageAttributes {
        title: pick_string(&page.title, &defaults.title),
        favicon: pick_string(&page.favicon, &defaults.favicon),
        author: pick_string(&page.author, &defaults.author),
        description: pick_string(&page.description, &defaults.description),
        scripts: concat_strings(&defaults.scripts, &page.scripts),
        styles: concat_strings(&defaults.styles, &page.styles),
    }
}

/// One `"key": "value"` line of the injected environment object.
pub open spec fn env_entry(k: Seq<char>, v: Seq<char>) -> Seq<char> {
    "            \""@ + js_escaped(k) + "\": \""@ + js_escaped(v) + "\""@
}

/// The entries joined by `,` and a line break.
pub open spec fn env_entries(env: Seq<(Seq<char>, Seq<char>)>) -> Seq<char>
    decreases env.len(),
{
    if env.len() == 0 {
        Seq::empty()
    } else if env.len() == 1 {
        env_entry(env[0].0, env[0].1)
    } else {
        env_entries(env.drop_last()) + ",\n"@ + env_entry(env.last().0, env.last().1)
    }
}

/// The object literal assigned to `window.ENV`.
pub open spec fn env_object(env: Seq<(Seq<char>, Seq<char>)>) -> Seq<char> {
    if env.len() == 0 {
        "{}"@
    } else {
        "{\n"@ + env_entries(env) + "\n        }"@
    }
}

proof fn lemma_entries_split(env: Seq<(Seq<char>, Seq<char>)>, i: int) -> (r: (Seq<char>, Seq<char>))
    requires
        0 <= i < env.len(),
    ensures
        env_entries(env) == r.0 + env_entry(env[i].0, env[i].1) + r.1,
    decreases env.len(),
{
    let e = env_entry(env[i].0, env[i].1);
    if env.len() == 1 {
        assert(env_entries(env) =~= Seq::<char>::empty() + e + Seq::<char>::empty());
        (Seq::empty(), Seq::empty())
    } else if i == env.len() - 1 {
        let pre = env_entries(env.drop_last()) + ",\n"@;
        assert(env_entries(env) =~= pre + e + Seq::<char>::empty());
        (pre, Seq::empty())
    } else {
        let (a, b) = lemma_entries_split(env.drop_last(), i);
        assert(env.drop_last()[i] == env[i]);
        let last = env_entry(env.last().0, env.last().1);
        let post = b + ",\n"@ + last;
        assert(env_entries(env) =~= a + e + post);
        (a, post)
    }
}

/// Every value of the environment appears in the injected object escaped,
/// between the `": "` after its key and a closing `"`, and reads back as the
/// value itself.
pub proof fn lemma_env_injection_round_trip(env: Seq<(Seq<char>, Seq<char>)>, i: int)
    requires
        0 <= i < env.len(),
    ensures
        exists|before: Seq<char>, after: Seq<char>|
            env_object(env) == before + "\": \""@ + js_escaped(env[i].1) + "\""@ + after,
        js_string_value(js_escaped(env[i].1)) == Some(env[i].1),
{
    let (pre, post) = lemma_entries_split(env, i);
    let before = "{\n"@ + pre + "            \""@ + js_escaped(env[i].0);
    let after = post + "\n        }"@;
    assert(env_object(env) =~= before + "\": \""@ + js_escaped(env[i].1) + "\""@ + after);
    lemma_js_escape_round_trip(env[i].1);
}

/// Writes the environment table as a script object literal.
pub fn generate_env_object(env: &Vec<(String, String)>) -> (r: String)
    ensures
        r@ == env_object(env_view(env@)),
{
    if env.len() == 0 {
        return String::from_str("{}");
    }
    let ghost e = env_view(env@);
    let mut out = String::from_str("{\n");
    let mut i: usize = 0;
    while i < env.len()
        invariant
            i <= env@.len(),
            e == env_view(env@),
            out@ == "{\n"@ + env_entries(e.subrange(0, i as int)),
        decreases env@.len() - i,
    {
        let ghost before = out@;
        if i > 0 {
            out.append(",\n");
        }
        let k = escape_js(env[i].0.as_str());
        let v = escape_js(env[i].1.as_str());
        out.append("            \"");
        out.append(k.as_str());
        out.append("\": \"");
        out.append(v.as_str());
        out.append("\"");
        proof {
            let sub = e.subrange(0, i + 1);
            assert(sub.drop_last() =~= e.subrange(0, i as int));
            assert(sub.last() == e[i as int]);
            if i == 0 {
                assert(out@ =~= "{\n"@ + env_entries(sub));
            } else {
                assert(out@ =~= before + ",\n"@ + env_entry(e[i as int].0, e[i as int].1));
                assert(out@ =~= "{\n"@ + env_entries(sub));
            }
        }
        i += 1;
    }
    assert(e.subrange(0, i as int) =~= e);
    out.append("\n        }");
    out
}

/// `open` + the escaped value + `">`, or nothing for an empty value.
pub open spec fn optional_tag(open: Seq<char>, value: Seq<char>) -> Seq<char> {
    if value.len() == 0 {
        Seq::empty()
    } else {
        open + html_escaped(value) + "\">"@
    }
}

/// One tag per item, in order: `open` + the escaped item + `close`.
pub open spec fn tag_list(open: Seq<char>, close: Seq<char>, items: Seq<Seq<char>>) -> Seq<char>
    decreases items.len(),
{
    if items.len() == 0 {
        Seq::empty()
    } else {
        tag_list(open, close, items.drop_last()) + open + html_escaped(items.last()) + close
    }
}

fn push_optional_tag(out: &mut String, open: &str, value: &String)
    ensures
        final(out)@ == old(out)@ + optional_tag(open@, value@),
{
    if !value.as_str().is_empty() {
        out.append(open);
        let v = escape_html(value.as_str());
        out.append(v.as_str());
        out.append("\">");
    } else {
        assert(old(out)@ + optional_tag(open@, value@) =~= old(out)@);
    }
}

fn push_tag_list(out: &mut String, open: &str, close: &str, items: &Vec<String>)
    ensures
        final(out)@ == old(out)@ + tag_list(open@, close@, strings_view(items@)),
{
    let ghost start = out@;
    let ghost all = strings_view(items@);
    let mut i: usize = 0;
    while i < items.len()
        invariant
            i <= items@.len(),
            all == strings_view(items@),
            out@ == start + tag_list(open@, close@, all.subrange(0, i as int)),
        decreases items@.len() - i,
    {
        out.append(open);
        let v = escape_html(items[i].as_str());
        out.append(v.as_str());
        out.append(close);
        proof {
            let sub = all.subrange(0, i + 1);
            assert(sub.drop_last() =~= all.subrange(0, i as int));
            assert(sub.last() == items@[i as int]@);
            assert(out@ =~= start + tag_list(open@, close@, sub));
        }
        i += 1;
    }
    assert(all.subrange(0, i as int) =~= all);
}

/// The `<script>` element that assigns the environment object.
pub open spec fn env_script(env: Seq<(Seq<char>, Seq<char>)>) -> Seq<char> {
    "<script>// Inject environment variables\nwindow.ENV = "@ + env_object(env) + ";</script>"@
}

/// Everything from the document type up to the end of the head's content.
pub open spec fn head_content(a: AttributesView, env: Seq<(Seq<char>, Seq<char>)>) -> Seq<char> {
    "<!DOCTYPE html>"@
        + "<html lang=\"en\"><head><meta charset=\"UTF-8\"><meta name=\"viewport\" content=\"width=device-width, initial-scale=1.0\"><title>"@
        + html_escaped(a.title) + "</title>"@
        + optional_tag("<link rel=\"icon\" href=\""@, a.favicon)
        + optional_tag("<meta name=\"author\" content=\""@, a.author)
        + optional_tag("<meta name=\"description\" content=\""@, a.description)
        + tag_list("<script type=\"module\" src=\""@, "\"></script>"@, a.scripts)
        + tag_list("<link rel=\"stylesheet\" href=\""@, "\">"@, a.styles)
        + env_script(env)
}

/// An application-shell document.
pub open spec fn spa_document(a: AttributesView, env: Seq<(Seq<char>, Seq<char>)>) -> Seq<char> {
    head_content(a, env) + "</head><body><div id=\"app\"></div></body></html>"@
}

/// A static document around an extracted `<body>` element.
pub open spec fn static_document(
    a: AttributesView,
    env: Seq<(Seq<char>, Seq<char>)>,
    body: Seq<char>,
) -> Seq<char> {
    head_content(a, env) + "</head>"@ + body + "</html>"@
}

fn render_head(a: &PageAttributes, env: &Vec<(String, String)>) -> (r: String)
    ensures
        r@ == head_content(a@, env_view(env@)),
{
    let mut out = doctype();
    out.append(
        "<html lang=\"en\"><head><meta charset=\"UTF-8\"><meta name=\"viewport\" content=\"width=device-width, initial-scale=1.0\"><title>",
    );
    let t = escape_html(a.title.as_str());
    out.append(t.as_str());
    out.append("</title>");
    push_optional_tag(&mut out, "<link rel=\"icon\" href=\"", &a.favicon);
    push_optional_tag(&mut out, "<meta name=\"author\" content=\"", &a.author);
    push_optional_tag(&mut out, "<meta name=\"description\" content=\"", &a.description);
    push_tag_list(&mut out, "<script type=\"module\" src=\"", "\"></script>", &a.scripts);
    push_tag_list(&mut out, "<link rel=\"stylesheet\" href=\"", "\">", &a.styles);
    out.append("<script>// Inject environment variables\nwindow.ENV = ");
    let obj = generate_env_object(env);
    out.append(obj.as_str());
    out.append(";</script>");
    out
}

/// Renders an application-shell page with the configuration's defaults and environment.
pub fn generate_html(config: &Config, page: &SpaPage) -> (r: String)
    ensures
        r@ == spa_document(
            resolve_spec(config.default_page_attributes@, page.attributes@),
            env_view(config.env@),
        ),
{
    let a = resolve(&config.default_page_attributes, &page.attributes);
    let mut out = render_head(&a, &config.env);
    out.append("</head><body><div id=\"app\"></div></body></html>");
    out
}


/// `inner` wrapped in a bare `<body>` element.
pub open spec fn wrap_body(inner: Seq<char>) -> Seq<char> {
    "<body>"@ + inner + "</body>"@
}

/// `h` with the span from the first `<head` to the end of the first `</head>`
/// removed, where both occur.
pub open spec fn strip_head(h: Seq<char>) -> Seq<char> {
    match (find_spec(h, "<head"@), find_spec(h, "</head>"@)) {
        (Some(a), Some(b)) => h.subrange(0, a) + h.subrange(b + "</head>"@.len(), h.len() as int),
        _ => h,
    }
}

/// The body of a document without a head: the trimmed content between the end of
/// the first `<body ...>` tag and the last `</body>` after it, or up to the end
/// where no such closing tag follows, or the whole trimmed text where there is
/// no complete opening tag.
pub open spec fn body_spec(h: Seq<char>) -> Seq<char> {
    match find_spec(h, "<body"@) {
        Some(bs) => match find_from(h, ">"@, bs) {
            Some(k) => match rfind_spec(h, "</body>"@) {
                Some(be) if be >= k + 1 => wrap_body(trim_spec(h.subrange(k + 1, be))),
                _ => wrap_body(trim_spec(h.subrange(k + 1, h.len() as int))),
            },
            None => wrap_body(trim_spec(h)),
        },
        None => wrap_body(trim_spec(h)),
    }
}

/// The `<body>` element that a static page keeps from its source document.
pub open spec fn extract_body_spec(html: Seq<char>) -> Seq<char> {
    body_spec(strip_head(trim_spec(html)))
}

fn wrapped(v: &Vec<char>, from: usize, to: usize) -> (r: String)
    requires
        from <= to <= v@.len(),
    ensures
        r@ == wrap_body(trim_spec(v@.subrange(from as int, to as int))),
{
    let mut out = String::from_str("<body>");
    let inner = trim_range(v, from, to);
    out.append(inner.as_str());
    out.append("</body>");
    out
}

fn body_from_chars(h: &Vec<char>) -> (r: String)
    ensures
        r@ == body_spec(h@),
{
    let open = chars_of("<body");
    let gt = chars_of(">");
    let close = chars_of("</body>");
    let n = h.len();
    proof {
        reveal_strlit(">");
    }
    assert(h@.subrange(0, h@.len() as int) =~= h@);
    match find_after(h, &open, 0) {
        Some(bs) => match find_after(h, &gt, bs) {
            Some(k) => {
                let p = k + 1;
                match rfind(h, &close) {
                    Some(be) => {
                        if be >= p {
                            wrapped(h, p, be)
                        } else {
                            wrapped(h, p, n)
                        }
                    },
                    None => wrapped(h, p, n),
                }
            },
            None => wrapped(h, 0, n),
        },
        None => wrapped(h, 0, n),
    }
}

/// The body element of a document that holds no head section.
pub fn extract_body_from_clean_html(html: &str) -> (r: String)
    ensures
        r@ == body_spec(html@),
{
    let v = chars_of(html);
    body_from_chars(&v)
}

/// The body element of an author-supplied document, its head section removed.
pub fn extract_body_content(html: &str) -> (r: String)
    ensures
        r@ == extract_body_spec(html@),
{
    let t = trim(html);
    let v = chars_of(t.as_str());
    let head_open = chars_of("<head");
    let head_close = chars_of("</head>");
    let n = v.len();
    proof {
        reveal_strlit("</head>");
    }
    match find_after(&v, &head_open, 0) {
        Some(a) => match find_after(&v, &head_close, 0) {
            Some(b) => {
                let mut w = sub_chars(&v, 0, a);
                let tail = sub_chars(&v, b + head_close.len(), n);
                let mut i: usize = 0;
                while i < tail.len()
                    invariant
                        i <= tail@.len(),
                        w@ == v@.subrange(0, a as int) + tail@.subrange(0, i as int),
                    decreases tail@.len() - i,
                {
                    w.push(tail[i]);
                    assert(w@ =~= v@.subrange(0, a as int) + tail@.subrange(0, i + 1));
                    i += 1;
                }
                assert(tail@.subrange(0, i as int) =~= tail@);
                body_from_chars(&w)
            },
            None => body_from_chars(&v),
        },
        None => body_from_chars(&v),
    }
}

/// Renders a static page around the body of its source document.
pub fn process_html_page(config: &Config, page: &HtmlPage, content: &str) -> (r: String)
    ensures
        r@ == static_document(
            resolve_spec(config.default_page_attributes@, page.attributes@),
            env_view(config.env@),
            extract_body_spec(content@),
        ),
{
    let a = resolve(&config.default_page_attributes, &page.attributes);
    let mut out = render_head(&a, &config.env);
    out.append("</head>");
    let body = extract_body_content(content);
    out.append(body.as_str());
    out.append("</html>");
    out
}

/// Number of `*` characters in `p`.
pub open spec fn star_count(p: Seq<char>) -> nat
    decreases p.len(),
{
    if p.len() == 0 {
        0
    } else {
        star_count(p.drop_last()) + if p.last() == '*' {
            1nat
        } else {
            0nat
        }
    }
}

/// A pattern with exactly one `*` matches names that begin with the text before
/// it and end with the text after it; any other pattern matches names that
/// contain it.
pub open spec fn glob_spec(p: Seq<char>, name: Seq<char>) -> bool {
    if star_count(p) == 1 {
        let k = find_spec(p, seq!['*'])->0;
        starts_with_spec(name, p.subrange(0, k)) && ends_with_spec(
            name,
            p.subrange(k + 1, p.len() as int),
        )
    } else {
        contains_spec(name, p)
    }
}

proof fn lemma_star_found(p: Seq<char>, i: int)
    requires
        0 <= i <= p.len(),
        star_count(p.subrange(0, i)) > 0,
    ensures
        find_spec(p, seq!['*']) is Some,
    decreases i,
{
    let s = p.subrange(0, i);
    assert(s.drop_last() =~= p.subrange(0, i - 1));
    if p[i - 1] == '*' {
        assert(p.subrange(i - 1, i) =~= seq!['*']);
        lemma_find_reaches(p, seq!['*'], 0, i - 1);
    } else {
        lemma_star_found(p, i - 1);
    }
}

proof fn lemma_find_reaches(h: Seq<char>, n: Seq<char>, from: int, i: int)
    requires
        0 <= from <= i,
        crate::text::occurs_at(h, n, i),
    ensures
        find_from(h, n, from) is Some,
    decreases i - from,
{
    if !crate::text::occurs_at(h, n, from) {
        lemma_find_reaches(h, n, from + 1, i);
    }
}

/// Whether a file name matches a page's pattern.
pub fn glob_match(pattern: &str, filename: &str) -> (r: bool)
    ensures
        r == glob_spec(pattern@, filename@),
{
    let p = chars_of(pattern);
    let f = chars_of(filename);
    let mut count: usize = 0;
    let mut i: usize = 0;
    while i < p.len()
        invariant
            i <= p@.len(),
            count == star_count(p@.subrange(0, i as int)),
            count <= i,
        decreases p@.len() - i,
    {
        assert(p@.subrange(0, i + 1).drop_last() =~= p@.subrange(0, i as int));
        if p[i] == '*' {
            count += 1;
        }
        i += 1;
    }
    assert(p@.subrange(0, i as int) =~= p@);
    if count == 1 {
        let star = vec!['*'];
        assert(star@ =~= seq!['*']);
        proof {
            lemma_star_found(p@, p@.len() as int);
        }
        match find_after(&p, &star, 0) {
            Some(k) => {
                let prefix = sub_chars(&p, 0, k);
                let suffix = sub_chars(&p, k + 1, p.len());
                starts_with(&f, &prefix) && ends_with(&f, &suffix)
            },
            None => false,
        }
    } else {
        contains(&f, &p)
    }
}

/// Whether a directory entry is a source file selected by a page's pattern.
pub open spec fn selected_spec(pattern: Seq<char>, name: Seq<char>) -> bool {
    ends_with_spec(name, ".html"@) && glob_spec(pattern, name)
}

/// `src/` followed by each selected entry, in listing order.
pub open spec fn select_sources(pattern: Seq<char>, entries: Seq<Seq<char>>) -> Seq<Seq<char>>
    decreases entries.len(),
{
    if entries.len() == 0 {
        Seq::empty()
    } else {
        select_sources(pattern, entries.drop_last()) + if selected_spec(pattern, entries.last()) {
            seq!["src/"@ + entries.last()]
        } else {
            Seq::empty()
        }
    }
}

/// The source files of an HTML page, given the names of the entries of `src/`:
/// with a pattern, every matching `.html` entry; without one, `src/<page>.html`
/// where that entry exists, and nothing where it does not.
pub open spec fn html_files_spec(
    page_name: Seq<char>,
    pattern: Option<Seq<char>>,
    entries: Seq<Seq<char>>,
) -> Seq<Seq<char>> {
    match pattern {
        Some(p) => select_sources(p, entries),
        None => if entries.contains(page_name + ".html"@) {
            seq!["src/"@ + page_name + ".html"@]
        } else {
            Seq::empty()
        },
    }
}

pub open spec fn pattern_view(page: HtmlPage) -> Option<Seq<char>> {
    match page.pattern {
        Some(p) => Some(p@),
        None => None,
    }
}

/// Locates the source files of an HTML page among the entries of `src/`.
/// An empty result means that the page is skipped for this build.
pub fn find_html_files(page_name: &str, page: &HtmlPage, entries: &Vec<String>) -> (r: Vec<String>)
    ensures
        strings_view(r@) == html_files_spec(page_name@, pattern_view(*page), strings_view(entries@)),
{
    let ghost es = strings_view(entries@);
    let mut r: Vec<String> = Vec::new();
    match &page.pattern {
        Some(pattern) => {
            let html = chars_of(".html");
            let mut i: usize = 0;
            while i < entries.len()
                invariant
                    i <= entries@.len(),
                    es == strings_view(entries@),
                    html@ == ".html"@,
                    strings_view(r@) == select_sources(pattern@, es.subrange(0, i as int)),
                decreases entries@.len() - i,
            {
                let name = &entries[i];
                let nv = chars_of(name.as_str());
                let ghost before = r@;
                if ends_with(&nv, &html) && glob_match(pattern.as_str(), name.as_str()) {
                    let mut path = String::from_str("src/");
                    path.append(name.as_str());
                    r.push(path);
                    assert(strings_view(r@) =~= strings_view(before) + seq!["src/"@ + name@]);
                } else {
                    assert(strings_view(r@) =~= strings_view(before) + Seq::<Seq<char>>::empty());
                }
                assert(es.subrange(0, i + 1).drop_last() =~= es.subrange(0, i as int));
                i += 1;
            }
            assert(es.subrange(0, i as int) =~= es);
        },
        None => {
            let mut file = String::from_str(page_name);
            file.append(".html");
            let mut found = false;
            let mut i: usize = 0;
            while i < entries.len()
                invariant
                    i <= entries@.len(),
                    es == strings_view(entries@),
                    found == exists|j: int| 0 <= j < i && es[j] == file@,
                decreases entries@.len() - i,
            {
                assert(es[i as int] == entries@[i as int]@);
                if entries[i] == file {
                    found = true;
                }
                i += 1;
            }
            if found {
                let mut path = String::from_str("src/");
                path.append(file.as_str());
                assert(path@ =~= "src/"@ + page_name@ + ".html"@);
                r.push(path);
                assert(strings_view(r@) =~= seq!["src/"@ + page_name@ + ".html"@]);
            } else {
                assert(!es.contains(file@));
                assert(strings_view(r@) =~= Seq::<Seq<char>>::empty());
            }
        },
    }
    r
}

} // verus!
