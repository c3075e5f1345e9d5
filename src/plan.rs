//! The build plan: which file each page is written to.
use vstd::prelude::*;

use crate::config::{strings_view, HtmlPage};
use crate::html::{find_html_files, html_files_spec, pattern_view};
use crate::text::{chars_of, rfind, rfind_spec, slice_string};

verus! {

/// `<output_dir>/<page_name>.html`, where an application-shell page is written.
pub fn spa_output_path(output_dir: &str, page_name: &str) -> (r: String)
    ensures
        r@ == output_dir@ + "/"@ + page_name@ + ".html"@,
{
    let mut r = String::from_str(output_dir);
    r.append("/");
    r.append(page_name);
    r.append(".html");
    r
}

/// The last component of a `/`-separated path.
pub open spec fn file_name_spec(path: Seq<char>) -> Seq<char> {
    match rfind_spec(path, seq!['/']) {
        Some(i) => path.subrange(i + 1, path.len() as int),
        None => path,
    }
}

/// `<output_dir>/<file name of source>`: each source file of a static page is
/// written under its own name, so that files matched by one pattern stay apart.
pub open spec fn static_output_spec(output_dir: Seq<char>, source: Seq<char>) -> Seq<char> {
    output_dir + "/"@ + file_name_spec(source)
}

pub fn static_output_path(output_dir: &str, source: &str) -> (r: String)
    ensures
        r@ == static_output_spec(output_dir@, source@),
{
    let v = chars_of(source);
    let slash = vec!['/'];
    assert(slash@ =~= seq!['/']);
    let n = v.len();
    let name = match rfind(&v, &slash) {
        Some(i) => slice_string(&v, i + 1, n),
        None => slice_string(&v, 0, n),
    };
    assert(v@.subrange(0, v@.len() as int) =~= v@);
    let mut r = String::from_str(output_dir);
    r.append("/");
    r.append(name.as_str());
    r
}

/// A static page's file to render: where it is read and where it is written.
#[derive(Debug, Clone)]
pub struct StaticJob {
    pub source: String,
    pub output: String,
}

/// The files to render for one static page, given the entries of `src/`.
/// An empty plan means the page has no source this time and is skipped.
pub fn plan_html_page(output_dir: &str, page_name: &str, page: &HtmlPage, entries: &Vec<String>) -> (r: Vec<
    StaticJob,
>)
    ensures
        ({
            let files = html_files_spec(page_name@, pattern_view(*page), strings_view(entries@));
            &&& r@.len() == files.len()
            &&& forall|i: int|
                0 <= i < r@.len() ==> #[trigger] r@[i].source@ == files[i] && r@[i].output@
                    == static_output_spec(output_dir@, files[i])
        }),
{
    let files = find_html_files(page_name, page, entries);
    let ghost fs = strings_view(files@);
    let mut r: Vec<StaticJob> = Vec::new();
    let mut i: usize = 0;
    while i < files.len()
        invariant
            i <= files@.len(),
            fs == strings_view(files@),
            r@.len() == i,
            forall|j: int|
                0 <= j < i ==> #[trigger] r@[j].source@ == fs[j] && r@[j].output@
                    == static_output_spec(output_dir@, fs[j]),
        decreases files@.len() - i,
    {
        let output = static_output_path(output_dir, files[i].as_str());
        r.push(StaticJob { source: files[i].clone(), output });
        i += 1;
    }
    r
}

/// A page without a pattern whose `<page>.html` is not among the entries of
/// `src/` has no file to render: it is skipped, and the build goes on.
pub proof fn lemma_missing_source_skipped(page_name: Seq<char>, entries: Seq<Seq<char>>)
    requires
        !entries.contains(page_name + ".html"@),
    ensures
        html_files_spec(page_name, None, entries).len() == 0,
{
}

} // verus!
