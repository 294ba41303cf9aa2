//! What is published for a file: its bytes as they are, or minified.
//!
//! Scripts, style sheets and files that are named as minified already are
//! published as they are. Any other file is minified, and the minified page
//! is kept beside it under the name of its stem followed by `.min.html`.

use vstd::prelude::*;
use vstd::string::{StringExecFns, StringSliceAdditionalSpecFns};
use crate::path::{
    extension_of, file_name_of, file_stem_of, is_extension, parent_of, path_extension,
    path_file_name, path_file_stem, path_parent, spec_is_extension,
};

verus! {

/// How the bytes to publish are had from a file.
#[derive(Clone, Debug, PartialEq, Eq)]
pub enum PagePlan {
    /// Publish the bytes of the file as they are.
    AsIs,
    /// Minify the bytes of the file, write the result into `directory` under
    /// `file_name`, and publish it.
    Minify { directory: String, file_name: String },
}

/// The mathematical value of a [`PagePlan`].
pub enum PagePlanView {
    AsIs,
    Minify { directory: Seq<char>, file_name: Seq<char> },
}

impl View for PagePlan {
    type V = PagePlanView;

    open spec fn view(&self) -> PagePlanView {
        match self {
            PagePlan::AsIs => PagePlanView::AsIs,
            PagePlan::Minify { directory, file_name } => PagePlanView::Minify {
                directory: directory@,
                file_name: file_name@,
            },
        }
    }
}

/// Why a file cannot be minified.
#[derive(Clone, Copy, Debug, PartialEq, Eq, Structural)]
pub enum PlanError {
    /// The path has no file name to derive the minified name from.
    NoFileName,
    /// The path has no parent to keep the minified page in.
    NoParent,
}

/// How the minifier is set for a page.
#[derive(Clone, Copy, Debug, PartialEq, Eq, Structural)]
pub struct MinifySettings {
    /// Whether comments stay in the page.
    pub keep_comments: bool,
    /// Whether style sheets within the page are minified too.
    pub minify_css: bool,
    /// Whether scripts within the page are minified too.
    pub minify_js: bool,
}

/// The settings with which every page is minified: comments go, and the
/// styles and scripts within the page are minified with it.
pub fn page_settings() -> (settings: MinifySettings)
    ensures
        settings == (MinifySettings { keep_comments: false, minify_css: true, minify_js: true }),
{
    MinifySettings { keep_comments: false, minify_css: true, minify_js: true }
}

/// The bytes of `text` from `start` on, `len` of them.
pub open spec fn window(text: Seq<u8>, start: int, len: int) -> Seq<u8> {
    text.subrange(start, start + len)
}

/// Whether the bytes of `pattern` stand somewhere in `text`, one after the
/// other.
pub open spec fn occurs_in(pattern: Seq<u8>, text: Seq<u8>) -> bool {
    exists|start: int|
        0 <= start && start + pattern.len() <= text.len() && #[trigger] window(
            text,
            start,
            pattern.len() as int,
        ) == pattern
}

/// Calls `osstrtools::OsStrTools::contains_osstr` on the two texts.
///
/// Trusted: the crate looks at every run of bytes of `text` that is as long
/// as `pattern` and says whether one of them equals it. It panics on an empty
/// pattern, which is left out.
#[verifier::external_body]
pub(crate) fn contains_text(text: &str, pattern: &str) -> (found: bool)
    requires
        pattern@.len() > 0,
    ensures
        found == occurs_in(pattern.spec_bytes(), text.spec_bytes()),
{
    osstrtools::OsStrTools::contains_osstr(
        std::path::Path::new(text).as_os_str(),
        std::path::Path::new(pattern).as_os_str(),
    )
}

/// The mark within a file name that tells a minified file.
pub open spec fn minified_mark() -> Seq<char> {
    ".min."@
}

/// What is appended to the stem of a page to name its minified copy.
pub open spec fn minified_suffix() -> Seq<char> {
    ".min.html"@
}

/// Whether a file with this extension and this name is published as it is:
/// a script, a style sheet, or a file whose name holds the minified mark.
pub open spec fn spec_is_kept_as_is(extension: Option<Seq<char>>, name: Option<Seq<char>>) -> bool {
    ||| spec_is_extension(extension, "js"@)
    ||| spec_is_extension(extension, "css"@)
    ||| match name {
        Some(n) => occurs_in(
            vstd::utf8::encode_utf8(minified_mark()),
            vstd::utf8::encode_utf8(n),
        ),
        None => false,
    }
}

/// The plan for a file, from what its path is made of.
pub open spec fn plan_of(
    extension: Option<Seq<char>>,
    name: Option<Seq<char>>,
    stem: Option<Seq<char>>,
    parent: Option<Seq<char>>,
) -> Result<PagePlanView, PlanError> {
    if spec_is_kept_as_is(extension, name) {
        Ok(PagePlanView::AsIs)
    } else {
        match stem {
            None => Err(PlanError::NoFileName),
            Some(stem) => match parent {
                None => Err(PlanError::NoParent),
                Some(directory) => Ok(
                    PagePlanView::Minify { directory, file_name: stem + minified_suffix() },
                ),
            },
        }
    }
}

/// The plan for the file at `path`.
pub open spec fn spec_plan_page(path: Seq<char>) -> Result<PagePlanView, PlanError> {
    plan_of(path_extension(path), path_file_name(path), path_file_stem(path), path_parent(path))
}

/// The mathematical value of a plan or of the reason for its absence.
pub open spec fn plan_view(plan: Result<PagePlan, PlanError>) -> Result<PagePlanView, PlanError> {
    match plan {
        Ok(p) => Ok(p@),
        Err(e) => Err(e),
    }
}

/// Decides whether a file with this extension and this name is published as
/// it is.
pub fn is_kept_as_is(extension: &Option<String>, name: &Option<String>) -> (kept: bool)
    ensures
        kept == spec_is_kept_as_is(extension.deep_view(), name.deep_view()),
{
    let js = "js".to_owned();
    let css = "css".to_owned();
    if is_extension(extension, &js) || is_extension(extension, &css) {
        return true;
    }
    match name {
        Some(n) => {
            proof {
                reveal_strlit(".min.");
            }
            contains_text(n.as_str(), ".min.")
        },
        None => false,
    }
}

/// The name under which the minified copy of a page with this stem is kept.
pub fn minified_name(stem: &str) -> (name: String)
    ensures
        name@ == stem@ + minified_suffix(),
{
    stem.to_owned().concat(".min.html")
}

/// Makes the plan for a file from what its path is made of.
pub fn plan_from_parts(
    extension: &Option<String>,
    name: &Option<String>,
    stem: Option<String>,
    parent: Option<String>,
) -> (plan: Result<PagePlan, PlanError>)
    ensures
        plan_view(plan) == plan_of(
            extension.deep_view(),
            name.deep_view(),
            stem.deep_view(),
            parent.deep_view(),
        ),
{
    if is_kept_as_is(extension, name) {
        return Ok(PagePlan::AsIs);
    }
    match stem {
        None => Err(PlanError::NoFileName),
        Some(stem) => match parent {
            None => Err(PlanError::NoParent),
            Some(directory) => Ok(
                PagePlan::Minify { directory, file_name: minified_name(stem.as_str()) },
            ),
        },
    }
}

/// Looks for the plan for the file at `path`.
///
/// It fails with `NoFileName` where a file that is to be minified has no file
/// name to derive the name of its copy from, and with `NoParent` where it has
/// no parent to keep the copy in. Otherwise the plan is the one that
/// [`plan_page`] makes.
pub fn try_plan_page(path: &str) -> (plan: Result<PagePlan, PlanError>)
    ensures
        plan_view(plan) == spec_plan_page(path@),
{
    let extension = extension_of(path);
    let name = file_name_of(path);
    match plan_from_parts(&extension, &name, file_stem_of(path), parent_of(path)) {
        Ok(_) => Ok(plan_page(path)),
        Err(error) => Err(error),
    }
}

/// Makes the plan for the file at `path`.
///
/// The file must be one that is published as it is, or have a file name and
/// a parent. [`try_plan_page`] tells whether it is.
pub fn plan_page(path: &str) -> (plan: PagePlan)
    requires
        spec_plan_page(path@) is Ok,
    ensures
        spec_plan_page(path@) == Ok::<PagePlanView, PlanError>(plan@),
{
    let extension = extension_of(path);
    let name = file_name_of(path);
    match plan_from_parts(&extension, &name, file_stem_of(path), parent_of(path)) {
        Ok(plan) => plan,
        Err(_) => unreached(),
    }
}

/// The bytes of two texts written one after the other are the bytes of the
/// first followed by the bytes of the second.
proof fn lemma_encoding_of_concat(first: Seq<char>, second: Seq<char>)
    ensures
        vstd::utf8::encode_utf8(first + second) == vstd::utf8::encode_utf8(first)
            + vstd::utf8::encode_utf8(second),
    decreases first.len(),
{
    if first.len() == 0 {
        assert(first + second =~= second);
        assert(vstd::utf8::encode_utf8(first) =~= Seq::<u8>::empty());
        assert(vstd::utf8::encode_utf8(first) + vstd::utf8::encode_utf8(second)
            =~= vstd::utf8::encode_utf8(second));
    } else {
        lemma_encoding_of_concat(first.drop_first(), second);
        assert((first + second).drop_first() =~= first.drop_first() + second);
        assert((first + second)[0] == first[0]);
        assert(vstd::utf8::encode_utf8(first + second) =~= vstd::utf8::encode_utf8(first)
            + vstd::utf8::encode_utf8(second));
    }
}

/// The minified copy of a page is itself published as it is, whatever its
/// stem: a page is not minified twice.
pub proof fn lemma_minified_copy_is_kept_as_is(
    extension: Option<Seq<char>>,
    stem: Seq<char>,
    copy_stem: Option<Seq<char>>,
    parent: Option<Seq<char>>,
)
    ensures
        spec_is_kept_as_is(extension, Some(stem + minified_suffix())),
        plan_of(extension, Some(stem + minified_suffix()), copy_stem, parent) == Ok::<
            PagePlanView,
            PlanError,
        >(PagePlanView::AsIs),
{
    reveal_strlit(".min.");
    reveal_strlit(".min.html");
    let mark = minified_mark();
    let suffix = minified_suffix();
    let head = vstd::utf8::encode_utf8(stem);
    let pattern = vstd::utf8::encode_utf8(mark);
    let tail = vstd::utf8::encode_utf8(suffix);
    let text = vstd::utf8::encode_utf8(stem + suffix);
    lemma_encoding_of_concat(stem, suffix);
    assert(vstd::utf8::is_ascii_chars(mark));
    assert(vstd::utf8::is_ascii_chars(suffix));
    vstd::utf8::is_ascii_chars_encode_utf8(mark);
    vstd::utf8::is_ascii_chars_encode_utf8(suffix);
    assert(pattern.len() == 5);
    assert(tail.len() == 9);
    assert forall|i: int| 0 <= i < 5 implies pattern[i] == tail[i] by {
        assert(mark[i] == suffix[i]);
    }
    assert(window(text, head.len() as int, pattern.len() as int) =~= pattern);
}

} // verus!
