use interactor::minify::{
    is_kept_as_is, minified_name, page_settings, plan_from_parts, plan_page, try_plan_page,
    MinifySettings, PagePlan, PlanError,
};

fn minify(directory: &str, file_name: &str) -> Result<PagePlan, PlanError> {
    Ok(PagePlan::Minify { directory: directory.to_string(), file_name: file_name.to_string() })
}

fn minified(directory: &str, file_name: &str) -> PagePlan {
    PagePlan::Minify { directory: directory.to_string(), file_name: file_name.to_string() }
}

fn some(text: &str) -> Option<String> {
    Some(text.to_string())
}

#[test]
fn a_page_is_minified_beside_itself() {
    assert_eq!(plan_page("/site/index.html"), minified("/site", "index.min.html"));
    assert_eq!(plan_page("/site/sub/about.htm"), minified("/site/sub", "about.min.html"));
}

#[test]
fn scripts_and_style_sheets_are_published_as_they_are() {
    assert_eq!(plan_page("/site/app.js"), PagePlan::AsIs);
    assert_eq!(plan_page("/site/style.css"), PagePlan::AsIs);
    assert_eq!(plan_page("app.js"), PagePlan::AsIs);
}

#[test]
fn extensions_are_compared_exactly_when_planning() {
    assert_eq!(plan_page("/site/app.JS"), minified("/site", "app.min.html"));
    assert_eq!(plan_page("/site/style.Css"), minified("/site", "style.min.html"));
    assert_eq!(plan_page("/site/app.jsx"), minified("/site", "app.min.html"));
    assert_eq!(plan_page("/site/js"), minified("/site", "js.min.html"));
    assert_eq!(plan_page("/site/.js"), minified("/site", ".js.min.html"));
}

#[test]
fn files_named_as_minified_are_published_as_they_are() {
    assert_eq!(plan_page("/site/index.min.html"), PagePlan::AsIs);
    assert_eq!(plan_page("/site/a.min.b.html"), PagePlan::AsIs);
    assert_eq!(plan_page("/site/.min.html"), PagePlan::AsIs);
    assert_eq!(plan_page("/site/x.min."), PagePlan::AsIs);
}

#[test]
fn the_minified_mark_counts_in_the_file_name_only() {
    assert_eq!(plan_page("/a.min.b/index.html"), minified("/a.min.b", "index.min.html"));
    assert_eq!(plan_page("/site/min.html"), minified("/site", "min.min.html"));
    assert_eq!(plan_page("/site/a.min"), minified("/site", "a.min.html"));
    assert_eq!(plan_page("/site/a.MIN.html"), minified("/site", "a.MIN.min.html"));
    assert_eq!(plan_page("/site/amin.html"), minified("/site", "amin.min.html"));
}

#[test]
fn the_stem_is_the_name_without_its_last_extension() {
    assert_eq!(plan_page("/site/page"), minified("/site", "page.min.html"));
    assert_eq!(plan_page("/site/archive.tar.gz"), minified("/site", "archive.tar.min.html"));
    assert_eq!(plan_page("/site/.hidden"), minified("/site", ".hidden.min.html"));
    assert_eq!(plan_page("/site/é à.html"), minified("/site", "é à.min.html"));
}

#[test]
fn a_relative_page_is_minified_into_the_empty_directory() {
    assert_eq!(plan_page("index.html"), minified("", "index.min.html"));
    assert_eq!(plan_page("pages/index.html"), minified("pages", "index.min.html"));
}

#[test]
fn a_path_without_a_file_name_cannot_be_minified() {
    assert_eq!(try_plan_page("/"), Err(PlanError::NoFileName));
    assert_eq!(try_plan_page(""), Err(PlanError::NoFileName));
    assert_eq!(try_plan_page(".."), Err(PlanError::NoFileName));
    assert_eq!(try_plan_page("/site/.."), Err(PlanError::NoFileName));
}

#[test]
fn plans_are_made_from_the_parts_of_a_path() {
    assert_eq!(
        plan_from_parts(&some("html"), &some("index.html"), some("index"), some("/site")),
        minify("/site", "index.min.html")
    );
    assert_eq!(
        plan_from_parts(&some("js"), &some("app.js"), some("app"), some("/site")),
        Ok(PagePlan::AsIs)
    );
    assert_eq!(plan_from_parts(&some("css"), &None, None, None), Ok(PagePlan::AsIs));
    assert_eq!(
        plan_from_parts(&some("html"), &some("a.min.html"), None, None),
        Ok(PagePlan::AsIs)
    );
    assert_eq!(
        plan_from_parts(&None, &None, None, some("/site")),
        Err(PlanError::NoFileName)
    );
    assert_eq!(
        plan_from_parts(&some("html"), &some("index.html"), None, some("/site")),
        Err(PlanError::NoFileName)
    );
    assert_eq!(
        plan_from_parts(&some("html"), &some("index.html"), some("index"), None),
        Err(PlanError::NoParent)
    );
    assert_eq!(plan_from_parts(&None, &some("page"), some("page"), some("")), minify("", "page.min.html"));
}

#[test]
fn kept_as_it_is_by_extension_or_mark() {
    assert!(is_kept_as_is(&some("js"), &some("app.js")));
    assert!(is_kept_as_is(&some("css"), &some("style.css")));
    assert!(is_kept_as_is(&some("js"), &None));
    assert!(is_kept_as_is(&some("html"), &some("index.min.html")));
    assert!(is_kept_as_is(&None, &some(".min.")));
    assert!(is_kept_as_is(&None, &some("a.min.b")));
    assert!(!is_kept_as_is(&some("html"), &some("index.html")));
    assert!(!is_kept_as_is(&None, &None));
    assert!(!is_kept_as_is(&None, &some("")));
    assert!(!is_kept_as_is(&None, &some(".min")));
    assert!(!is_kept_as_is(&None, &some("min.")));
    assert!(!is_kept_as_is(&None, &some(".mi.n.")));
    assert!(!is_kept_as_is(&some("JS"), &some("app.JS")));
    assert!(!is_kept_as_is(&some(""), &some("js")));
}

#[test]
fn minified_name_appends_the_suffix() {
    assert_eq!(minified_name("index"), "index.min.html");
    assert_eq!(minified_name(""), ".min.html");
    assert_eq!(minified_name("a.b"), "a.b.min.html");
}

#[test]
fn pages_are_minified_without_comments_and_with_styles_and_scripts() {
    assert_eq!(
        page_settings(),
        MinifySettings { keep_comments: false, minify_css: true, minify_js: true }
    );
}

#[test]
fn a_minified_copy_is_not_minified_again() {
    for page in ["/site/index.html", "/site/page", "about.htm", "/site/.hidden", "/a/b/c.d.e"] {
        assert_eq!(try_plan_page(page), Ok(plan_page(page)));
        let (directory, file_name) = match plan_page(page) {
            PagePlan::Minify { directory, file_name } => (directory, file_name),
            other => panic!("{:?}", other),
        };
        let copy = if directory.is_empty() {
            file_name
        } else {
            format!("{}/{}", directory, file_name)
        };
        assert_eq!(plan_page(&copy), PagePlan::AsIs, "{:?}", copy);
    }
}

#[test]
fn a_plan_is_looked_for_before_it_is_made() {
    assert_eq!(try_plan_page("/site/index.html"), minify("/site", "index.min.html"));
    assert_eq!(try_plan_page("/site/app.js"), Ok(PagePlan::AsIs));
    assert_eq!(try_plan_page("/site/index.min.html"), Ok(PagePlan::AsIs));
    assert_eq!(try_plan_page("index.html"), minify("", "index.min.html"));
    assert_eq!(try_plan_page("/"), Err(PlanError::NoFileName));
    for page in ["/site/index.html", "/site/app.js", "a.min.b", "page"] {
        assert_eq!(try_plan_page(page), Ok(plan_page(page)));
    }
}
