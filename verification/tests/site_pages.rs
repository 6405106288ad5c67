use hachha_dev::cache::Timeout;
use hachha_dev::date::Date;
use hachha_dev::pages::blog::{Blog, BlogsPages};
use hachha_dev::pages::error::{ErrorPage, WORST_CASE_404};
use hachha_dev::pages::index::IndexPage;
use hachha_dev::pages::links::{Link, LinksPage};
use hachha_dev::pages::projects::{Project, ProjectsPage};
use hachha_dev::pages::Pages;
use hachha_dev::site::{SiteConfig, Templates, DEFAULT_CACHE_TIMEOUT_NANOS};
use hachha_dev::util::{EmbeddedData, RenderedHtml};

fn date(year: i32, month: u8, day: u8) -> Date {
    Date { year, month, day }
}

fn blog(name: &str, uri: &str, d: Date) -> Blog {
    Blog {
        name: String::from(name),
        blurb: String::new(),
        date: d,
        uri: String::from(uri),
        markdown: String::new(),
    }
}

#[test]
fn blogs_are_listed_newest_first() {
    let articles = vec![
        blog("old", "old-post", date(2021, 3, 1)),
        blog("new", "new-post", date(2024, 11, 30)),
        blog("middle", "middle-post", date(2022, 7, 15)),
    ];
    let pages = BlogsPages::new(
        String::from("<index>"),
        String::from("<article>"),
        articles,
        String::from("<feed/>"),
    );
    let order: Vec<&str> = pages.blogs().iter().map(|b| b.name.as_str()).collect();
    assert_eq!(order, vec!["new", "middle", "old"]);
}

#[test]
fn get_blog_finds_by_uri() {
    let pages = BlogsPages::new(
        String::from("<index>"),
        String::from("<article>"),
        vec![
            blog("a", "first", date(2021, 1, 1)),
            blog("b", "second", date(2022, 1, 1)),
        ],
        String::from("<feed/>"),
    );
    let found = pages.get_blog("first").expect("blog under uri 'first'");
    assert_eq!(found.name, "a");
    assert!(pages.get_blog("missing").is_none());
}

#[test]
fn links_are_listed_newest_first() {
    let links = vec![
        Link {
            title: String::from("later"),
            description: String::new(),
            url: String::from("https://example.org/b"),
            date: date(2023, 6, 2),
        },
        Link {
            title: String::from("earlier"),
            description: String::new(),
            url: String::from("https://example.org/a"),
            date: date(2023, 6, 1),
        },
    ];
    let page = LinksPage::new(String::from("<links>"), links, String::from("<feed/>"));
    let order: Vec<&str> = page.links().iter().map(|l| l.title.as_str()).collect();
    assert_eq!(order, vec!["later", "earlier"]);
}

#[test]
fn projects_are_listed_newest_first() {
    let projects = vec![
        Project {
            name: String::from("one"),
            description: String::new(),
            date: date(2019, 5, 5),
            image: None,
            links: vec![(String::from("source"), String::from("https://example.org"))],
        },
        Project {
            name: String::from("two"),
            description: String::new(),
            date: date(2020, 5, 5),
            image: Some(String::from("two.png")),
            links: Vec::new(),
        },
    ];
    let page = ProjectsPage::new(String::from("<projects>"), projects);
    let order: Vec<&str> = page.projects().iter().map(|p| p.name.as_str()).collect();
    assert_eq!(order, vec!["two", "one"]);
    assert_eq!(page.raw_index(), "<projects>");
}

#[test]
fn pages_gathers_all_components() {
    let pages = Pages::new(
        IndexPage::new(String::from("<index>"), vec![String::from("hi")]),
        ErrorPage::new(String::from("<404>")),
        BlogsPages::new(
            String::from("<blogs>"),
            String::from("<article>"),
            Vec::new(),
            String::from("<feed/>"),
        ),
        LinksPage::new(String::from("<links>"), Vec::new(), String::from("<feed/>")),
        ProjectsPage::new(String::from("<projects>"), Vec::new()),
    );
    assert_eq!(pages.index.raw_page(), "<index>");
    assert_eq!(pages.error.raw_page(), "<404>");
    assert_eq!(pages.blogs.index(), "<blogs>");
    assert_eq!(pages.links.index(), "<links>");
    assert_eq!(pages.projects.raw_index(), "<projects>");
}

#[test]
fn get_phrase_picks_a_phrase() {
    let page = IndexPage::new(
        String::from("<index>"),
        vec![String::from("only phrase")],
    );
    assert_eq!(page.get_phrase(), "only phrase");

    let empty = IndexPage::new(String::from("<index>"), Vec::new());
    assert_eq!(empty.get_phrase(), "Uh oh!");

    let several = IndexPage::new(
        String::from("<index>"),
        vec![String::from("a"), String::from("b"), String::from("c")],
    );
    let picked = several.get_phrase();
    assert!(picked == "a" || picked == "b" || picked == "c");
}

#[test]
fn worst_case_page_is_fixed() {
    assert_eq!(WORST_CASE_404, "<html>404</html>");
}

#[test]
fn templates_look_up_by_name() {
    let templates = Templates::new(vec![
        (String::from("base.html"), String::from("<html>")),
        (String::from("footer.html"), String::from("<footer>")),
    ]);
    assert_eq!(
        templates.get("footer.html").map(String::as_str),
        Some("<footer>")
    );
    assert!(templates.get("header.html").is_none());
    assert_eq!(templates.entries().len(), 2);
}

#[test]
fn default_config() {
    let config = SiteConfig::default();
    assert_eq!(config.port, 8443);
    assert!(config.log.is_none());
    assert_eq!(
        config.cache_timeout,
        Timeout::Nanos(DEFAULT_CACHE_TIMEOUT_NANOS)
    );
    // Five minutes, in nanoseconds.
    assert_eq!(DEFAULT_CACHE_TIMEOUT_NANOS, 300_000_000_000);
    assert!(!config.debug);
}

#[test]
fn embedded_data_holds_bytes() {
    assert_eq!(EmbeddedData::empty().len(), 0);
    let data = EmbeddedData::new(vec![1, 2, 3]);
    assert_eq!(data.as_bytes(), &[1, 2, 3]);
    let copy = data.clone();
    assert_eq!(copy.as_bytes(), data.as_bytes());
}

#[test]
fn rendered_html_holds_text() {
    let html = RenderedHtml::new(String::from("<html>hi</html>"));
    assert_eq!(html.as_str(), "<html>hi</html>");
    assert_eq!(html.clone().as_str(), "<html>hi</html>");
}
