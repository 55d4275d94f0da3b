use spider::aspect::Aspect;
use spider::auth::Authenticator;
use spider::config::{Config, LoginConfig};
use spider::errors::CrawlError;
use spider::parser::Parser;
use spider::task::TaskStatus;
use spider::writer::Writer;

#[test]
fn parse_content_extracts_hrefs_in_document_order() {
    let parser = Parser::new();
    let body = r#"<html><body>
        <a href="one.html">one</a>
        <p>text</p>
        <a href="http://b/two">two</a>
        <a>no href</a>
    </body></html>"#;
    let (links, _, title, text) = parser
        .parse_content(body, "http://a/")
        .unwrap();
    assert_eq!(links, vec!["one.html", "http://b/two"]);
    assert!(title.is_some());
    assert!(text.is_some());
}

#[test]
fn parse_content_extracts_title_of_a_content_page() {
    let parser = Parser::new();
    let body = "<html><head><title>My Title</title></head><body><article><p>A long enough paragraph of readable article text, so that content extraction has something to work with.</p></article></body></html>";
    let (_, is_content_page, title, text) = parser
        .parse_content(body, "http://a/article")
        .unwrap();
    assert!(is_content_page);
    assert_eq!(title.as_deref(), Some("My Title"));
    assert!(text.unwrap().contains("paragraph"));
}

#[test]
fn parse_content_with_unparseable_base_url_is_not_a_content_page() {
    let parser = Parser::new();
    let (links, is_content_page, title, text) = parser
        .parse_content(r#"<a href="x">x</a>"#, "no scheme here")
        .unwrap();
    assert_eq!(links, vec!["x"]);
    assert!(!is_content_page);
    assert_eq!(title.as_deref(), Some(""));
    assert_eq!(text.as_deref(), Some(""));
}

#[test]
fn parse_content_of_linkless_page_gives_no_links() {
    let parser = Parser::new();
    let (links, _, _, _) = parser.parse_content("plain text", "http://a/").unwrap();
    assert!(links.is_empty());
}

#[test]
fn writer_flattens_scheme_and_slashes() {
    let writer = Writer::new();
    assert_eq!(
        writer.output_path("http://example.com/path/page"),
        "output/http_example.com_path_page.md"
    );
}

#[test]
fn writer_keeps_other_characters() {
    let writer = Writer::new();
    assert_eq!(writer.output_path("a:b?c=d"), "output/a:b?c=d.md");
}

#[test]
fn authenticator_keeps_its_login_config() {
    let login = LoginConfig {
        username: "user".to_string(),
        password: "pw".to_string(),
        login_url: "http://a/login".to_string(),
    };
    let auth = Authenticator::new(&login);
    assert_eq!(auth.login_config.username, "user");
    assert_eq!(auth.login_config.login_url, "http://a/login");
}

#[test]
fn config_holds_its_fields() {
    let config = Config {
        start_urls: vec!["http://a/".to_string()],
        max_depth: 2,
        proxy: None,
        login: None,
    };
    assert_eq!(config.start_urls.len(), 1);
    assert_eq!(config.max_depth, 2);
    assert!(config.proxy.is_none());
    assert!(config.login.is_none());
}

#[test]
fn task_status_names() {
    assert_eq!(TaskStatus::Idle.to_string(), "Idle");
    assert_eq!(TaskStatus::Running.to_string(), "Running");
    assert_eq!(TaskStatus::Finished.to_string(), "Finished");
    assert_eq!(TaskStatus::Stopped.to_string(), "Stopped");
}

#[test]
fn crawl_error_names() {
    assert_eq!(CrawlError::InvalidInput.to_string(), "invalid input");
    assert_eq!(CrawlError::Storage.to_string(), "storage failure");
    assert_eq!(CrawlError::Fetch.to_string(), "fetch failure");
    assert_eq!(CrawlError::Extract.to_string(), "extract failure");
    assert_eq!(
        CrawlError::LinkResolution.to_string(),
        "link resolution failure"
    );
}

struct CountingAspect {
    calls: std::cell::Cell<u32>,
}

impl Aspect for CountingAspect {
    fn before(&self) {
        self.calls.set(self.calls.get() + 1);
    }

    fn after(&self) {
        self.calls.set(self.calls.get() + 1);
    }
}

#[test]
fn aspect_hooks_are_callable() {
    let aspect = CountingAspect {
        calls: std::cell::Cell::new(0),
    };
    aspect.before();
    aspect.after();
    assert_eq!(aspect.calls.get(), 2);
}
