use paket::address::parse_address;
use paket::article::{article_guid, html_title, pdf_title, unsupported_title};
use paket::feed::{build_feed, FeedItem, FeedWriter};
use paket::html::{HtmlWriter, STYLE};
use paket::rss::RssWriter;
use paket::tls::init_tls_certs;

fn items() -> Vec<FeedItem> {
    vec![
        FeedItem {
            title: "One".to_string(),
            link: "http://a.example/1".to_string(),
            pub_date: "Mon, 01 Jan 2024 00:00:00 GMT".to_string(),
            guid: "g1".to_string(),
        },
        FeedItem {
            title: "Two".to_string(),
            link: "http://a.example/2".to_string(),
            pub_date: "Tue, 02 Jan 2024 00:00:00 GMT".to_string(),
            guid: "g2".to_string(),
        },
    ]
}

#[test]
fn rss_feed() {
    let feed = build_feed::<RssWriter>(&items(), "My Paket", "My links", "http://feed.example/", 0);
    assert_eq!(
        feed,
        "<rss version=\"2.0\"><channel><title>My Paket</title><description>My links</description><link>http://feed.example/</link><pubDate>Thu, 01 Jan 1970 00:00:00 GMT</pubDate><lastBuildDate>Thu, 01 Jan 1970 00:00:00 GMT</lastBuildDate><ttl>0</ttl><item><title>One</title><link>http://a.example/1</link><pubDate>Mon, 01 Jan 2024 00:00:00 GMT</pubDate><guid>g1</guid></item><item><title>Two</title><link>http://a.example/2</link><pubDate>Tue, 02 Jan 2024 00:00:00 GMT</pubDate><guid>g2</guid></item></channel></rss>"
    );
    assert_eq!(RssWriter::content_type(), "application/rss+xml");
}

#[test]
fn html_feed() {
    let feed = build_feed::<HtmlWriter>(&items().into_iter().take(1).collect(), "T", "D", "L", 1431704061);
    let expected = format!(
        "<!DOCTYPE html><html lang=\"en\"><head><meta charset=\"UTF-8\"><meta name=\"viewport\" content=\"width=device-width, initial-scale=1.0\"><title>T</title><style>{STYLE}</style></head><body><h1>T</h1><h3>D</h3><div class=\"feed-info\"><p>Feed: <a href=\"L\">L</a></p><p>Last Updated: Fri, 15 May 2015 15:34:21 GMT</p></div><ul class=\"feed-items\"><li><article class=\"feed-item\"><h2><a href=\"http://a.example/1\">One</a></h2><div class=\"published-date\"> Published: Mon, 01 Jan 2024 00:00:00 GMT</div><form method=\"POST\" action=\"/delete\" style=\"display: inline;\"><input type=\"hidden\" name=\"guid\" value=\"g1\"><button type=\"submit\" class=\"delete-btn\">Delete</button></form></article></li></ul></body></html>"
    );
    assert_eq!(feed, expected);
    assert_eq!(HtmlWriter::content_type(), "text/html");
}

#[test]
fn empty_feed() {
    let feed = build_feed::<RssWriter>(&Vec::new(), "n", "d", "l", 86400);
    assert!(feed.ends_with("<ttl>0</ttl></channel></rss>"));
    assert!(feed.contains("<pubDate>Fri, 02 Jan 1970 00:00:00 GMT</pubDate>"));
}

#[test]
fn article_titles() {
    let url = parse_address("http://example.com/docs/paper.pdf").unwrap();
    assert_eq!(pdf_title(&url), "[PDF] paper.pdf");
    assert_eq!(unsupported_title(&url), "[???] http://example.com/docs/paper.pdf");
    let root = parse_address("http://example.com").unwrap();
    assert_eq!(pdf_title(&root), "[PDF] ");
    let opaque = parse_address("data:application/pdf,abc").unwrap();
    assert_eq!(pdf_title(&opaque), "[PDF] data:application/pdf,abc");
    assert_eq!(html_title(&url, Some("Found".to_string())), "Found");
    assert_eq!(html_title(&url, None), "http://example.com/docs/paper.pdf");
}

#[test]
fn guids() {
    let a = parse_address("http://example.com/a").unwrap();
    let b = parse_address("http://example.com/b").unwrap();
    let g = article_guid(&a);
    assert_eq!(g.len(), 36);
    assert_eq!(g.matches('-').count(), 4);
    assert_eq!(g, article_guid(&a));
    assert_ne!(g, article_guid(&b));
    assert_ne!(g, a.href);
}

#[test]
fn tls_trust_builds() {
    let trust = init_tls_certs();
    let again = init_tls_certs();
    assert!(trust.config().alpn_protocols.is_empty());
    assert!(again.config().alpn_protocols.is_empty());
}
