//! The feed as an HTML page.
use vstd::prelude::*;
use vstd::string::*;
use crate::feed::{entries, http_date, http_date_text, FeedItem, FeedWriter};

verus! {

/// The page's style sheet.
pub const STYLE: &'static str = "body{font-family:sans-serif;max-width:48rem;margin:0 auto;padding:1rem}.feed-info{color:#555}.feed-items{list-style:none;padding:0}.feed-item{border-bottom:1px solid #ddd;padding:.5rem 0}.published-date{color:#777;font-size:.9em}.delete-btn{margin-top:.3rem}";

/// Renders the feed as an HTML page, with a delete button per article.
pub struct HtmlWriter {
    buffer: String,
}

pub open spec fn html_head(title: Seq<char>, description: Seq<char>, link: Seq<char>, date: Seq<
    char,
>) -> Seq<char> {
    "<!DOCTYPE html><html lang=\"en\"><head><meta charset=\"UTF-8\"><meta name=\"viewport\" content=\"width=device-width, initial-scale=1.0\"><title>"@
        + title + "</title><style>"@ + STYLE@ + "</style></head><body><h1>"@ + title
        + "</h1><h3>"@ + description + "</h3><div class=\"feed-info\"><p>Feed: <a href=\""@ + link
        + "\">"@ + link + "</a></p><p>Last Updated: "@ + date + "</p></div><ul class=\"feed-items\">"@
}

pub open spec fn html_entry(item: FeedItem) -> Seq<char> {
    "<li><article class=\"feed-item\"><h2><a href=\""@ + item.link@ + "\">"@ + item.title@
        + "</a></h2><div class=\"published-date\"> Published: "@ + item.pub_date@
        + "</div><form method=\"POST\" action=\"/delete\" style=\"display: inline;\"><input type=\"hidden\" name=\"guid\" value=\""@
        + item.guid@
        + "\"><button type=\"submit\" class=\"delete-btn\">Delete</button></form></article></li>"@
}

impl FeedWriter for HtmlWriter {
    closed spec fn text(&self) -> Seq<char> {
        self.buffer@
    }

    open spec fn head(title: Seq<char>, description: Seq<char>, link: Seq<char>, date: Seq<char>) -> Seq<
        char,
    > {
        html_head(title, description, link, date)
    }

    open spec fn entry(item: FeedItem) -> Seq<char> {
        html_entry(item)
    }

    open spec fn tail() -> Seq<char> {
        "</ul></body></html>"@
    }

    open spec fn media_type() -> Seq<char> {
        "text/html"@
    }

    fn content_type() -> (r: &'static str) {
        "text/html"
    }

    fn new(title: &str, description: &str, link: &str, secs: u64) -> (r: Self) {
        let date = http_date(secs);
        let mut buffer = String::from_str(
            "<!DOCTYPE html><html lang=\"en\"><head><meta charset=\"UTF-8\"><meta name=\"viewport\" content=\"width=device-width, initial-scale=1.0\"><title>",
        );
        buffer.append(title);
        buffer.append("</title><style>");
        buffer.append(STYLE);
        buffer.append("</style></head><body><h1>");
        buffer.append(title);
        buffer.append("</h1><h3>");
        buffer.append(description);
        buffer.append("</h3><div class=\"feed-info\"><p>Feed: <a href=\"");
        buffer.append(link);
        buffer.append("\">");
        buffer.append(link);
        buffer.append("</a></p><p>Last Updated: ");
        buffer.append(date.as_str());
        buffer.append("</p></div><ul class=\"feed-items\">");
        assert(buffer@ =~= html_head(title@, description@, link@, http_date_text(secs)));
        HtmlWriter { buffer }
    }

    fn write_items(&mut self, items: &Vec<FeedItem>) {
        let mut i: usize = 0;
        while i < items.len()
            invariant
                i <= items@.len(),
                self.buffer@ == old(self).buffer@ + entries(items@.subrange(0, i as int), |i: FeedItem| Self::entry(i)),
            decreases items@.len() - i,
        {
            let item = &items[i];
            self.buffer.append("<li><article class=\"feed-item\"><h2><a href=\"");
            self.buffer.append(item.link.as_str());
            self.buffer.append("\">");
            self.buffer.append(item.title.as_str());
            self.buffer.append("</a></h2><div class=\"published-date\"> Published: ");
            self.buffer.append(item.pub_date.as_str());
            self.buffer.append(
                "</div><form method=\"POST\" action=\"/delete\" style=\"display: inline;\"><input type=\"hidden\" name=\"guid\" value=\"",
            );
            self.buffer.append(item.guid.as_str());
            self.buffer.append(
                "\"><button type=\"submit\" class=\"delete-btn\">Delete</button></form></article></li>",
            );
            proof {
                let done = items@.subrange(0, i + 1);
                assert(done.drop_last() =~= items@.subrange(0, i as int));
                assert(done.last() == items@[i as int]);
            }
            i += 1;
            assert(self.buffer@ =~= old(self).buffer@ + entries(items@.subrange(0, i as int), |i: FeedItem| Self::entry(i)));
        }
        assert(items@.subrange(0, items@.len() as int) =~= items@);
    }

    fn finish(self) -> (r: String) {
        let mut buffer = self.buffer;
        buffer.append("</ul></body></html>");
        buffer
    }
}

impl HtmlWriter {
    /// The page text written so far.
    pub fn as_str(&self) -> (r: &str)
        ensures
            r@ == self.text(),
    {
        self.buffer.as_str()
    }
}

} // verus!
