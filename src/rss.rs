//! The feed as RSS 2.0.
use vstd::prelude::*;
use vstd::string::*;
use crate::feed::{entries, http_date, http_date_text, FeedItem, FeedWriter};

verus! {

/// Renders the feed as an RSS 2.0 document.
pub struct RssWriter {
    buffer: String,
}

pub open spec fn rss_head(title: Seq<char>, description: Seq<char>, link: Seq<char>, date: Seq<
    char,
>) -> Seq<char> {
    "<rss version=\"2.0\"><channel><title>"@ + title + "</title><description>"@ + description
        + "</description><link>"@ + link + "</link><pubDate>"@ + date
        + "</pubDate><lastBuildDate>"@ + date + "</lastBuildDate><ttl>0</ttl>"@
}

pub open spec fn rss_entry(item: FeedItem) -> Seq<char> {
    "<item><title>"@ + item.title@ + "</title><link>"@ + item.link@ + "</link><pubDate>"@
        + item.pub_date@ + "</pubDate><guid>"@ + item.guid@ + "</guid></item>"@
}

impl FeedWriter for RssWriter {
    closed spec fn text(&self) -> Seq<char> {
        self.buffer@
    }

    open spec fn head(title: Seq<char>, description: Seq<char>, link: Seq<char>, date: Seq<char>) -> Seq<
        char,
    > {
        rss_head(title, description, link, date)
    }

    open spec fn entry(item: FeedItem) -> Seq<char> {
        rss_entry(item)
    }

    open spec fn tail() -> Seq<char> {
        "</channel></rss>"@
    }

    open spec fn media_type() -> Seq<char> {
        "application/rss+xml"@
    }

    fn content_type() -> (r: &'static str) {
        "application/rss+xml"
    }

    fn new(title: &str, description: &str, link: &str, secs: u64) -> (r: Self) {
        let date = http_date(secs);
        let mut buffer = String::from_str("<rss version=\"2.0\"><channel><title>");
        buffer.append(title);
        buffer.append("</title><description>");
        buffer.append(description);
        buffer.append("</description><link>");
        buffer.append(link);
        buffer.append("</link><pubDate>");
        buffer.append(date.as_str());
        buffer.append("</pubDate><lastBuildDate>");
        buffer.append(date.as_str());
        buffer.append("</lastBuildDate><ttl>0</ttl>");
        assert(buffer@ =~= rss_head(title@, description@, link@, http_date_text(secs)));
        RssWriter { buffer }
    }

    fn write_items(&mut self, items: &Vec<FeedItem>) {
        let mut i: usize = 0;
        while i < items.len()
            invariant
                i <= items@.len(),
                self.buffer@ == old(self).buffer@ + entries(items@.subrange(0, i as int), |i: FeedItem| Self::entry(i)),
            decreases items@.len() - i,
        {
            let item = &items[i];
            self.buffer.append("<item><title>");
            self.buffer.append(item.title.as_str());
            self.buffer.append("</title><link>");
            self.buffer.append(item.link.as_str());
            self.buffer.append("</link><pubDate>");
            self.buffer.append(item.pub_date.as_str());
            self.buffer.append("</pubDate><guid>");
            self.buffer.append(item.guid.as_str());
            self.buffer.append("</guid></item>");
            proof {
                let done = items@.subrange(0, i + 1);
                assert(done.drop_last() =~= items@.subrange(0, i as int));
                assert(done.last() == items@[i as int]);
            }
            i += 1;
            assert(self.buffer@ =~= old(self).buffer@ + entries(items@.subrange(0, i as int), |i: FeedItem| Self::entry(i)));
        }
        assert(items@.subrange(0, items@.len() as int) =~= items@);
    }

    fn finish(self) -> (r: String) {
        let mut buffer = self.buffer;
        buffer.append("</channel></rss>");
        buffer
    }
}

impl RssWriter {
    /// The feed text written so far.
    pub fn as_str(&self) -> (r: &str)
        ensures
            r@ == self.text(),
    {
        self.buffer.as_str()
    }
}

} // verus!
