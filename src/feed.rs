//! What the two feed renderers share.
use vstd::prelude::*;

verus! {

/// One saved article, as a feed shows it.
pub struct FeedItem {
    pub title: String,
    pub link: String,
    pub pub_date: String,
    pub guid: String,
}

/// The first instant, in seconds after the Unix epoch, that an HTTP date
/// cannot show: the start of the year 9999.
pub const DATE_LIMIT: u64 = 253402300800;

/// The IMF-fixdate text of the instant `secs` seconds after the Unix epoch,
/// such as `Fri, 15 May 2015 15:34:21 GMT`.
pub uninterp spec fn http_date_text(secs: u64) -> Seq<char>;

/// Relies on httpdate::fmt_http_date, which panics from the year 9999 on.
#[verifier::external_body]
pub(crate) fn http_date(secs: u64) -> (r: String)
    requires
        secs < DATE_LIMIT,
    ensures
        r@ == http_date_text(secs),
{
    httpdate::fmt_http_date(std::time::UNIX_EPOCH + std::time::Duration::from_secs(secs))
}

/// A feed renderer: a head, one entry per item, and a tail.
pub trait FeedWriter: Sized {
    /// The text written so far.
    spec fn text(&self) -> Seq<char>;

    /// The head of a feed with these title, description, link and date.
    spec fn head(title: Seq<char>, description: Seq<char>, link: Seq<char>, date: Seq<char>) -> Seq<
        char,
    >;

    /// The entry for one item.
    spec fn entry(item: FeedItem) -> Seq<char>;

    /// What closes the feed.
    spec fn tail() -> Seq<char>;

    /// The media type of the rendered feed.
    spec fn media_type() -> Seq<char>;

    fn content_type() -> (r: &'static str)
        ensures
            r@ == Self::media_type(),
    ;

    /// Starts a feed, dated `secs` seconds after the Unix epoch.
    fn new(title: &str, description: &str, link: &str, secs: u64) -> (r: Self)
        requires
            secs < DATE_LIMIT,
        ensures
            r.text() == Self::head(title@, description@, link@, http_date_text(secs)),
    ;

    /// Adds an entry for each item, in order.
    fn write_items(&mut self, items: &Vec<FeedItem>)
        ensures
            final(self).text() == old(self).text() + entries(items@, |i: FeedItem| Self::entry(i)),
    ;

    /// The finished feed.
    fn finish(self) -> (r: String)
        ensures
            r@ == self.text() + Self::tail(),
    ;
}

/// The entries that `entry` writes for `items`, one after the other.
pub open spec fn entries(items: Seq<FeedItem>, entry: spec_fn(FeedItem) -> Seq<char>) -> Seq<char>
    decreases items.len(),
{
    if items.len() == 0 {
        Seq::empty()
    } else {
        entries(items.drop_last(), entry) + entry(items.last())
    }
}

/// Renders a whole feed of `items`, dated `secs` seconds after the Unix
/// epoch.
pub fn build_feed<W: FeedWriter>(
    items: &Vec<FeedItem>,
    name: &str,
    description: &str,
    link: &str,
    secs: u64,
) -> (r: String)
    requires
        secs < DATE_LIMIT,
    ensures
        r@ == W::head(name@, description@, link@, http_date_text(secs)) + entries(
            items@,
            |i: FeedItem| W::entry(i),
        ) + W::tail(),
{
    let mut writer = W::new(name, description, link, secs);
    writer.write_items(items);
    writer.finish()
}

} // verus!
