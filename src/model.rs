use vstd::prelude::*;
use vstd::string::StringExecFns;

verus! {

/// A subscribed feed: `feed_link` is the address that is polled, `link` the
/// site that the feed document advertises.
pub struct Feed {
    pub id: i64,
    pub feed_link: String,
    pub link: String,
    pub title: String,
    pub description: String,
}

pub struct FeedView {
    pub id: i64,
    pub feed_link: Seq<char>,
    pub link: Seq<char>,
    pub title: Seq<char>,
    pub description: Seq<char>,
}

impl View for Feed {
    type V = FeedView;

    open spec fn view(&self) -> FeedView {
        FeedView {
            id: self.id,
            feed_link: self.feed_link@,
            link: self.link@,
            title: self.title@,
            description: self.description@,
        }
    }
}

/// One entry of a feed, as it is recorded in the ledger.
pub struct Item {
    pub feed_id: i64,
    pub link: String,
    pub title: String,
    pub description: String,
}

pub struct ItemView {
    pub feed_id: i64,
    pub link: Seq<char>,
    pub title: Seq<char>,
    pub description: Seq<char>,
}

impl View for Item {
    type V = ItemView;

    open spec fn view(&self) -> ItemView {
        ItemView {
            feed_id: self.feed_id,
            link: self.link@,
            title: self.title@,
            description: self.description@,
        }
    }
}

/// An entry as the feed document gives it: any of its fields may be absent.
pub struct RawEntry {
    pub link: Option<String>,
    pub title: Option<String>,
    pub description: Option<String>,
}

pub struct RawEntryView {
    pub link: Option<Seq<char>>,
    pub title: Option<Seq<char>>,
    pub description: Option<Seq<char>>,
}

pub open spec fn opt_view(o: Option<String>) -> Option<Seq<char>> {
    match o {
        Some(s) => Some(s@),
        None => None,
    }
}

impl View for RawEntry {
    type V = RawEntryView;

    open spec fn view(&self) -> RawEntryView {
        RawEntryView {
            link: opt_view(self.link),
            title: opt_view(self.title),
            description: opt_view(self.description),
        }
    }
}

/// A parsed feed document: the channel's own fields and its entries in
/// document order.
pub struct Channel {
    pub link: String,
    pub title: String,
    pub description: String,
    pub entries: Vec<RawEntry>,
}

pub struct ChannelView {
    pub link: Seq<char>,
    pub title: Seq<char>,
    pub description: Seq<char>,
    pub entries: Seq<RawEntryView>,
}

pub open spec fn entries_view(v: Seq<RawEntry>) -> Seq<RawEntryView> {
    v.map_values(|e: RawEntry| e@)
}

impl View for Channel {
    type V = ChannelView;

    open spec fn view(&self) -> ChannelView {
        ChannelView {
            link: self.link@,
            title: self.title@,
            description: self.description@,
            entries: entries_view(self.entries@),
        }
    }
}

/// An entry that lacks its link, title or description.
pub struct MalformedEntry;

/// The item that an entry becomes for the given feed, if it has every field.
pub open spec fn entry_item(feed_id: i64, e: RawEntryView) -> Option<ItemView> {
    match (e.link, e.title, e.description) {
        (Some(l), Some(t), Some(d)) => Some(ItemView { feed_id, link: l, title: t, description: d }),
        _ => None,
    }
}

pub open spec fn nl() -> Seq<char> {
    seq!['\n']
}

/// The text that lists a feed: title, description and link, one per line.
pub open spec fn feed_text(f: FeedView) -> Seq<char> {
    f.title + nl() + f.description + nl() + f.link
}

pub open spec fn update_header() -> Seq<char> {
    seq!['Y', 'o', 'u', ' ', 'h', 'a', 'v', 'e', ' ', 'n', 'e', 'w', ' ', 'U', 'p', 'd', 'a', 't', 'e']
}

/// The notification for a new item of the feed titled `feed_title`.
pub open spec fn update_text(feed_title: Seq<char>, it: ItemView) -> Seq<char> {
    update_header() + nl() + feed_title + nl() + it.title + nl() + it.link
}

fn copy_string(s: &String) -> (r: String)
    ensures
        r@ == s@,
{
    s.clone()
}

impl Feed {
    /// A feed record; an absent id stands for 0.
    pub fn new(
        id: Option<i64>,
        feed_link: String,
        link: String,
        title: String,
        description: String,
    ) -> (r: Self)
        ensures
            r.id == (match id {
                Some(i) => i,
                None => 0i64,
            }),
            r.feed_link@ == feed_link@,
            r.link@ == link@,
            r.title@ == title@,
            r.description@ == description@,
    {
        let id = match id {
            Some(i) => i,
            None => 0,
        };
        Feed { id, feed_link, link, title, description }
    }

    /// A feed not yet stored (id 0) from a parsed document and the address it
    /// was fetched from.
    pub fn from_rss(channel: &Channel, feed_link: String) -> (r: Self)
        ensures
            r.id == 0,
            r.feed_link@ == feed_link@,
            r.link@ == channel.link@,
            r.title@ == channel.title@,
            r.description@ == channel.description@,
    {
        Feed {
            id: 0,
            feed_link,
            link: copy_string(&channel.link),
            title: copy_string(&channel.title),
            description: copy_string(&channel.description),
        }
    }

    /// The listing of this feed: title, description and link, one per line.
    pub fn to_string(&self) -> (r: String)
        ensures
            r@ == feed_text(self@),
    {
        let mut s = copy_string(&self.title);
        s.append("\n");
        s.append(self.description.as_str());
        s.append("\n");
        s.append(self.link.as_str());
        proof {
            reveal_strlit("\n");
        }
        s
    }
}

impl Item {
    pub fn new(feed_id: i64, link: String, title: String, description: String) -> (r: Self)
        ensures
            r.feed_id == feed_id,
            r.link@ == link@,
            r.title@ == title@,
            r.description@ == description@,
    {
        Item { feed_id, link, title, description }
    }

    /// The item that `entry` becomes for the feed `feed_id`; an entry without
    /// a link, a title or a description is malformed.
    pub fn from_rss_with_feed_id(feed_id: i64, entry: &RawEntry) -> (r: Result<Self, MalformedEntry>)
        ensures
            match r {
                Ok(it) => entry_item(feed_id, entry@) == Some(it@),
                Err(_) => entry_item(feed_id, entry@) is None,
            },
    {
        match (&entry.link, &entry.title, &entry.description) {
            (Some(l), Some(t), Some(d)) => Ok(
                Item {
                    feed_id,
                    link: copy_string(l),
                    title: copy_string(t),
                    description: copy_string(d),
                },
            ),
            _ => Err(MalformedEntry),
        }
    }

    pub fn copy(&self) -> (r: Self)
        ensures
            r@ == self@,
    {
        Item {
            feed_id: self.feed_id,
            link: copy_string(&self.link),
            title: copy_string(&self.title),
            description: copy_string(&self.description),
        }
    }

    /// The notification for this item, a new entry of the feed titled
    /// `feed_title`.
    pub fn update_message(&self, feed_title: &String) -> (r: String)
        ensures
            r@ == update_text(feed_title@, self@),
    {
        let mut s = String::from_str("You have new Update\n");
        s.append(feed_title.as_str());
        s.append("\n");
        s.append(self.title.as_str());
        s.append("\n");
        s.append(self.link.as_str());
        proof {
            reveal_strlit("\n");
            reveal_strlit("You have new Update\n");
            assert(update_header() + nl() =~= "You have new Update\n"@);
        }
        s
    }
}

/// Title and link of each of `entries` that has both, in document order.
pub open spec fn titled_links(entries: Seq<RawEntryView>) -> Seq<(Seq<char>, Seq<char>)>
    decreases entries.len(),
{
    if entries.len() == 0 {
        seq![]
    } else {
        let prev = titled_links(entries.drop_last());
        match (entries.last().title, entries.last().link) {
            (Some(t), Some(l)) => prev.push((t, l)),
            _ => prev,
        }
    }
}

pub open spec fn pairs_of(v: Seq<(String, String)>) -> Seq<(Seq<char>, Seq<char>)> {
    v.map_values(|p: (String, String)| (p.0@, p.1@))
}

impl Channel {
    /// Title and link of the first `count` entries, read straight from the
    /// document; an entry without a title or a link is left out.
    pub fn recent(&self, count: usize) -> (r: Vec<(String, String)>)
        ensures
            pairs_of(r@) == titled_links(self@.entries.take(
                if count <= self.entries@.len() { count as int } else { self.entries@.len() as int },
            )),
    {
        let n = if count <= self.entries.len() { count } else { self.entries.len() };
        let ghost es = self@.entries;
        let mut out: Vec<(String, String)> = Vec::new();
        let mut i: usize = 0;
        while i < n
            invariant
                0 <= i <= n <= self.entries@.len(),
                es == self@.entries,
                pairs_of(out@) == titled_links(es.take(i as int)),
            decreases n - i,
        {
            assert(es.take(i + 1).drop_last() =~= es.take(i as int));
            assert(es[i as int] == self.entries@[i as int]@);
            let ghost before = pairs_of(out@);
            match (&self.entries[i].title, &self.entries[i].link) {
                (Some(t), Some(l)) => {
                    out.push((copy_string(t), copy_string(l)));
                    assert(pairs_of(out@) =~= before.push((t@, l@)));
                },
                _ => {},
            }
            i += 1;
        }
        out
    }
}

} // verus!
