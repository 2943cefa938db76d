use crate::fetch::FetchError;
use crate::model::{
    entries_view, entry_item, update_text, Channel, ChannelView, Feed, FeedView, Item, ItemView,
    RawEntry, RawEntryView,
};
use vstd::prelude::*;

verus! {

/// The subscribed feeds and the ledger of every item ever recorded.
pub struct Store {
    feeds: Vec<Feed>,
    items: Vec<Item>,
}

/// A feed with this `feed_link` is already subscribed.
#[derive(Clone, Copy, Debug, PartialEq, Eq, Structural)]
pub struct AlreadyExists;

/// The outcome of a subscription request.
#[derive(Clone, Copy, Debug, PartialEq, Eq, Structural)]
pub enum SubscribeResult {
    Created(i64),
    AlreadyExists,
    FetchFailed(FetchError),
}

pub open spec fn feeds_of(v: Seq<Feed>) -> Seq<FeedView> {
    v.map_values(|f: Feed| f@)
}

pub open spec fn items_of(v: Seq<Item>) -> Seq<ItemView> {
    v.map_values(|i: Item| i@)
}

/// Feed ids are the positions in insertion order, counted from 1.
pub open spec fn ids_in_order(fs: Seq<FeedView>) -> bool {
    forall|i: int| 0 <= i < fs.len() ==> #[trigger] fs[i].id == i + 1
}

pub open spec fn links_unique(fs: Seq<FeedView>) -> bool {
    forall|i: int, j: int|
        0 <= i < fs.len() && 0 <= j < fs.len() && i != j ==> #[trigger] fs[i].feed_link
            != #[trigger] fs[j].feed_link
}

pub open spec fn has_link(fs: Seq<FeedView>, u: Seq<char>) -> bool {
    exists|i: int| 0 <= i < fs.len() && #[trigger] fs[i].feed_link == u
}

/// The feeds after `f` is stored as a new subscription.
pub open spec fn added(fs: Seq<FeedView>, f: FeedView) -> Seq<FeedView> {
    fs.push(FeedView { id: (fs.len() + 1) as i64, ..f })
}

/// The feed that has the id `id`, if any.
pub open spec fn feed_of(fs: Seq<FeedView>, id: i64) -> Option<FeedView> {
    if 1 <= id <= fs.len() {
        Some(fs[id - 1])
    } else {
        None
    }
}

pub open spec fn has_title(items: Seq<ItemView>, t: Seq<char>) -> bool {
    exists|i: int| 0 <= i < items.len() && #[trigger] items[i].title == t
}

/// The items that `entries` bring to a ledger holding `ledger`, in document
/// order: each well-formed entry whose title is neither in the ledger nor
/// taken by an earlier new item.
pub open spec fn new_items(feed_id: i64, ledger: Seq<ItemView>, entries: Seq<RawEntryView>) -> Seq<
    ItemView,
>
    decreases entries.len(),
{
    if entries.len() == 0 {
        seq![]
    } else {
        let prev = new_items(feed_id, ledger, entries.drop_last());
        match entry_item(feed_id, entries.last()) {
            Some(it) => if has_title(ledger + prev, it.title) {
                prev
            } else {
                prev.push(it)
            },
            None => prev,
        }
    }
}

pub open spec fn fetched_view(p: (i64, Result<Channel, FetchError>)) -> (i64, Result<ChannelView, FetchError>) {
    (
        p.0,
        match p.1 {
            Ok(c) => Ok(c@),
            Err(e) => Err(e),
        },
    )
}

pub open spec fn fetched_of(v: Seq<(i64, Result<Channel, FetchError>)>) -> Seq<(i64, Result<ChannelView, FetchError>)> {
    v.map_values(|p: (i64, Result<Channel, FetchError>)| fetched_view(p))
}

/// The items that one poll cycle records, over the fetch outcomes in order;
/// a failed fetch, or one for an unknown feed, contributes nothing.
pub open spec fn cycle_items(
    fs: Seq<FeedView>,
    ledger: Seq<ItemView>,
    fetched: Seq<(i64, Result<ChannelView, FetchError>)>,
) -> Seq<ItemView>
    decreases fetched.len(),
{
    if fetched.len() == 0 {
        seq![]
    } else {
        let prev = cycle_items(fs, ledger, fetched.drop_last());
        let (id, res) = fetched.last();
        match (feed_of(fs, id), res) {
            (Some(_), Ok(c)) => prev + new_items(id, ledger + prev, c.entries),
            _ => prev,
        }
    }
}

pub open spec fn messages_for(title: Seq<char>, items: Seq<ItemView>) -> Seq<Seq<char>> {
    items.map_values(|it: ItemView| update_text(title, it))
}

/// The notifications of one poll cycle, one for each item that it records.
pub open spec fn cycle_messages(
    fs: Seq<FeedView>,
    ledger: Seq<ItemView>,
    fetched: Seq<(i64, Result<ChannelView, FetchError>)>,
) -> Seq<Seq<char>>
    decreases fetched.len(),
{
    if fetched.len() == 0 {
        seq![]
    } else {
        let prev = cycle_items(fs, ledger, fetched.drop_last());
        let prev_msgs = cycle_messages(fs, ledger, fetched.drop_last());
        let (id, res) = fetched.last();
        match (feed_of(fs, id), res) {
            (Some(f), Ok(c)) => prev_msgs + messages_for(f.title, new_items(id, ledger + prev, c.entries)),
            _ => prev_msgs,
        }
    }
}

pub open spec fn strings_of(v: Seq<String>) -> Seq<Seq<char>> {
    v.map_values(|s: String| s@)
}

/// The feed that a subscription to `url` stores, before it has an id.
pub open spec fn channel_feed(c: ChannelView, url: Seq<char>) -> FeedView {
    FeedView { id: 0, feed_link: url, link: c.link, title: c.title, description: c.description }
}

pub proof fn lemma_has_title_concat(a: Seq<ItemView>, b: Seq<ItemView>, t: Seq<char>)
    ensures
        has_title(a + b, t) == (has_title(a, t) || has_title(b, t)),
{
    if has_title(a + b, t) {
        let i = choose|i: int| 0 <= i < (a + b).len() && #[trigger] (a + b)[i].title == t;
        if i >= a.len() {
            assert(b[i - a.len()].title == t);
        }
    }
    if has_title(a, t) {
        let i = choose|i: int| 0 <= i < a.len() && #[trigger] a[i].title == t;
        assert((a + b)[i].title == t);
    }
    if has_title(b, t) {
        let i = choose|i: int| 0 <= i < b.len() && #[trigger] b[i].title == t;
        assert((a + b)[i + a.len()].title == t);
    }
}

fn title_in(v: &Vec<Item>, t: &String) -> (r: bool)
    ensures
        r == has_title(items_of(v@), t@),
{
    let mut i: usize = 0;
    while i < v.len()
        invariant
            0 <= i <= v@.len(),
            forall|k: int| 0 <= k < i ==> (#[trigger] v@[k]).title@ != t@,
        decreases v@.len() - i,
    {
        if v[i].title == *t {
            assert(items_of(v@)[i as int].title == t@);
            return true;
        }
        i += 1;
    }
    proof {
        assert forall|k: int| 0 <= k < items_of(v@).len() implies #[trigger] items_of(v@)[k].title
            != t@ by {
            assert(v@[k].title@ != t@);
        }
    }
    false
}

fn link_in(v: &Vec<Feed>, u: &String) -> (r: bool)
    ensures
        r == has_link(feeds_of(v@), u@),
{
    let mut i: usize = 0;
    while i < v.len()
        invariant
            0 <= i <= v@.len(),
            forall|k: int| 0 <= k < i ==> (#[trigger] v@[k]).feed_link@ != u@,
        decreases v@.len() - i,
    {
        if v[i].feed_link == *u {
            assert(feeds_of(v@)[i as int].feed_link == u@);
            return true;
        }
        i += 1;
    }
    proof {
        assert forall|k: int| 0 <= k < feeds_of(v@).len() implies #[trigger] feeds_of(v@)[k].feed_link
            != u@ by {
            assert(v@[k].feed_link@ != u@);
        }
    }
    false
}

impl Store {
    pub closed spec fn feeds_view(&self) -> Seq<FeedView> {
        feeds_of(self.feeds@)
    }

    pub closed spec fn items_view(&self) -> Seq<ItemView> {
        items_of(self.items@)
    }

    pub open spec fn wf(&self) -> bool {
        &&& ids_in_order(self.feeds_view())
        &&& links_unique(self.feeds_view())
    }

    /// A store with no feed and no item.
    pub fn new() -> (r: Self)
        ensures
            r.wf(),
            r.feeds_view() == Seq::<FeedView>::empty(),
            r.items_view() == Seq::<ItemView>::empty(),
    {
        let r = Store { feeds: Vec::new(), items: Vec::new() };
        assert(r.feeds_view() =~= Seq::<FeedView>::empty());
        assert(r.items_view() =~= Seq::<ItemView>::empty());
        r
    }

    /// Stores `feed` as a new subscription with the next id, unless a feed
    /// with its `feed_link` is already stored.
    pub fn save_feed(&mut self, feed: Feed) -> (r: Result<i64, AlreadyExists>)
        requires
            old(self).wf(),
            old(self).feeds_view().len() < i64::MAX,
        ensures
            final(self).wf(),
            final(self).items_view() == old(self).items_view(),
            r is Ok <==> !has_link(old(self).feeds_view(), feed@.feed_link),
            r matches Ok(id) ==> id == old(self).feeds_view().len() + 1,
            r is Ok ==> final(self).feeds_view() == added(old(self).feeds_view(), feed@),
            r is Err ==> final(self).feeds_view() == old(self).feeds_view(),
    {
        if link_in(&self.feeds, &feed.feed_link) {
            return Err(AlreadyExists);
        }
        assert(self.feeds@.len() == self.feeds_view().len());
        let n = self.feeds.len() as u64;
        let id = (n + 1) as i64;
        let ghost fs = self.feeds_view();
        self.feeds.push(Feed { id, ..feed });
        assert(self.feeds_view() =~= added(fs, feed@));
        Ok(id)
    }

    /// Every subscribed feed, in insertion order.
    pub fn list_subscribed(&self) -> (r: &Vec<Feed>)
        ensures
            feeds_of(r@) == self.feeds_view(),
    {
        &self.feeds
    }

    /// Every recorded item, in the order of recording.
    pub fn ledger(&self) -> (r: &Vec<Item>)
        ensures
            items_of(r@) == self.items_view(),
    {
        &self.items
    }

    /// The address polled for the feed `feed_id`; `None` where no feed has
    /// that id.
    pub fn get_feed_link(&self, feed_id: i64) -> (r: Option<String>)
        requires
            self.wf(),
        ensures
            match feed_of(self.feeds_view(), feed_id) {
                Some(f) => r matches Some(s) && s@ == f.feed_link,
                None => r is None,
            },
    {
        if 1 <= feed_id && feed_id as u64 <= self.feeds.len() as u64 {
            let s = self.feeds[(feed_id - 1) as usize].feed_link.clone();
            Some(s)
        } else {
            None
        }
    }

    /// Whether an item with this exact title was ever recorded, for any feed.
    pub fn search_item_with_title(&self, title: &String) -> (r: bool)
        ensures
            r == has_title(self.items_view(), title@),
    {
        title_in(&self.items, title)
    }

    /// Appends `item` to the ledger; its title must not be recorded yet.
    pub fn save_item(&mut self, item: Item)
        requires
            !has_title(old(self).items_view(), item@.title),
        ensures
            final(self).items_view() == old(self).items_view().push(item@),
            final(self).feeds_view() == old(self).feeds_view(),
    {
        self.items.push(item);
        assert(self.items_view() =~= old(self).items_view().push(item@));
    }

    fn feed_title(&self, feed_id: i64) -> (r: Option<String>)
        ensures
            match feed_of(self.feeds_view(), feed_id) {
                Some(f) => r matches Some(s) && s@ == f.title,
                None => r is None,
            },
    {
        if 1 <= feed_id && feed_id as u64 <= self.feeds.len() as u64 {
            let s = self.feeds[(feed_id - 1) as usize].title.clone();
            Some(s)
        } else {
            None
        }
    }

    /// The items that `entries` would bring to the ledger for the feed
    /// `feed_id`, in document order; the ledger is only read.
    pub fn new_entries(&self, feed_id: i64, entries: &Vec<RawEntry>) -> (r: Vec<Item>)
        ensures
            items_of(r@) == new_items(feed_id, self.items_view(), entries_view(entries@)),
    {
        let ghost es = entries_view(entries@);
        let mut out: Vec<Item> = Vec::new();
        let mut i: usize = 0;
        while i < entries.len()
            invariant
                0 <= i <= entries@.len(),
                es == entries_view(entries@),
                items_of(out@) == new_items(feed_id, self.items_view(), es.take(i as int)),
            decreases entries@.len() - i,
        {
            assert(es.take(i + 1).drop_last() =~= es.take(i as int));
            let ghost prev = items_of(out@);
            match Item::from_rss_with_feed_id(feed_id, &entries[i]) {
                Ok(it) => {
                    proof {
                        lemma_has_title_concat(self.items_view(), prev, it@.title);
                    }
                    if !title_in(&self.items, &it.title) && !title_in(&out, &it.title) {
                        out.push(it);
                        assert(items_of(out@) =~= prev.push(it@));
                    }
                },
                Err(_) => {},
            }
            i += 1;
        }
        assert(es.take(entries@.len() as int) =~= es);
        out
    }

    /// Records every new item of `entries` for the feed `feed_id`, each one
    /// checked against the ledger as it stands after the earlier ones, and
    /// hands the recorded items back in document order.
    pub fn poll_feed(&mut self, feed_id: i64, entries: &Vec<RawEntry>) -> (r: Vec<Item>)
        ensures
            items_of(r@) == new_items(feed_id, old(self).items_view(), entries_view(entries@)),
            final(self).items_view() == old(self).items_view() + items_of(r@),
            final(self).feeds_view() == old(self).feeds_view(),
    {
        let ghost ledger = self.items_view();
        let ghost es = entries_view(entries@);
        let mut out: Vec<Item> = Vec::new();
        let mut i: usize = 0;
        assert(self.items_view() =~= ledger + items_of(out@));
        while i < entries.len()
            invariant
                0 <= i <= entries@.len(),
                es == entries_view(entries@),
                ledger == old(self).items_view(),
                self.feeds_view() == old(self).feeds_view(),
                items_of(out@) == new_items(feed_id, ledger, es.take(i as int)),
                self.items_view() == ledger + items_of(out@),
            decreases entries@.len() - i,
        {
            assert(es.take(i + 1).drop_last() =~= es.take(i as int));
            let ghost prev = items_of(out@);
            match Item::from_rss_with_feed_id(feed_id, &entries[i]) {
                Ok(it) => {
                    if !self.search_item_with_title(&it.title) {
                        self.save_item(it.copy());
                        out.push(it);
                        assert(items_of(out@) =~= prev.push(it@));
                        assert(self.items_view() =~= ledger + items_of(out@));
                    }
                },
                Err(_) => {},
            }
            i += 1;
        }
        assert(es.take(entries@.len() as int) =~= es);
        out
    }

    /// One poll cycle over the fetch outcomes, given as feed id and result in
    /// the order the feeds were fetched. A failed fetch, or an id that names
    /// no feed, is skipped; every other feed has its new items recorded. The
    /// result holds one notification for each recorded item, in the order of
    /// recording, and every item is in the ledger before its notification is
    /// handed out.
    pub fn poll_cycle(&mut self, fetched: &Vec<(i64, Result<Channel, FetchError>)>) -> (r: Vec<String>)
        ensures
            final(self).items_view() == old(self).items_view() + cycle_items(
                old(self).feeds_view(),
                old(self).items_view(),
                fetched_of(fetched@),
            ),
            strings_of(r@) == cycle_messages(
                old(self).feeds_view(),
                old(self).items_view(),
                fetched_of(fetched@),
            ),
            final(self).feeds_view() == old(self).feeds_view(),
    {
        let ghost fs = self.feeds_view();
        let ghost ledger = self.items_view();
        let ghost fv = fetched_of(fetched@);
        let mut msgs: Vec<String> = Vec::new();
        let mut k: usize = 0;
        assert(self.items_view() =~= ledger + cycle_items(fs, ledger, fv.take(0)));
        assert(strings_of(msgs@) =~= cycle_messages(fs, ledger, fv.take(0)));
        while k < fetched.len()
            invariant
                0 <= k <= fetched@.len(),
                fv == fetched_of(fetched@),
                fs == old(self).feeds_view(),
                ledger == old(self).items_view(),
                self.feeds_view() == fs,
                self.items_view() == ledger + cycle_items(fs, ledger, fv.take(k as int)),
                strings_of(msgs@) == cycle_messages(fs, ledger, fv.take(k as int)),
            decreases fetched@.len() - k,
        {
            assert(fv.take(k + 1).drop_last() =~= fv.take(k as int));
            let ghost prev = cycle_items(fs, ledger, fv.take(k as int));
            let ghost prev_msgs = strings_of(msgs@);
            let id = fetched[k].0;
            let title = self.feed_title(id);
            match (&fetched[k].1, title) {
                (Ok(c), Some(t)) => {
                    let new = self.poll_feed(id, &c.entries);
                    assert(ledger + prev + items_of(new@) =~= ledger + (prev + items_of(new@)));
                    let ghost nv = items_of(new@);
                    let mut j: usize = 0;
                    assert(strings_of(msgs@) =~= prev_msgs + messages_for(t@, nv.take(0)));
                    while j < new.len()
                        invariant
                            0 <= j <= new@.len(),
                            nv == items_of(new@),
                            strings_of(msgs@) == prev_msgs + messages_for(t@, nv.take(j as int)),
                        decreases new@.len() - j,
                    {
                        let m = new[j].update_message(&t);
                        let ghost before = strings_of(msgs@);
                        msgs.push(m);
                        assert(strings_of(msgs@) =~= before.push(m@));
                        assert(messages_for(t@, nv.take(j + 1)) =~= messages_for(t@, nv.take(j as int)).push(
                            update_text(t@, nv[j as int]),
                        ));
                        assert(strings_of(msgs@) =~= prev_msgs + messages_for(t@, nv.take(j + 1)));
                        j += 1;
                    }
                    assert(nv.take(new@.len() as int) =~= nv);
                },
                _ => {},
            }
            k += 1;
        }
        assert(fv.take(fetched@.len() as int) =~= fv);
        msgs
    }

    /// Subscribes to `url`, whose document was fetched as `fetched`: a failed
    /// fetch is reported as it is, an address already subscribed is reported
    /// apart from a new subscription, and otherwise the feed is stored with
    /// the next id.
    pub fn subscribe(&mut self, url: String, fetched: Result<Channel, FetchError>) -> (r: SubscribeResult)
        requires
            old(self).wf(),
            old(self).feeds_view().len() < i64::MAX,
        ensures
            final(self).wf(),
            final(self).items_view() == old(self).items_view(),
            match fetched {
                Err(e) => r == SubscribeResult::FetchFailed(e) && final(self).feeds_view() == old(
                    self,
                ).feeds_view(),
                Ok(c) => if has_link(old(self).feeds_view(), url@) {
                    r == SubscribeResult::AlreadyExists && final(self).feeds_view() == old(
                        self,
                    ).feeds_view()
                } else {
                    r == SubscribeResult::Created((old(self).feeds_view().len() + 1) as i64)
                        && final(self).feeds_view() == added(
                        old(self).feeds_view(),
                        channel_feed(c@, url@),
                    )
                },
            },
    {
        match fetched {
            Err(e) => SubscribeResult::FetchFailed(e),
            Ok(c) => {
                let feed = Feed::from_rss(&c, url);
                match self.save_feed(feed) {
                    Ok(id) => SubscribeResult::Created(id),
                    Err(_) => SubscribeResult::AlreadyExists,
                }
            },
        }
    }
}

} // verus!
