use crate::fetch::FetchError;
use crate::model::{entry_item, update_text, ChannelView, FeedView, ItemView, RawEntryView};
use crate::store::{
    added, channel_feed, cycle_items, cycle_messages, feed_of, has_link, has_title, ids_in_order,
    lemma_has_title_concat, links_unique, new_items, messages_for,
};
use vstd::prelude::*;

verus! {

proof fn lemma_has_title_push(a: Seq<ItemView>, x: ItemView, t: Seq<char>)
    requires
        has_title(a, t),
    ensures
        has_title(a.push(x), t),
{
    let i = choose|i: int| 0 <= i < a.len() && #[trigger] a[i].title == t;
    assert(a.push(x)[i].title == t);
}

/// The title of every well-formed entry of `entries` is in `ledger`.
pub open spec fn covers(ledger: Seq<ItemView>, feed_id: i64, entries: Seq<RawEntryView>) -> bool {
    forall|k: int|
        0 <= k < entries.len() && (#[trigger] entry_item(feed_id, entries[k])) is Some ==> has_title(
            ledger,
            entry_item(feed_id, entries[k])->Some_0.title,
        )
}

/// A fetch outcome that a cycle polls: a document for a stored feed.
pub open spec fn polled(fs: Seq<FeedView>, p: (i64, Result<ChannelView, FetchError>)) -> bool {
    feed_of(fs, p.0) is Some && p.1 is Ok
}

/// Every document that the cycle polls is covered by `ledger`.
pub open spec fn cycle_covers(
    fs: Seq<FeedView>,
    ledger: Seq<ItemView>,
    fetched: Seq<(i64, Result<ChannelView, FetchError>)>,
) -> bool {
    forall|k: int|
        0 <= k < fetched.len() && polled(fs, #[trigger] fetched[k]) ==> covers(
            ledger,
            fetched[k].0,
            fetched[k].1->Ok_0.entries,
        )
}

proof fn lemma_covers_extend(ledger: Seq<ItemView>, ext: Seq<ItemView>, feed_id: i64, entries: Seq<RawEntryView>)
    requires
        covers(ledger, feed_id, entries),
    ensures
        covers(ledger + ext, feed_id, entries),
{
    assert forall|k: int|
        0 <= k < entries.len() && (#[trigger] entry_item(feed_id, entries[k])) is Some implies has_title(
        ledger + ext,
        entry_item(feed_id, entries[k])->Some_0.title,
    ) by {
        lemma_has_title_concat(ledger, ext, entry_item(feed_id, entries[k])->Some_0.title);
    }
}

/// After the new items of `entries` are recorded, the title of every
/// well-formed entry is in the ledger.
proof fn lemma_entries_covered(feed_id: i64, ledger: Seq<ItemView>, entries: Seq<RawEntryView>)
    ensures
        covers(ledger + new_items(feed_id, ledger, entries), feed_id, entries),
    decreases entries.len(),
{
    if entries.len() > 0 {
        let init = entries.drop_last();
        lemma_entries_covered(feed_id, ledger, init);
        let prev = new_items(feed_id, ledger, init);
        let cur = new_items(feed_id, ledger, entries);
        assert forall|k: int|
            0 <= k < entries.len() && (#[trigger] entry_item(feed_id, entries[k])) is Some implies has_title(
            ledger + cur,
            entry_item(feed_id, entries[k])->Some_0.title,
        ) by {
            let t = entry_item(feed_id, entries[k])->Some_0.title;
            if k < entries.len() - 1 {
                assert(entries[k] == init[k]);
                assert(has_title(ledger + prev, t));
            } else {
                assert(entries[k] == entries.last());
            }
            if cur != prev {
                let it = entry_item(feed_id, entries.last())->Some_0;
                assert(cur == prev.push(it));
                assert(ledger + cur =~= (ledger + prev).push(it));
                if has_title(ledger + prev, t) {
                    lemma_has_title_push(ledger + prev, it, t);
                } else {
                    assert((ledger + cur)[(ledger + cur).len() - 1].title == t);
                }
            }
        }
    }
}

/// Entries whose titles are all in the ledger bring no new item.
proof fn lemma_known_entries_bring_nothing(feed_id: i64, ledger: Seq<ItemView>, entries: Seq<RawEntryView>)
    requires
        covers(ledger, feed_id, entries),
    ensures
        new_items(feed_id, ledger, entries) == Seq::<ItemView>::empty(),
    decreases entries.len(),
{
    if entries.len() > 0 {
        let init = entries.drop_last();
        assert forall|k: int|
            0 <= k < init.len() && (#[trigger] entry_item(feed_id, init[k])) is Some implies has_title(
            ledger,
            entry_item(feed_id, init[k])->Some_0.title,
        ) by {
            assert(init[k] == entries[k]);
        }
        lemma_known_entries_bring_nothing(feed_id, ledger, init);
        assert(ledger + Seq::<ItemView>::empty() =~= ledger);
        assert(entries.last() == entries[entries.len() - 1]);
    }
}

/// Polling a feed twice in a row with an unchanged document records nothing
/// on the second poll.
pub proof fn lemma_poll_twice_records_nothing(feed_id: i64, ledger: Seq<ItemView>, entries: Seq<RawEntryView>)
    ensures
        new_items(feed_id, ledger + new_items(feed_id, ledger, entries), entries) == Seq::<
            ItemView,
        >::empty(),
{
    lemma_entries_covered(feed_id, ledger, entries);
    lemma_known_entries_bring_nothing(feed_id, ledger + new_items(feed_id, ledger, entries), entries);
}

/// After a cycle, every document that it polled is covered by the ledger.
proof fn lemma_cycle_covered(
    fs: Seq<FeedView>,
    ledger: Seq<ItemView>,
    fetched: Seq<(i64, Result<ChannelView, FetchError>)>,
)
    ensures
        cycle_covers(fs, ledger + cycle_items(fs, ledger, fetched), fetched),
    decreases fetched.len(),
{
    if fetched.len() > 0 {
        let init = fetched.drop_last();
        lemma_cycle_covered(fs, ledger, init);
        let prev = cycle_items(fs, ledger, init);
        let cur = cycle_items(fs, ledger, fetched);
        let last = fetched.last();
        let ext = cur.subrange(prev.len() as int, cur.len() as int);
        if polled(fs, last) {
            let new = new_items(last.0, ledger + prev, last.1->Ok_0.entries);
            assert(cur == prev + new);
            lemma_entries_covered(last.0, ledger + prev, last.1->Ok_0.entries);
            assert(ledger + prev + new =~= ledger + cur);
            assert(ext =~= new);
        } else {
            assert(cur == prev);
            assert(ext =~= Seq::<ItemView>::empty());
        }
        assert(ledger + prev + ext =~= ledger + cur);
        assert forall|k: int|
            0 <= k < fetched.len() && polled(fs, #[trigger] fetched[k]) implies covers(
            ledger + cur,
            fetched[k].0,
            fetched[k].1->Ok_0.entries,
        ) by {
            if k < fetched.len() - 1 {
                assert(fetched[k] == init[k]);
                lemma_covers_extend(ledger + prev, ext, fetched[k].0, fetched[k].1->Ok_0.entries);
            } else {
                assert(fetched[k] == last);
            }
        }
    }
}

/// A cycle whose polled documents are all covered by the ledger records
/// nothing.
proof fn lemma_covered_cycle_records_nothing(
    fs: Seq<FeedView>,
    ledger: Seq<ItemView>,
    fetched: Seq<(i64, Result<ChannelView, FetchError>)>,
)
    requires
        cycle_covers(fs, ledger, fetched),
    ensures
        cycle_items(fs, ledger, fetched) == Seq::<ItemView>::empty(),
    decreases fetched.len(),
{
    if fetched.len() > 0 {
        let init = fetched.drop_last();
        assert forall|k: int| 0 <= k < init.len() && polled(fs, #[trigger] init[k]) implies covers(
            ledger,
            init[k].0,
            init[k].1->Ok_0.entries,
        ) by {
            assert(init[k] == fetched[k]);
        }
        lemma_covered_cycle_records_nothing(fs, ledger, init);
        let last = fetched.last();
        assert(last == fetched[fetched.len() - 1]);
        assert(ledger + Seq::<ItemView>::empty() =~= ledger);
        if polled(fs, last) {
            lemma_known_entries_bring_nothing(last.0, ledger, last.1->Ok_0.entries);
            assert(Seq::<ItemView>::empty() + Seq::<ItemView>::empty() =~= Seq::<ItemView>::empty());
        }
    }
}

/// Two poll cycles in a row over unchanged documents: the second records no
/// item and hands out no notification.
pub proof fn lemma_cycle_twice_notifies_nothing(
    fs: Seq<FeedView>,
    ledger: Seq<ItemView>,
    fetched: Seq<(i64, Result<ChannelView, FetchError>)>,
)
    ensures
        cycle_items(fs, ledger + cycle_items(fs, ledger, fetched), fetched) == Seq::<
            ItemView,
        >::empty(),
        cycle_messages(fs, ledger + cycle_items(fs, ledger, fetched), fetched).len() == 0,
{
    let after = ledger + cycle_items(fs, ledger, fetched);
    lemma_cycle_covered(fs, ledger, fetched);
    lemma_covered_cycle_records_nothing(fs, after, fetched);
    lemma_notices_follow_records(fs, after, fetched);
}

/// Subscribing to a new address stores it, a second subscription to it then
/// finds it already there, and exactly one feed has that address.
pub proof fn lemma_subscribe_twice(fs: Seq<FeedView>, c: ChannelView, url: Seq<char>)
    requires
        links_unique(fs),
        !has_link(fs, url),
    ensures
        has_link(added(fs, channel_feed(c, url)), url),
        links_unique(added(fs, channel_feed(c, url))),
        forall|j: int|
            0 <= j < added(fs, channel_feed(c, url)).len() && #[trigger] added(
                fs,
                channel_feed(c, url),
            )[j].feed_link == url ==> j == fs.len(),
{
    let fs1 = added(fs, channel_feed(c, url));
    assert(fs1[fs.len() as int].feed_link == url);
    assert forall|j: int| 0 <= j < fs1.len() && #[trigger] fs1[j].feed_link == url implies j == fs.len() by {
        if j < fs.len() {
            assert(fs[j].feed_link == url);
        }
    }
    assert forall|i: int, j: int|
        0 <= i < fs1.len() && 0 <= j < fs1.len() && i != j implies #[trigger] fs1[i].feed_link
        != #[trigger] fs1[j].feed_link by {
        if i < fs.len() && j < fs.len() {
            assert(fs[i].feed_link != fs[j].feed_link);
        } else if i < fs.len() {
            assert(fs[i].feed_link != url);
        } else {
            assert(fs[j].feed_link != url);
        }
    }
}

/// In a cycle over three feeds where the second could not be fetched, the
/// first and the third still have their new items recorded.
pub proof fn lemma_failed_fetch_isolated(
    fs: Seq<FeedView>,
    ledger: Seq<ItemView>,
    fetched: Seq<(i64, Result<ChannelView, FetchError>)>,
)
    requires
        fetched.len() == 3,
        feed_of(fs, fetched[0].0) is Some,
        fetched[0].1 is Ok,
        fetched[1].1 is Err,
        feed_of(fs, fetched[2].0) is Some,
        fetched[2].1 is Ok,
    ensures
        ({
            let first = new_items(fetched[0].0, ledger, fetched[0].1->Ok_0.entries);
            let third = new_items(fetched[2].0, ledger + first, fetched[2].1->Ok_0.entries);
            cycle_items(fs, ledger, fetched) == first + third
        }),
{
    let f2 = fetched.drop_last();
    let f1 = f2.drop_last();
    let f0 = f1.drop_last();
    assert(f0.len() == 0);
    assert(f1.last() == fetched[0]);
    assert(f2.last() == fetched[1]);
    assert(fetched.last() == fetched[2]);
    let first = new_items(fetched[0].0, ledger, fetched[0].1->Ok_0.entries);
    assert(cycle_items(fs, ledger, f0) == Seq::<ItemView>::empty());
    assert(ledger + Seq::<ItemView>::empty() =~= ledger);
    assert(cycle_items(fs, ledger, f1) =~= first);
    assert(cycle_items(fs, ledger, f2) == first);
}

/// `m` is the notification of the item `it`, under some feed title.
pub open spec fn announces(m: Seq<char>, it: ItemView) -> bool {
    exists|t: Seq<char>| m == update_text(t, it)
}

/// The notifications of a cycle match the items it records one for one: the
/// k-th notification announces the k-th recorded item, which is already in
/// the ledger when the notifications are handed out.
pub proof fn lemma_notices_follow_records(
    fs: Seq<FeedView>,
    ledger: Seq<ItemView>,
    fetched: Seq<(i64, Result<ChannelView, FetchError>)>,
)
    ensures
        cycle_messages(fs, ledger, fetched).len() == cycle_items(fs, ledger, fetched).len(),
        forall|k: int|
            0 <= k < cycle_items(fs, ledger, fetched).len() ==> announces(
                #[trigger] cycle_messages(fs, ledger, fetched)[k],
                cycle_items(fs, ledger, fetched)[k],
            ),
    decreases fetched.len(),
{
    if fetched.len() > 0 {
        let init = fetched.drop_last();
        lemma_notices_follow_records(fs, ledger, init);
        let prev = cycle_items(fs, ledger, init);
        let prev_msgs = cycle_messages(fs, ledger, init);
        let items = cycle_items(fs, ledger, fetched);
        let msgs = cycle_messages(fs, ledger, fetched);
        let (id, res) = fetched.last();
        match (feed_of(fs, id), res) {
            (Some(f), Ok(c)) => {
                let new = new_items(id, ledger + prev, c.entries);
                assert(items == prev + new);
                assert(msgs == prev_msgs + messages_for(f.title, new));
                assert forall|k: int| 0 <= k < items.len() implies announces(
                    #[trigger] msgs[k],
                    items[k],
                ) by {
                    if k < prev.len() {
                        assert(msgs[k] == prev_msgs[k]);
                        assert(items[k] == prev[k]);
                        let t = choose|t: Seq<char>| prev_msgs[k] == update_text(t, prev[k]);
                        assert(msgs[k] == update_text(t, items[k]));
                        assert(announces(msgs[k], items[k]));
                    } else {
                        assert(msgs[k] == update_text(f.title, new[k - prev.len()]));
                        assert(items[k] == new[k - prev.len()]);
                        assert(announces(msgs[k], items[k]));
                    }
                }
            },
            _ => {
                assert(items == prev);
                assert(msgs == prev_msgs);
                assert forall|k: int| 0 <= k < items.len() implies announces(
                    #[trigger] msgs[k],
                    items[k],
                ) by {
                    assert(msgs[k] == prev_msgs[k]);
                    let t = choose|t: Seq<char>| prev_msgs[k] == update_text(t, prev[k]);
                    assert(msgs[k] == update_text(t, items[k]));
                    assert(announces(msgs[k], items[k]));
                }
            },
        }
    }
}

/// An id that no stored feed has resolves to no feed.
pub proof fn lemma_unknown_id_not_found(fs: Seq<FeedView>, id: i64)
    requires
        ids_in_order(fs),
        forall|i: int| 0 <= i < fs.len() ==> #[trigger] fs[i].id != id,
    ensures
        feed_of(fs, id) is None,
{
    if 1 <= id <= fs.len() {
        assert(fs[id - 1].id == id);
    }
}

} // verus!
