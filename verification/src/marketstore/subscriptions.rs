//! The active subscriptions of the live stream.

use vstd::prelude::*;

use crate::marketstore::symbology::BarType;
use crate::text::{same_text, views};

verus! {

/// An instrument: a symbol at a venue.
#[derive(Clone, Debug)]
pub struct InstrumentKey {
    pub symbol: String,
    pub venue: String,
}

impl View for InstrumentKey {
    type V = (Seq<char>, Seq<char>);

    open spec fn view(&self) -> (Seq<char>, Seq<char>) {
        (self.symbol@, self.venue@)
    }
}

/// What a subscription delivers, and what is needed to make it out of a row.
#[derive(Clone, Debug)]
pub enum SubKind {
    /// Bars, which close `ts_init_delta_ns` after they open.
    Bar { bar_type: BarType, ts_init_delta_ns: u64 },
    /// Trades.
    Trade { instrument_id: InstrumentKey },
    /// Quotes.
    Quote { instrument_id: InstrumentKey },
}

/// A subscription.
#[derive(Clone, Debug)]
pub struct TbkSubscription {
    pub kind: SubKind,
    pub price_precision: u8,
    pub size_precision: u8,
}

/// A subscription under its key.
#[derive(Clone, Debug)]
pub struct Entry {
    pub key: String,
    pub subscription: TbkSubscription,
}

/// Subscriptions by their keys, each key at most once.
#[derive(Clone, Debug)]
pub struct Subscriptions {
    pub entries: Vec<Entry>,
}

/// Whether entry `i` is under `key`.
pub open spec fn is_under(entries: Seq<Entry>, i: int, key: Seq<char>) -> bool {
    0 <= i < entries.len() && entries[i].key@ == key
}

/// Whether no two entries are under one key.
pub open spec fn keys_differ(entries: Seq<Entry>) -> bool {
    forall|i: int, j: int|
        0 <= i < j < entries.len() ==> (#[trigger] entries[i]).key@ != (#[trigger] entries[j]).key@
}

/// The subscriptions by their keys.
pub open spec fn by_key(entries: Seq<Entry>) -> Map<Seq<char>, TbkSubscription> {
    Map::new(
        |key: Seq<char>| exists|i: int| is_under(entries, i, key),
        |key: Seq<char>| entries[choose|i: int| is_under(entries, i, key)].subscription,
    )
}

proof fn entry_is_found(entries: Seq<Entry>, i: int)
    requires
        keys_differ(entries),
        0 <= i < entries.len(),
    ensures
        by_key(entries).dom().contains(entries[i].key@),
        by_key(entries)[entries[i].key@] == entries[i].subscription,
{
    let key = entries[i].key@;
    assert(is_under(entries, i, key));
    let k = choose|k: int| is_under(entries, k, key);
    assert(is_under(entries, k, key));
    assert(k == i);
}

proof fn pushed_entry(entries: Seq<Entry>, e: Entry)
    requires
        keys_differ(entries),
        !by_key(entries).dom().contains(e.key@),
    ensures
        keys_differ(entries.push(e)),
        by_key(entries.push(e)) == by_key(entries).insert(e.key@, e.subscription),
{
    let after = entries.push(e);
    assert forall|i: int, j: int| 0 <= i < j < after.len() implies (#[trigger] after[i]).key@ != (
    #[trigger] after[j]).key@ by {
        if j == entries.len() {
            if entries[i].key@ == e.key@ {
                assert(is_under(entries, i, e.key@));
            }
        }
    }
    assert forall|key: Seq<char>|
        by_key(after).dom().contains(key) <==> by_key(entries).insert(
            e.key@,
            e.subscription,
        ).dom().contains(key) by {
        if by_key(after).dom().contains(key) {
            let i = choose|i: int| is_under(after, i, key);
            if i < entries.len() {
                assert(is_under(entries, i, key));
            }
        }
        if by_key(entries).dom().contains(key) {
            let i = choose|i: int| is_under(entries, i, key);
            assert(is_under(after, i, key));
        }
        if key == e.key@ {
            assert(is_under(after, entries.len() as int, key));
        }
    }
    assert forall|key: Seq<char>| by_key(after).dom().contains(key) implies by_key(after)[key]
        == by_key(entries).insert(e.key@, e.subscription)[key] by {
        let i = choose|i: int| is_under(after, i, key);
        entry_is_found(after, i);
        if i < entries.len() {
            entry_is_found(entries, i);
            assert(is_under(entries, i, key));
        }
    }
    assert(by_key(after) =~= by_key(entries).insert(e.key@, e.subscription));
}

proof fn removed_entry(entries: Seq<Entry>, n: int)
    requires
        keys_differ(entries),
        0 <= n < entries.len(),
    ensures
        keys_differ(entries.remove(n)),
        by_key(entries.remove(n)) == by_key(entries).remove(entries[n].key@),
{
    let after = entries.remove(n);
    let gone = entries[n].key@;
    let place = |i: int| if i < n { i } else { i + 1 };
    assert forall|i: int| 0 <= i < after.len() implies #[trigger] after[i] == entries[place(i)] by {}
    assert forall|i: int, j: int| 0 <= i < j < after.len() implies (#[trigger] after[i]).key@ != (
    #[trigger] after[j]).key@ by {
        assert(after[i] == entries[place(i)]);
        assert(after[j] == entries[place(j)]);
    }
    assert forall|key: Seq<char>|
        by_key(after).dom().contains(key) <==> by_key(entries).remove(gone).dom().contains(key) by {
        if by_key(after).dom().contains(key) {
            let i = choose|i: int| is_under(after, i, key);
            assert(after[i] == entries[place(i)]);
            assert(is_under(entries, place(i), key));
            assert(entries[place(i)].key@ != gone);
        }
        if by_key(entries).remove(gone).dom().contains(key) {
            let i = choose|i: int| is_under(entries, i, key);
            let j = if i < n {
                i
            } else {
                i - 1
            };
            assert(after[j] == entries[place(j)]);
            assert(is_under(after, j, key));
        }
    }
    assert forall|key: Seq<char>| by_key(after).dom().contains(key) implies by_key(after)[key]
        == by_key(entries).remove(gone)[key] by {
        let i = choose|i: int| is_under(after, i, key);
        entry_is_found(after, i);
        assert(after[i] == entries[place(i)]);
        entry_is_found(entries, place(i));
    }
    assert(by_key(after) =~= by_key(entries).remove(gone));
}

impl Subscriptions {
    /// Whether no two subscriptions are under one key.
    pub open spec fn valid(self) -> bool {
        keys_differ(self.entries@)
    }

    /// No subscriptions.
    pub fn new() -> (r: Subscriptions)
        ensures
            r.valid(),
            r@ == Map::<Seq<char>, TbkSubscription>::empty(),
    {
        let r = Subscriptions { entries: Vec::new() };
        assert(by_key(r.entries@) =~= Map::<Seq<char>, TbkSubscription>::empty());
        r
    }

    fn find(&self, key: &str) -> (r: Option<usize>)
        requires
            self.valid(),
        ensures
            match r {
                Some(i) => is_under(self.entries@, i as int, key@),
                None => !self@.dom().contains(key@),
            },
    {
        let mut i: usize = 0;
        while i < self.entries.len()
            invariant
                i <= self.entries@.len(),
                forall|k: int| 0 <= k < i ==> !is_under(self.entries@, k, key@),
            decreases self.entries@.len() - i,
        {
            if same_text(self.entries[i].key.as_str(), key) {
                return Some(i);
            }
            i = i + 1;
        }
        None
    }

    /// The subscription under `key`.
    pub fn get(&self, key: &str) -> (r: Option<&TbkSubscription>)
        requires
            self.valid(),
        ensures
            match r {
                Some(s) => self@.dom().contains(key@) && *s == self@[key@],
                None => !self@.dom().contains(key@),
            },
    {
        match self.find(key) {
            Some(i) => {
                proof {
                    entry_is_found(self.entries@, i as int);
                }
                Some(&self.entries[i].subscription)
            },
            None => None,
        }
    }

    /// Removes the subscription under `key`, if there is one.
    pub fn remove(&mut self, key: &str)
        requires
            old(self).valid(),
        ensures
            final(self).valid(),
            final(self)@ == old(self)@.remove(key@),
    {
        match self.find(key) {
            Some(i) => {
                proof {
                    removed_entry(self.entries@, i as int);
                }
                let _gone = self.entries.remove(i);
            },
            None => {
                assert(self@.remove(key@) =~= self@);
            },
        }
    }

    /// Puts a subscription under `key`, in place of the one that was there.
    pub fn insert(&mut self, key: String, subscription: TbkSubscription)
        requires
            old(self).valid(),
        ensures
            final(self).valid(),
            final(self)@ == old(self)@.insert(key@, subscription),
    {
        let ghost before = self@;
        let ghost k = key@;
        self.remove(key.as_str());
        proof {
            pushed_entry(self.entries@, Entry { key, subscription });
            assert(before.remove(k).insert(k, subscription) =~= before.insert(k, subscription));
        }
        self.entries.push(Entry { key, subscription });
    }

    /// Whether there are no subscriptions.
    pub fn is_empty(&self) -> (r: bool)
        requires
            self.valid(),
        ensures
            r <==> self@.dom() =~= Set::<Seq<char>>::empty(),
    {
        let r = self.entries.len() == 0;
        proof {
            if r {
                assert(self@.dom() =~= Set::<Seq<char>>::empty());
            } else {
                entry_is_found(self.entries@, 0);
            }
        }
        r
    }

    /// The keys, each once.
    pub fn keys(&self) -> (r: Vec<String>)
        requires
            self.valid(),
        ensures
            views(r@).no_duplicates(),
            forall|key: Seq<char>| views(r@).contains(key) <==> self@.dom().contains(key),
    {
        let mut out: Vec<String> = Vec::new();
        let mut i: usize = 0;
        while i < self.entries.len()
            invariant
                i <= self.entries@.len(),
                out@.len() == i,
                forall|k: int| 0 <= k < i ==> (#[trigger] out@[k])@ == self.entries@[k].key@,
            decreases self.entries@.len() - i,
        {
            out.push(self.entries[i].key.clone());
            i = i + 1;
        }
        proof {
            let v = views(out@);
            assert forall|i: int, j: int| 0 <= i < v.len() && 0 <= j < v.len() && i != j implies v[i]
                != v[j] by {
                assert(v[i] == out@[i]@ && v[j] == out@[j]@);
                if i < j {
                    assert(self.entries@[i].key@ != self.entries@[j].key@);
                } else {
                    assert(self.entries@[j].key@ != self.entries@[i].key@);
                }
            }
            assert forall|key: Seq<char>| v.contains(key) <==> self@.dom().contains(key) by {
                if v.contains(key) {
                    let i = choose|i: int| 0 <= i < v.len() && v[i] == key;
                    assert(v[i] == out@[i]@);
                    assert(is_under(self.entries@, i, key));
                }
                if self@.dom().contains(key) {
                    let i = choose|i: int| is_under(self.entries@, i, key);
                    assert(v[i] == out@[i]@);
                }
            }
        }
        out
    }
}

impl View for Subscriptions {
    type V = Map<Seq<char>, TbkSubscription>;

    open spec fn view(&self) -> Map<Seq<char>, TbkSubscription> {
        by_key(self.entries@)
    }
}

} // verus!
