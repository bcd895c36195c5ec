use vstd::prelude::*;

use crate::keyed::{has_key, key_set, keys_unique, lemma_key_set_len, lemma_push_fresh, lemma_remove};

verus! {

/// The number that an SSH connection gives one of its channels.
#[derive(Clone, Copy, Debug, PartialEq, Eq, Structural)]
pub struct ChannelId(pub u32);

/// A table from (client number, channel) to a value, such as the handle of
/// the session that opened the channel. Each key occurs at most once.
///
/// It is a list of entries rather than a `std::collections::HashMap`: vstd
/// specifies `HashMap` only for keys that it knows to obey its hashing model
/// (integers and `bool`), not for a tuple key such as (client number,
/// channel), and that fact could only be assumed, not proved.
pub struct ClientRegistry<H> {
    entries: Vec<(usize, ChannelId, H)>,
}

/// The key of an entry of the table.
pub open spec fn entry_key<H>() -> spec_fn((usize, ChannelId, H)) -> (usize, ChannelId) {
    |e: (usize, ChannelId, H)| (e.0, e.1)
}

/// The value that the entries `s` hold for the key `k`.
pub open spec fn value_of<H>(s: Seq<(usize, ChannelId, H)>, k: (usize, ChannelId)) -> H {
    s[choose|i: int| 0 <= i < s.len() && entry_key::<H>()(#[trigger] s[i]) == k].2
}

/// The map that the entries `s` stand for.
pub open spec fn entries_map<H>(s: Seq<(usize, ChannelId, H)>) -> Map<(usize, ChannelId), H> {
    key_set(s, entry_key::<H>()).mk_map(|k: (usize, ChannelId)| value_of(s, k))
}

impl<H> View for ClientRegistry<H> {
    type V = Map<(usize, ChannelId), H>;

    /// The table as a map from (client number, channel) to value.
    closed spec fn view(&self) -> Map<(usize, ChannelId), H> {
        entries_map(self.entries@)
    }
}

impl<H> ClientRegistry<H> {
    /// No key occurs twice.
    #[verifier::type_invariant]
    spec fn inv(self) -> bool {
        keys_unique(self.entries@, entry_key::<H>())
    }

    /// An empty table.
    pub fn new() -> (r: Self)
        ensures
            r@ == Map::<(usize, ChannelId), H>::empty(),
            r@.dom().finite(),
    {
        let r = ClientRegistry { entries: Vec::new() };
        assert(r@ =~= Map::<(usize, ChannelId), H>::empty());
        r
    }

    /// The number of keys in the table.
    pub fn len(&self) -> (n: usize)
        ensures
            self@.dom().finite(),
            n == self@.dom().len(),
    {
        proof {
            use_type_invariant(self);
            lemma_key_set_len(self.entries@, entry_key::<H>());
        }
        self.entries.len()
    }

    fn position(&self, client: usize, channel: ChannelId) -> (r: Option<usize>)
        ensures
            match r {
                Some(i) => i < self.entries@.len() && self.entries@[i as int].0 == client
                    && self.entries@[i as int].1 == channel,
                None => !has_key(self.entries@, entry_key::<H>(), (client, channel)),
            },
    {
        let mut i: usize = 0;
        while i < self.entries.len()
            invariant
                i <= self.entries@.len(),
                forall|j: int|
                    0 <= j < i ==> entry_key::<H>()(#[trigger] self.entries@[j]) != (client, channel),
            decreases self.entries@.len() - i,
        {
            if self.entries[i].0 == client && self.entries[i].1 == channel {
                return Some(i);
            }
            i = i + 1;
        }
        None
    }

    /// Whether the table holds a value for the key.
    pub fn contains(&self, client: usize, channel: ChannelId) -> (b: bool)
        ensures
            b == self@.dom().contains((client, channel)),
    {
        let r = self.position(client, channel);
        proof {
            if let Some(i) = r {
                assert(entry_key::<H>()(self.entries@[i as int]) == (client, channel));
            }
        }
        r.is_some()
    }

    /// The value that the table holds for the key.
    pub fn get(&self, client: usize, channel: ChannelId) -> (r: Option<&H>)
        ensures
            match r {
                Some(h) => self@.dom().contains((client, channel)) && *h == self@[(
                    client,
                    channel,
                )],
                None => !self@.dom().contains((client, channel)),
            },
    {
        proof {
            use_type_invariant(self);
        }
        match self.position(client, channel) {
            Some(i) => {
                proof {
                    lemma_entry_value(self.entries@, i as int);
                }
                Some(&self.entries[i].2)
            },
            None => None,
        }
    }

    /// Stores `value` under the key, replacing what it held there, which is
    /// handed back. The table grows by one key exactly when the key was new.
    pub fn insert(&mut self, client: usize, channel: ChannelId, value: H) -> (r: Option<H>)
        ensures
            final(self)@ == old(self)@.insert((client, channel), value),
            final(self)@.dom().finite(),
            final(self)@.dom().len() == old(self)@.dom().len() + (if old(
                self,
            )@.dom().contains((client, channel)) {
                0int
            } else {
                1int
            }),
            match r {
                Some(h) => old(self)@.dom().contains((client, channel)) && h == old(self)@[(
                    client,
                    channel,
                )],
                None => !old(self)@.dom().contains((client, channel)),
            },
    {
        proof {
            use_type_invariant(&*self);
            lemma_key_set_len(self.entries@, entry_key::<H>());
        }
        let found = self.position(client, channel);
        let mut entries: Vec<(usize, ChannelId, H)> = Vec::new();
        std::mem::swap(&mut entries, &mut self.entries);
        let ghost before = entries@;
        let r = match found {
            Some(i) => {
                proof {
                    lemma_entry_value(before, i as int);
                    lemma_remove_entry(before, i as int);
                }
                let removed = entries.remove(i);
                proof {
                    lemma_push_entry(before.remove(i as int), (client, channel, value));
                    assert(entries_map(entries@.push((client, channel, value))) =~= entries_map(
                        before,
                    ).insert((client, channel), value));
                }
                entries.push((client, channel, value));
                Some(removed.2)
            },
            None => {
                proof {
                    lemma_push_entry(before, (client, channel, value));
                }
                entries.push((client, channel, value));
                None
            },
        };
        self.entries = entries;
        proof {
            lemma_key_set_len(self.entries@, entry_key::<H>());
        }
        r
    }
}

/// An entry of a table without repeated keys is what the table maps its key to.
proof fn lemma_entry_value<H>(s: Seq<(usize, ChannelId, H)>, i: int)
    requires
        keys_unique(s, entry_key::<H>()),
        0 <= i < s.len(),
    ensures
        entries_map(s).dom().contains((s[i].0, s[i].1)),
        entries_map(s)[(s[i].0, s[i].1)] == s[i].2,
{
    let k = (s[i].0, s[i].1);
    assert(entry_key::<H>()(s[i]) == k);
    assert(has_key(s, entry_key::<H>(), k));
    let j = choose|j: int| 0 <= j < s.len() && entry_key::<H>()(#[trigger] s[j]) == k;
    assert(entry_key::<H>()(s[j]) == entry_key::<H>()(s[i]));
}

/// Appending an entry whose key is new adds that key to the map.
proof fn lemma_push_entry<H>(s: Seq<(usize, ChannelId, H)>, e: (usize, ChannelId, H))
    requires
        keys_unique(s, entry_key::<H>()),
        !has_key(s, entry_key::<H>(), (e.0, e.1)),
    ensures
        keys_unique(s.push(e), entry_key::<H>()),
        entries_map(s.push(e)) == entries_map(s).insert((e.0, e.1), e.2),
{
    let t = s.push(e);
    assert(entry_key::<H>()(e) == (e.0, e.1));
    lemma_push_fresh(s, entry_key::<H>(), e);
    let m1 = entries_map(t);
    let m2 = entries_map(s).insert((e.0, e.1), e.2);
    assert(m1.dom() =~= m2.dom());
    assert forall|k: (usize, ChannelId)| #[trigger] m1.dom().contains(k) implies m1[k] == m2[k] by {
        let i = choose|i: int| 0 <= i < t.len() && entry_key::<H>()(#[trigger] t[i]) == k;
        lemma_entry_value(t, i);
        if i < s.len() {
            assert(s[i] == t[i]);
            lemma_entry_value(s, i);
        }
    }
    assert(m1 =~= m2);
}

/// Removing an entry removes its key from the map and keeps the others.
proof fn lemma_remove_entry<H>(s: Seq<(usize, ChannelId, H)>, i: int)
    requires
        keys_unique(s, entry_key::<H>()),
        0 <= i < s.len(),
    ensures
        keys_unique(s.remove(i), entry_key::<H>()),
        !has_key(s.remove(i), entry_key::<H>(), (s[i].0, s[i].1)),
        entries_map(s.remove(i)) == entries_map(s).remove((s[i].0, s[i].1)),
{
    let t = s.remove(i);
    let key = (s[i].0, s[i].1);
    assert(entry_key::<H>()(s[i]) == key);
    lemma_remove(s, entry_key::<H>(), i);
    assert(!key_set(t, entry_key::<H>()).contains(key));
    let m1 = entries_map(t);
    let m2 = entries_map(s).remove(key);
    assert(m1.dom() =~= m2.dom());
    assert forall|k: (usize, ChannelId)| #[trigger] m1.dom().contains(k) implies m1[k] == m2[k] by {
        let a = choose|a: int| 0 <= a < t.len() && entry_key::<H>()(#[trigger] t[a]) == k;
        let sa = if a < i { a } else { a + 1 };
        assert(t[a] == s[sa]);
        lemma_entry_value(t, a);
        lemma_entry_value(s, sa);
    }
    assert(m1 =~= m2);
}

/// Registering a value under a key makes the table map that key to it,
/// leaves every other key as it was, and grows the table by one key exactly
/// when the key was new.
pub proof fn law_registered_value_found<H>(
    before: Map<(usize, ChannelId), H>,
    client: usize,
    channel: ChannelId,
    value: H,
    other: (usize, ChannelId),
)
    requires
        before.dom().finite(),
        other != (client, channel),
    ensures
        before.insert((client, channel), value).dom().contains((client, channel)),
        before.insert((client, channel), value)[(client, channel)] == value,
        before.insert((client, channel), value).dom().contains(other) == before.dom().contains(other),
        before.dom().contains(other) ==> before.insert((client, channel), value)[other] == before[other],
        before.insert((client, channel), value).dom().len() == before.dom().len() + (if before.dom().contains(
            (client, channel),
        ) {
            0int
        } else {
            1int
        }),
{
    if before.dom().contains((client, channel)) {
        assert(before.insert((client, channel), value).dom() =~= before.dom());
    }
}

} // verus!
