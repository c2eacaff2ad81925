//! The channels of the topics that have a live consumer, one per topic.

use vstd::prelude::*;

verus! {

/// The map that a list of entries with distinct keys stands for.
pub open spec fn entries_map<S>(entries: Seq<(String, S)>) -> Map<Seq<char>, S>
    decreases entries.len(),
{
    if entries.len() == 0 {
        Map::empty()
    } else {
        entries_map(entries.drop_last()).insert(entries.last().0@, entries.last().1)
    }
}

/// Whether no two entries share a key.
pub open spec fn distinct_keys<S>(entries: Seq<(String, S)>) -> bool {
    forall|i: int, j: int|
        0 <= i < j < entries.len() ==> (#[trigger] entries[i]).0@ != (#[trigger] entries[j]).0@
}

proof fn lemma_entries_map_lookup<S>(entries: Seq<(String, S)>, key: Seq<char>)
    requires
        distinct_keys(entries),
    ensures
        entries_map(entries).contains_key(key) <==> exists|i: int|
            0 <= i < entries.len() && (#[trigger] entries[i]).0@ == key,
        forall|i: int|
            0 <= i < entries.len() && (#[trigger] entries[i]).0@ == key ==> entries_map(entries)[key]
                == entries[i].1,
    decreases entries.len(),
{
    if entries.len() > 0 {
        let front = entries.drop_last();
        assert(distinct_keys(front));
        lemma_entries_map_lookup(front, key);
        if entries.last().0@ != key {
            assert forall|i: int| 0 <= i < front.len() && (#[trigger] front[i]).0@ == key implies 0
                <= i < entries.len() && entries[i].0@ == key by {}
            if exists|i: int| 0 <= i < entries.len() && (#[trigger] entries[i]).0@ == key {
                let i = choose|i: int| 0 <= i < entries.len() && (#[trigger] entries[i]).0@ == key;
                assert(front[i] == entries[i]);
            }
        } else {
            assert(entries[entries.len() - 1].0@ == key);
            assert forall|i: int|
                0 <= i < entries.len() && (#[trigger] entries[i]).0@ == key implies i == entries.len()
                - 1 by {}
        }
    }
}

proof fn lemma_entries_map_update<S>(entries: Seq<(String, S)>, i: int, entry: (String, S))
    requires
        distinct_keys(entries),
        0 <= i < entries.len(),
        entries[i].0@ == entry.0@,
    ensures
        entries_map(entries.update(i, entry)) == entries_map(entries).insert(entry.0@, entry.1),
        distinct_keys(entries.update(i, entry)),
    decreases entries.len(),
{
    let updated = entries.update(i, entry);
    let front = entries.drop_last();
    assert(distinct_keys(front));
    if i == entries.len() - 1 {
        assert(updated.drop_last() =~= front);
    } else {
        assert(updated.drop_last() =~= front.update(i, entry));
        lemma_entries_map_update(front, i, entry);
        assert(entries.last().0@ != entry.0@);
        assert(entries_map(updated) =~= entries_map(entries).insert(entry.0@, entry.1));
    }
    assert forall|a: int, b: int| 0 <= a < b < updated.len() implies (#[trigger] updated[a]).0@
        != (#[trigger] updated[b]).0@ by {
        assert(entries[a].0@ != entries[b].0@);
    }
}

proof fn lemma_entries_map_len<S>(entries: Seq<(String, S)>)
    requires
        distinct_keys(entries),
    ensures
        entries_map(entries).dom().finite(),
        entries_map(entries).dom().len() == entries.len(),
    decreases entries.len(),
{
    if entries.len() > 0 {
        let front = entries.drop_last();
        assert(distinct_keys(front));
        lemma_entries_map_len(front);
        lemma_entries_map_lookup(front, entries.last().0@);
        assert forall|i: int| 0 <= i < front.len() implies (#[trigger] front[i]).0@ != entries.last().0@ by {
            assert(entries[i].0@ != entries[entries.len() - 1].0@);
        }
    }
}

/// The live channels, one per topic.
pub struct TopicChannels<S> {
    entries: Vec<(String, S)>,
}

impl<S> View for TopicChannels<S> {
    type V = Map<Seq<char>, S>;

    closed spec fn view(&self) -> Map<Seq<char>, S> {
        entries_map(self.entries@)
    }
}

impl<S> TopicChannels<S> {
    #[verifier::type_invariant]
    spec fn well_formed(self) -> bool {
        distinct_keys(self.entries@)
    }

    /// No topic has a channel.
    pub fn new() -> (c: Self)
        ensures
            c@ == Map::<Seq<char>, S>::empty(),
    {
        TopicChannels { entries: Vec::new() }
    }

    /// The number of topics with a channel.
    pub fn len(&self) -> (n: usize)
        ensures
            n == self@.dom().len(),
    {
        proof {
            use_type_invariant(self);
            lemma_entries_map_len(self.entries@);
        }
        self.entries.len()
    }

    /// The channel of `topic`, if it has one.
    #[verifier::loop_isolation(false)]
    pub fn get(&self, topic: &str) -> (r: Option<&S>)
        ensures
            r == (if self@.contains_key(topic@) {
                Some(&self@[topic@])
            } else {
                None
            }),
    {
        proof {
            use_type_invariant(self);
            lemma_entries_map_lookup(self.entries@, topic@);
        }
        let key = String::from_str(topic);
        let mut i: usize = 0;
        while i < self.entries.len()
            invariant
                i <= self.entries@.len(),
                key@ == topic@,
                forall|k: int| 0 <= k < i ==> (#[trigger] self.entries@[k]).0@ != topic@,
            decreases self.entries@.len() - i,
        {
            if self.entries[i].0 == key {
                return Some(&self.entries[i].1);
            }
            i = i + 1;
        }
        None
    }

    /// Gives `topic` the channel `channel`, in place of any it had.
    #[verifier::loop_isolation(false)]
    pub fn insert(&mut self, topic: String, channel: S)
        ensures
            final(self)@ == old(self)@.insert(topic@, channel),
    {
        proof {
            use_type_invariant(&*self);
        }
        let mut entries: Vec<(String, S)> = Vec::new();
        std::mem::swap(&mut entries, &mut self.entries);
        let ghost before = entries@;
        proof {
            lemma_entries_map_lookup(before, topic@);
        }
        let mut i: usize = 0;
        while i < entries.len()
            invariant
                i <= entries@.len(),
                entries@ == before,
                forall|k: int| 0 <= k < i ==> (#[trigger] before[k]).0@ != topic@,
            decreases entries@.len() - i,
        {
            if entries[i].0 == topic {
                proof {
                    lemma_entries_map_update(before, i as int, (topic, channel));
                }
                entries.set(i, (topic, channel));
                self.entries = entries;
                return;
            }
            i = i + 1;
        }
        entries.push((topic, channel));
        proof {
            assert(entries@.drop_last() =~= before);
            assert forall|a: int, b: int| 0 <= a < b < entries@.len() implies (
            #[trigger] entries@[a]).0@ != (#[trigger] entries@[b]).0@ by {
                if b < before.len() {
                    assert(before[a].0@ != before[b].0@);
                }
            }
        }
        self.entries = entries;
    }

    /// Gives `topic` the channel `channel` unless it has one already, and says
    /// whether it did: a topic is registered once, and later calls leave its
    /// channel as it is.
    pub fn get_or_register(&mut self, topic: String, channel: S) -> (registered: bool)
        ensures
            registered == !old(self)@.contains_key(topic@),
            final(self)@ == after_register(old(self)@, topic@, channel),
            final(self)@.contains_key(topic@),
            old(self)@.contains_key(topic@) ==> final(self)@ == old(self)@,
            !old(self)@.contains_key(topic@) ==> final(self)@ == old(self)@.insert(topic@, channel),
    {
        let present = match self.get(topic.as_str()) {
            Some(_) => true,
            None => false,
        };
        if present {
            false
        } else {
            self.insert(topic, channel);
            true
        }
    }

    /// Drops every channel.
    pub fn clear(&mut self)
        ensures
            final(self)@ == Map::<Seq<char>, S>::empty(),
    {
        self.entries = Vec::new();
    }
}

/// After a topic is given a channel, that channel is the one found for it,
/// and every other topic keeps what it had.
pub proof fn lemma_insert_then_get<S>(
    channels: Map<Seq<char>, S>,
    topic: Seq<char>,
    channel: S,
    other: Seq<char>,
)
    ensures
        channels.insert(topic, channel).contains_key(topic),
        channels.insert(topic, channel)[topic] == channel,
        other != topic ==> channels.insert(topic, channel).contains_key(other)
            == channels.contains_key(other),
        other != topic && channels.contains_key(other) ==> channels.insert(topic, channel)[other]
            == channels[other],
{
}

/// The channels after registering `channel` for `topic`: unchanged where the
/// topic has a channel already.
pub open spec fn after_register<S>(channels: Map<Seq<char>, S>, topic: Seq<char>, channel: S) -> Map<
    Seq<char>,
    S,
> {
    if channels.contains_key(topic) {
        channels
    } else {
        channels.insert(topic, channel)
    }
}

/// One channel per topic: once a topic is registered, registering it again
/// registers nothing and keeps the first channel.
pub proof fn lemma_register_once<S>(
    channels: Map<Seq<char>, S>,
    topic: Seq<char>,
    first: S,
    second: S,
)
    ensures
        after_register(channels, topic, first).contains_key(topic),
        after_register(after_register(channels, topic, first), topic, second) == after_register(
            channels,
            topic,
            first,
        ),
        !channels.contains_key(topic) ==> after_register(channels, topic, first)[topic] == first,
{
}

} // verus!
