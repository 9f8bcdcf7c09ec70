//! The broker's tables as mathematics: which subscriber belongs to which topic
//! or pattern, what each operation does to them, and what follows.

use vstd::prelude::*;

use super::registry::{enrolled, members, no_sets, struck, vacant_set};

verus! {

/// The table after `id` left the set under `key`; a key whose last member left
/// leaves with it.
pub open spec fn withdrawn(m: Map<Seq<char>, Set<u32>>, key: Seq<char>, id: u32) -> Map<
    Seq<char>,
    Set<u32>,
> {
    if m.contains_key(key) && vacant_set(m[key].remove(id)) {
        m.remove(key)
    } else {
        struck(m, key, id)
    }
}

/// What a broker knows.
pub struct BrokerModel {
    /// Subscribers by topic.
    pub topics: Map<Seq<char>, Set<u32>>,
    /// Subscribers by glob pattern, keyed by the pattern's text.
    pub patterns: Map<Seq<char>, Set<u32>>,
    /// The subscriptions that can still be delivered to.
    pub subscriptions: Set<u32>,
    /// The id the next subscription gets.
    pub next_id: u32,
}

impl BrokerModel {
    /// A broker nobody has subscribed to.
    pub open spec fn initial() -> BrokerModel {
        BrokerModel {
            topics: no_sets(),
            patterns: no_sets(),
            subscriptions: Set::empty(),
            next_id: 1,
        }
    }

    /// Whether `id` occurs anywhere in the broker's tables.
    pub open spec fn mentions(&self, id: u32) -> bool {
        ||| self.subscriptions.contains(id)
        ||| exists|t: Seq<char>| self.topics.contains_key(t) && self.topics[t].contains(id)
        ||| exists|p: Seq<char>| self.patterns.contains_key(p) && self.patterns[p].contains(id)
    }

    /// What always holds of a broker: ids are positive and were handed out
    /// before; no topic or pattern is kept without a subscriber.
    pub open spec fn wf(&self) -> bool {
        &&& self.next_id >= 1
        &&& forall|id: u32| self.mentions(id) ==> 1 <= id < self.next_id
        &&& forall|t: Seq<char>| self.topics.contains_key(t) ==> !vacant_set(#[trigger] self.topics[t])
        &&& forall|p: Seq<char>|
            self.patterns.contains_key(p) ==> !vacant_set(#[trigger] self.patterns[p])
    }

    /// Whether every subscriber listed under a topic or a pattern can be
    /// delivered to.
    pub open spec fn consistent(&self) -> bool {
        &&& forall|t: Seq<char>, id: u32|
            self.topics.contains_key(t) && #[trigger] self.topics[t].contains(id)
                ==> self.subscriptions.contains(id)
        &&& forall|p: Seq<char>, id: u32|
            self.patterns.contains_key(p) && #[trigger] self.patterns[p].contains(id)
                ==> self.subscriptions.contains(id)
    }

    /// Whether `id` is listed nowhere but, possibly, under topic `name`.
    pub open spec fn only_under_topic(&self, name: Seq<char>, id: u32) -> bool {
        &&& forall|t: Seq<char>|
            self.topics.contains_key(t) && #[trigger] self.topics[t].contains(id) ==> t == name
        &&& forall|p: Seq<char>|
            self.patterns.contains_key(p) ==> !(#[trigger] self.patterns[p]).contains(id)
    }

    /// Whether `id` is listed nowhere but, possibly, under pattern `pattern`.
    pub open spec fn only_under_pattern(&self, pattern: Seq<char>, id: u32) -> bool {
        &&& forall|p: Seq<char>|
            self.patterns.contains_key(p) && #[trigger] self.patterns[p].contains(id) ==> p
                == pattern
        &&& forall|t: Seq<char>|
            self.topics.contains_key(t) ==> !(#[trigger] self.topics[t]).contains(id)
    }

    /// Whether an id is left to hand out.
    pub open spec fn has_free_id(&self) -> bool {
        self.next_id < u32::MAX
    }

    /// The broker after a new subscriber joined topic `name`; its id is the old
    /// `next_id`.
    pub open spec fn subscribe(&self, name: Seq<char>) -> BrokerModel {
        BrokerModel {
            topics: enrolled(self.topics, name, self.next_id),
            patterns: self.patterns,
            subscriptions: self.subscriptions.insert(self.next_id),
            next_id: (self.next_id + 1) as u32,
        }
    }

    /// The broker after a new subscriber joined pattern `pattern`; its id is the
    /// old `next_id`.
    pub open spec fn psubscribe(&self, pattern: Seq<char>) -> BrokerModel {
        BrokerModel {
            topics: self.topics,
            patterns: enrolled(self.patterns, pattern, self.next_id),
            subscriptions: self.subscriptions.insert(self.next_id),
            next_id: (self.next_id + 1) as u32,
        }
    }

    /// The broker after `id` was taken off topic `name` and off the
    /// subscriptions.
    pub open spec fn unsubscribe(&self, name: Seq<char>, id: u32) -> BrokerModel {
        BrokerModel {
            topics: withdrawn(self.topics, name, id),
            patterns: self.patterns,
            subscriptions: self.subscriptions.remove(id),
            next_id: self.next_id,
        }
    }

    /// The broker after `id` was taken off pattern `pattern` and off the
    /// subscriptions.
    pub open spec fn punsubscribe(&self, pattern: Seq<char>, id: u32) -> BrokerModel {
        BrokerModel {
            topics: self.topics,
            patterns: withdrawn(self.patterns, pattern, id),
            subscriptions: self.subscriptions.remove(id),
            next_id: self.next_id,
        }
    }

    /// The subscribers of topic `name` that a publish to it is delivered to.
    pub open spec fn topic_targets(&self, name: Seq<char>) -> Set<u32> {
        members(self.topics, name).intersect(self.subscriptions)
    }

    /// The subscribers of pattern `pattern` that a publish to a topic it
    /// matches is delivered to.
    pub open spec fn pattern_targets(&self, pattern: Seq<char>) -> Set<u32> {
        members(self.patterns, pattern).intersect(self.subscriptions)
    }

    /// The broker after each of `failed`, in turn, was taken off topic `name`.
    pub open spec fn prune_topic(&self, name: Seq<char>, failed: Seq<u32>) -> BrokerModel
        decreases failed.len(),
    {
        if failed.len() == 0 {
            *self
        } else {
            self.prune_topic(name, failed.drop_last()).unsubscribe(name, failed.last())
        }
    }

    /// The broker after each `(pattern, id)` of `failed`, in turn, was taken off
    /// its pattern.
    pub open spec fn prune_patterns(&self, failed: Seq<(Seq<char>, u32)>) -> BrokerModel
        decreases failed.len(),
    {
        if failed.len() == 0 {
            *self
        } else {
            self.prune_patterns(failed.drop_last()).punsubscribe(failed.last().0, failed.last().1)
        }
    }
}

/// Members of the table after an id joined.
pub proof fn lemma_enrolled(m: Map<Seq<char>, Set<u32>>, key: Seq<char>, id: u32)
    ensures
        forall|k: Seq<char>| #[trigger]
            enrolled(m, key, id).contains_key(k) <==> (k == key || m.contains_key(k)),
        forall|k: Seq<char>, x: u32|
            #![trigger enrolled(m, key, id)[k].contains(x)]
            enrolled(m, key, id).contains_key(k) ==> (enrolled(m, key, id)[k].contains(x) <==> ((k
                == key && x == id) || (m.contains_key(k) && m[k].contains(x)))),
        !vacant_set(enrolled(m, key, id)[key]),
{
    assert(enrolled(m, key, id)[key].contains(id));
}

/// Members of the table after an id left.
pub proof fn lemma_withdrawn(m: Map<Seq<char>, Set<u32>>, key: Seq<char>, id: u32)
    ensures
        forall|k: Seq<char>| #[trigger]
            withdrawn(m, key, id).contains_key(k) ==> m.contains_key(k),
        forall|k: Seq<char>, x: u32|
            #![trigger withdrawn(m, key, id)[k].contains(x)]
            withdrawn(m, key, id).contains_key(k) ==> (withdrawn(m, key, id)[k].contains(x) <==> (
            m[k].contains(x) && !(k == key && x == id))),
        forall|k: Seq<char>, x: u32|
            #![trigger m[k].contains(x)]
            m.contains_key(k) && m[k].contains(x) && !(k == key && x == id) ==> withdrawn(
                m,
                key,
                id,
            ).contains_key(k),
        forall|k: Seq<char>| #[trigger]
            withdrawn(m, key, id).contains_key(k) && !vacant_set(m[k]) ==> !vacant_set(
                withdrawn(m, key, id)[k],
            ),
{
    assert forall|k: Seq<char>, x: u32|
        m.contains_key(k) && #[trigger] m[k].contains(x) && !(k == key && x == id) implies withdrawn(
        m,
        key,
        id,
    ).contains_key(k) by {
        if k == key {
            assert(m[key].remove(id).contains(x));
        }
    }
    assert forall|k: Seq<char>| #[trigger]
        withdrawn(m, key, id).contains_key(k) && !vacant_set(m[k]) implies !vacant_set(
        withdrawn(m, key, id)[k],
    ) by {
        if k == key {
        } else {
            assert(withdrawn(m, key, id)[k] == m[k]);
        }
    }
}

/// Subscribing keeps the broker well-formed, and keeps it consistent if it was.
pub proof fn lemma_subscribe_preserves(b: BrokerModel, name: Seq<char>)
    requires
        b.wf(),
        b.has_free_id(),
    ensures
        b.subscribe(name).wf(),
        b.psubscribe(name).wf(),
        b.consistent() ==> b.subscribe(name).consistent() && b.psubscribe(name).consistent(),
{
    lemma_enrolled(b.topics, name, b.next_id);
    lemma_enrolled(b.patterns, name, b.next_id);
    let s = b.subscribe(name);
    let p = b.psubscribe(name);
    assert forall|id: u32| s.mentions(id) implies 1 <= id < s.next_id by {
        if id != b.next_id {
            if s.subscriptions.contains(id) {
                assert(b.mentions(id));
            } else if exists|t: Seq<char>| s.topics.contains_key(t) && s.topics[t].contains(id) {
                let t = choose|t: Seq<char>| s.topics.contains_key(t) && s.topics[t].contains(id);
                assert(b.topics.contains_key(t) && b.topics[t].contains(id));
                assert(b.mentions(id));
            } else {
                let q = choose|q: Seq<char>|
                    s.patterns.contains_key(q) && s.patterns[q].contains(id);
                assert(b.patterns.contains_key(q) && b.patterns[q].contains(id));
                assert(b.mentions(id));
            }
        }
    }
    assert forall|id: u32| p.mentions(id) implies 1 <= id < p.next_id by {
        if id != b.next_id {
            if p.subscriptions.contains(id) {
                assert(b.mentions(id));
            } else if exists|t: Seq<char>| p.topics.contains_key(t) && p.topics[t].contains(id) {
                let t = choose|t: Seq<char>| p.topics.contains_key(t) && p.topics[t].contains(id);
                assert(b.mentions(id));
            } else {
                let q = choose|q: Seq<char>|
                    p.patterns.contains_key(q) && p.patterns[q].contains(id);
                assert(b.patterns.contains_key(q) && b.patterns[q].contains(id));
                assert(b.mentions(id));
            }
        }
    }
    assert forall|t: Seq<char>| s.topics.contains_key(t) implies !vacant_set(
        #[trigger] s.topics[t],
    ) by {
        if t != name {
            assert(s.topics[t] == b.topics[t]);
        }
    }
    assert forall|q: Seq<char>| p.patterns.contains_key(q) implies !vacant_set(
        #[trigger] p.patterns[q],
    ) by {
        if q != name {
            assert(p.patterns[q] == b.patterns[q]);
        }
    }
}

/// Unsubscribing keeps the broker well-formed.
pub proof fn lemma_unsubscribe_preserves(b: BrokerModel, name: Seq<char>, id: u32)
    requires
        b.wf(),
    ensures
        b.unsubscribe(name, id).wf(),
        b.punsubscribe(name, id).wf(),
{
    lemma_withdrawn(b.topics, name, id);
    lemma_withdrawn(b.patterns, name, id);
    let s = b.unsubscribe(name, id);
    let p = b.punsubscribe(name, id);
    assert forall|x: u32| s.mentions(x) implies 1 <= x < s.next_id by {
        if s.subscriptions.contains(x) {
            assert(b.mentions(x));
        } else if exists|t: Seq<char>| s.topics.contains_key(t) && s.topics[t].contains(x) {
            let t = choose|t: Seq<char>| s.topics.contains_key(t) && s.topics[t].contains(x);
            assert(b.topics.contains_key(t) && b.topics[t].contains(x));
            assert(b.mentions(x));
        } else {
            let q = choose|q: Seq<char>| s.patterns.contains_key(q) && s.patterns[q].contains(x);
            assert(b.mentions(x));
        }
    }
    assert forall|x: u32| p.mentions(x) implies 1 <= x < p.next_id by {
        if p.subscriptions.contains(x) {
            assert(b.mentions(x));
        } else if exists|t: Seq<char>| p.topics.contains_key(t) && p.topics[t].contains(x) {
            let t = choose|t: Seq<char>| p.topics.contains_key(t) && p.topics[t].contains(x);
            assert(b.mentions(x));
        } else {
            let q = choose|q: Seq<char>| p.patterns.contains_key(q) && p.patterns[q].contains(x);
            assert(b.patterns.contains_key(q) && b.patterns[q].contains(x));
            assert(b.mentions(x));
        }
    }
    assert forall|t: Seq<char>| s.topics.contains_key(t) implies !vacant_set(
        #[trigger] s.topics[t],
    ) by {
        assert(b.topics.contains_key(t));
    }
    assert forall|q: Seq<char>| p.patterns.contains_key(q) implies !vacant_set(
        #[trigger] p.patterns[q],
    ) by {
        assert(b.patterns.contains_key(q));
    }
}

/// A new subscriber gets a positive id that nobody had before, and is delivered
/// to from the moment it has subscribed.
pub proof fn law_subscriber_is_target(b: BrokerModel, name: Seq<char>)
    requires
        b.wf(),
        b.has_free_id(),
    ensures
        b.subscribe(name).topic_targets(name).contains(b.next_id),
        b.psubscribe(name).pattern_targets(name).contains(b.next_id),
        b.next_id >= 1,
        !b.mentions(b.next_id),
{
    lemma_enrolled(b.topics, name, b.next_id);
    lemma_enrolled(b.patterns, name, b.next_id);
}

/// A subscriber that was delivered to under a topic or a pattern still is after
/// somebody else subscribed or unsubscribed.
pub proof fn law_others_do_not_disturb(
    b: BrokerModel,
    key: Seq<char>,
    id: u32,
    other_key: Seq<char>,
    other: u32,
)
    requires
        b.wf(),
        other != id,
    ensures
        b.topic_targets(key).contains(id) ==> {
            &&& b.subscribe(other_key).topic_targets(key).contains(id)
            &&& b.psubscribe(other_key).topic_targets(key).contains(id)
            &&& b.unsubscribe(other_key, other).topic_targets(key).contains(id)
            &&& b.punsubscribe(other_key, other).topic_targets(key).contains(id)
        },
        b.pattern_targets(key).contains(id) ==> {
            &&& b.subscribe(other_key).pattern_targets(key).contains(id)
            &&& b.psubscribe(other_key).pattern_targets(key).contains(id)
            &&& b.unsubscribe(other_key, other).pattern_targets(key).contains(id)
            &&& b.punsubscribe(other_key, other).pattern_targets(key).contains(id)
        },
{
    lemma_enrolled(b.topics, other_key, b.next_id);
    lemma_enrolled(b.patterns, other_key, b.next_id);
    lemma_withdrawn(b.topics, other_key, other);
    lemma_withdrawn(b.patterns, other_key, other);
    if b.topic_targets(key).contains(id) {
        assert(b.topics.contains_key(key) && b.topics[key].contains(id));
        assert(withdrawn(b.topics, other_key, other).contains_key(key));
        assert(withdrawn(b.topics, other_key, other)[key].contains(id));
        assert(enrolled(b.topics, other_key, b.next_id)[key].contains(id));
    }
    if b.pattern_targets(key).contains(id) {
        assert(b.patterns.contains_key(key) && b.patterns[key].contains(id));
        assert(withdrawn(b.patterns, other_key, other).contains_key(key));
        assert(withdrawn(b.patterns, other_key, other)[key].contains(id));
        assert(enrolled(b.patterns, other_key, b.next_id)[key].contains(id));
    }
}

/// After a subscription has ended, no publish is delivered to it, whatever the
/// topic, and ending it again finds nothing.
pub proof fn law_unsubscribed_gets_nothing(b: BrokerModel, key: Seq<char>, id: u32, any: Seq<char>)
    ensures
        !b.unsubscribe(key, id).subscriptions.contains(id),
        !b.unsubscribe(key, id).topic_targets(any).contains(id),
        !b.unsubscribe(key, id).pattern_targets(any).contains(id),
        !b.punsubscribe(key, id).subscriptions.contains(id),
        !b.punsubscribe(key, id).topic_targets(any).contains(id),
        !b.punsubscribe(key, id).pattern_targets(any).contains(id),
{
}

/// What pruning a topic leaves: the subscriptions lose exactly the failed ids;
/// patterns and the id counter stay.
#[verifier::rlimit(50)]
pub proof fn lemma_prune_topic(b: BrokerModel, name: Seq<char>, failed: Seq<u32>)
    ensures
        b.prune_topic(name, failed).subscriptions =~= b.subscriptions.difference(failed.to_set()),
        b.prune_topic(name, failed).patterns == b.patterns,
        b.prune_topic(name, failed).next_id == b.next_id,
        forall|t: Seq<char>, x: u32|
            #![trigger b.prune_topic(name, failed).topics[t].contains(x)]
            b.prune_topic(name, failed).topics.contains_key(t) && b.prune_topic(
                name,
                failed,
            ).topics[t].contains(x) ==> b.topics.contains_key(t) && b.topics[t].contains(x) && !(t
                == name && failed.contains(x)),
        forall|t: Seq<char>, x: u32|
            #![trigger b.topics[t].contains(x)]
            b.topics.contains_key(t) && b.topics[t].contains(x) && !(t == name && failed.contains(
                x,
            )) ==> b.prune_topic(name, failed).topics.contains_key(t) && b.prune_topic(
                name,
                failed,
            ).topics[t].contains(x),
    decreases failed.len(),
{
    if failed.len() > 0 {
        let before = b.prune_topic(name, failed.drop_last());
        let last = failed.last();
        lemma_prune_topic(b, name, failed.drop_last());
        lemma_withdrawn(before.topics, name, last);
        assert forall|x: u32| failed.contains(x) <==> (failed.drop_last().contains(x) || x
            == last) by {
            if failed.contains(x) {
                let k = choose|k: int| 0 <= k < failed.len() && failed[k] == x;
                if k < failed.len() - 1 {
                    assert(failed.drop_last()[k] == x);
                }
            }
            if failed.drop_last().contains(x) {
                let k = choose|k: int| 0 <= k < failed.drop_last().len() && failed.drop_last()[k]
                    == x;
                assert(failed[k] == x);
            }
            if x == last {
                assert(failed[failed.len() - 1] == x);
            }
        }
        let after = b.prune_topic(name, failed);
        assert(after == before.unsubscribe(name, last));
        assert forall|t: Seq<char>, x: u32|
            #![trigger after.topics[t].contains(x)]
            after.topics.contains_key(t) && after.topics[t].contains(x)
                implies b.topics.contains_key(t) && b.topics[t].contains(x) && !(t == name
            && failed.contains(x)) by {
            assert(before.topics.contains_key(t));
            assert(before.topics[t].contains(x));
        }
        assert forall|t: Seq<char>, x: u32|
            #![trigger b.topics[t].contains(x)]
            b.topics.contains_key(t) && b.topics[t].contains(x) && !(t == name && failed.contains(
                x,
            )) implies after.topics.contains_key(t) && after.topics[t].contains(x) by {
            assert(!(t == name && failed.drop_last().contains(x)));
            assert(before.topics.contains_key(t) && before.topics[t].contains(x));
            assert(!(t == name && x == last));
            assert(after.topics.contains_key(t));
        }
    } else {
        assert(failed.to_set() =~= Set::empty());
    }
}

/// A subscriber that a publish could not reach is gone afterwards: nothing more
/// is delivered to it, and ending its subscription finds nothing. The
/// subscribers the publish did reach stay.
pub proof fn law_unreachable_subscriber_is_pruned(
    b: BrokerModel,
    name: Seq<char>,
    failed: Seq<u32>,
    id: u32,
    any: Seq<char>,
)
    ensures
        failed.contains(id) ==> {
            &&& !b.prune_topic(name, failed).subscriptions.contains(id)
            &&& !b.prune_topic(name, failed).topic_targets(any).contains(id)
            &&& !b.prune_topic(name, failed).pattern_targets(any).contains(id)
        },
        !failed.contains(id) ==> {
            &&& b.prune_topic(name, failed).topic_targets(any).contains(id) == b.topic_targets(
                any,
            ).contains(id)
            &&& b.prune_topic(name, failed).pattern_targets(any).contains(id) == b.pattern_targets(
                any,
            ).contains(id)
        },
{
    lemma_prune_topic(b, name, failed);
    let after = b.prune_topic(name, failed);
    if !failed.contains(id) {
        if b.topic_targets(any).contains(id) {
            assert(b.topics.contains_key(any) && b.topics[any].contains(id));
            assert(after.topics.contains_key(any) && after.topics[any].contains(id));
        }
        if after.topic_targets(any).contains(id) {
            assert(after.topics.contains_key(any) && after.topics[any].contains(id));
        }
    }
}

/// What pruning patterns leaves: the subscriptions lose exactly the failed
/// ids; topics and the id counter stay.
#[verifier::rlimit(50)]
pub proof fn lemma_prune_patterns(b: BrokerModel, failed: Seq<(Seq<char>, u32)>)
    ensures
        b.prune_patterns(failed).subscriptions =~= b.subscriptions.difference(
            Set::new(|id: u32| exists|i: int| 0 <= i < failed.len() && (#[trigger] failed[i]).1 == id),
        ),
        b.prune_patterns(failed).topics == b.topics,
        b.prune_patterns(failed).next_id == b.next_id,
        forall|p: Seq<char>, x: u32|
            #![trigger b.prune_patterns(failed).patterns[p].contains(x)]
            b.prune_patterns(failed).patterns.contains_key(p) && b.prune_patterns(
                failed,
            ).patterns[p].contains(x) ==> b.patterns.contains_key(p) && b.patterns[p].contains(x)
                && !failed.contains((p, x)),
        forall|p: Seq<char>, x: u32|
            #![trigger b.patterns[p].contains(x)]
            b.patterns.contains_key(p) && b.patterns[p].contains(x) && !failed.contains((p, x))
                ==> b.prune_patterns(failed).patterns.contains_key(p) && b.prune_patterns(
                failed,
            ).patterns[p].contains(x),
    decreases failed.len(),
{
    let gone = Set::new(
        |id: u32| exists|i: int| 0 <= i < failed.len() && (#[trigger] failed[i]).1 == id,
    );
    if failed.len() > 0 {
        let shorter = failed.drop_last();
        let before = b.prune_patterns(shorter);
        let last = failed.last();
        let gone_before = Set::new(
            |id: u32| exists|i: int| 0 <= i < shorter.len() && (#[trigger] shorter[i]).1 == id,
        );
        lemma_prune_patterns(b, shorter);
        lemma_withdrawn(before.patterns, last.0, last.1);
        let after = b.prune_patterns(failed);
        assert(after == before.punsubscribe(last.0, last.1));
        assert forall|id: u32| gone.contains(id) <==> (gone_before.contains(id) || id
            == last.1) by {
            if gone.contains(id) {
                let i = choose|i: int| 0 <= i < failed.len() && (#[trigger] failed[i]).1 == id;
                if i < failed.len() - 1 {
                    assert(shorter[i].1 == id);
                }
            }
            if gone_before.contains(id) {
                let i = choose|i: int| 0 <= i < shorter.len() && (#[trigger] shorter[i]).1 == id;
                assert(failed[i].1 == id);
            }
            if id == last.1 {
                assert(failed[failed.len() - 1].1 == id);
            }
        }
        assert(after.subscriptions =~= b.subscriptions.difference(gone));
        assert forall|pair: (Seq<char>, u32)| failed.contains(pair) <==> (shorter.contains(pair)
            || pair == last) by {
            if failed.contains(pair) {
                let i = choose|i: int| 0 <= i < failed.len() && failed[i] == pair;
                if i < failed.len() - 1 {
                    assert(shorter[i] == pair);
                }
            }
            if shorter.contains(pair) {
                let i = choose|i: int| 0 <= i < shorter.len() && shorter[i] == pair;
                assert(failed[i] == pair);
            }
            if pair == last {
                assert(failed[failed.len() - 1] == pair);
            }
        }
        assert forall|p: Seq<char>, x: u32|
            #![trigger after.patterns[p].contains(x)]
            after.patterns.contains_key(p) && after.patterns[p].contains(x)
                implies b.patterns.contains_key(p) && b.patterns[p].contains(x)
            && !failed.contains((p, x)) by {
            assert(before.patterns.contains_key(p));
            assert(before.patterns[p].contains(x));
            assert(!shorter.contains((p, x)));
            assert((p, x) != last);
        }
        assert forall|p: Seq<char>, x: u32|
            #![trigger b.patterns[p].contains(x)]
            b.patterns.contains_key(p) && b.patterns[p].contains(x) && !failed.contains(
                (p, x),
            ) implies after.patterns.contains_key(p) && after.patterns[p].contains(x) by {
            assert(!shorter.contains((p, x)));
            assert(before.patterns.contains_key(p) && before.patterns[p].contains(x));
            assert((p, x) != last);
            assert(after.patterns.contains_key(p));
        }
    } else {
        assert(gone =~= Set::empty());
    }
}

/// A pattern subscriber that a publish could not reach is gone afterwards:
/// nothing more is delivered to it, and ending its subscription finds
/// nothing. The subscribers that were not reported stay.
pub proof fn law_unreachable_pattern_subscriber_is_pruned(
    b: BrokerModel,
    failed: Seq<(Seq<char>, u32)>,
    pattern: Seq<char>,
    id: u32,
    any: Seq<char>,
)
    ensures
        failed.contains((pattern, id)) ==> {
            &&& !b.prune_patterns(failed).subscriptions.contains(id)
            &&& !b.prune_patterns(failed).topic_targets(any).contains(id)
            &&& !b.prune_patterns(failed).pattern_targets(any).contains(id)
        },
        (forall|i: int| 0 <= i < failed.len() ==> (#[trigger] failed[i]).1 != id) ==> {
            &&& b.prune_patterns(failed).topic_targets(any).contains(id) == b.topic_targets(
                any,
            ).contains(id)
            &&& b.prune_patterns(failed).pattern_targets(any).contains(id) == b.pattern_targets(
                any,
            ).contains(id)
        },
{
    lemma_prune_patterns(b, failed);
    let after = b.prune_patterns(failed);
    if failed.contains((pattern, id)) {
        let i = choose|i: int| 0 <= i < failed.len() && failed[i] == (pattern, id);
        assert(failed[i].1 == id);
    }
    if forall|i: int| 0 <= i < failed.len() ==> (#[trigger] failed[i]).1 != id {
        assert(!failed.contains((any, id))) by {
            if failed.contains((any, id)) {
                let i = choose|i: int| 0 <= i < failed.len() && failed[i] == (any, id);
                assert(failed[i].1 == id);
            }
        }
        if b.pattern_targets(any).contains(id) {
            assert(b.patterns.contains_key(any) && b.patterns[any].contains(id));
            assert(after.patterns.contains_key(any) && after.patterns[any].contains(id));
        }
        if after.pattern_targets(any).contains(id) {
            assert(after.patterns.contains_key(any) && after.patterns[any].contains(id));
        }
    }
}

/// Whether no id is listed under two topics, two patterns, or a topic and a
/// pattern.
pub open spec fn exclusive(b: BrokerModel) -> bool {
    &&& forall|t: Seq<char>, u: Seq<char>, id: u32|
        b.topics.contains_key(t) && b.topics.contains_key(u) && #[trigger] b.topics[t].contains(id)
            && #[trigger] b.topics[u].contains(id) ==> t == u
    &&& forall|p: Seq<char>, q: Seq<char>, id: u32|
        b.patterns.contains_key(p) && b.patterns.contains_key(q)
            && #[trigger] b.patterns[p].contains(id) && #[trigger] b.patterns[q].contains(id) ==> p
            == q
    &&& forall|t: Seq<char>, p: Seq<char>, id: u32|
        b.topics.contains_key(t) && b.patterns.contains_key(p) ==> !(
        #[trigger] b.topics[t].contains(id) && #[trigger] b.patterns[p].contains(id))
}

/// Every subscriber listed under a topic or a pattern can be delivered to, and
/// no subscriber is listed twice: this holds of a new broker, and subscribing
/// keeps it. Ending a subscription under the key it is listed under keeps it
/// too. (Ending it under another key leaves the id listed where it was, with
/// nothing to deliver to.)
#[verifier::rlimit(50)]
pub proof fn law_listed_subscribers_are_known(b: BrokerModel, key: Seq<char>, id: u32)
    requires
        b.wf(),
        b.consistent(),
        exclusive(b),
    ensures
        BrokerModel::initial().wf() && BrokerModel::initial().consistent() && exclusive(
            BrokerModel::initial(),
        ),
        b.has_free_id() ==> b.subscribe(key).consistent() && exclusive(b.subscribe(key)),
        b.has_free_id() ==> b.psubscribe(key).consistent() && exclusive(b.psubscribe(key)),
        exclusive(b.unsubscribe(key, id)),
        exclusive(b.punsubscribe(key, id)),
        (b.topics.contains_key(key) && b.topics[key].contains(id)) || !b.mentions(id)
            ==> b.unsubscribe(key, id).consistent(),
        (b.patterns.contains_key(key) && b.patterns[key].contains(id)) || !b.mentions(id)
            ==> b.punsubscribe(key, id).consistent(),
{
    lemma_enrolled(b.topics, key, b.next_id);
    lemma_enrolled(b.patterns, key, b.next_id);
    lemma_withdrawn(b.topics, key, id);
    lemma_withdrawn(b.patterns, key, id);
    if b.has_free_id() {
        lemma_subscribe_preserves(b, key);
        let s = b.subscribe(key);
        let p = b.psubscribe(key);
        assert forall|t: Seq<char>, x: u32|
            b.topics.contains_key(t) && #[trigger] b.topics[t].contains(x) implies x
            != b.next_id by {
            assert(b.mentions(x));
        }
        assert forall|t: Seq<char>, x: u32|
            b.patterns.contains_key(t) && #[trigger] b.patterns[t].contains(x) implies x
            != b.next_id by {
            assert(b.mentions(x));
        }
        assert(exclusive(s));
        assert(exclusive(p));
    }
    let u = b.unsubscribe(key, id);
    let v = b.punsubscribe(key, id);
    assert(exclusive(u));
    assert(exclusive(v));
    if (b.topics.contains_key(key) && b.topics[key].contains(id)) || !b.mentions(id) {
        assert forall|t: Seq<char>, x: u32|
            u.topics.contains_key(t) && #[trigger] u.topics[t].contains(x)
                implies u.subscriptions.contains(x) by {
            assert(b.topics.contains_key(t) && b.topics[t].contains(x));
            if x == id {
                assert(b.mentions(id));
                assert(t == key);
            }
        }
        assert forall|q: Seq<char>, x: u32|
            u.patterns.contains_key(q) && #[trigger] u.patterns[q].contains(x)
                implies u.subscriptions.contains(x) by {
            if x == id {
                assert(b.mentions(id));
            }
        }
    }
    if (b.patterns.contains_key(key) && b.patterns[key].contains(id)) || !b.mentions(id) {
        assert forall|q: Seq<char>, x: u32|
            v.patterns.contains_key(q) && #[trigger] v.patterns[q].contains(x)
                implies v.subscriptions.contains(x) by {
            assert(b.patterns.contains_key(q) && b.patterns[q].contains(x));
            if x == id {
                assert(b.mentions(id));
                assert(q == key);
            }
        }
        assert forall|t: Seq<char>, x: u32|
            v.topics.contains_key(t) && #[trigger] v.topics[t].contains(x)
                implies v.subscriptions.contains(x) by {
            if x == id {
                assert(b.mentions(id));
            }
        }
    }
}

/// A list of targets that names each subscriber of a publish once names a
/// subscriber exactly once if the publish is for it, and not at all if not: so
/// each publish reaches a subscriber once, and what a subscriber receives is,
/// in order, what was published for it.
pub proof fn law_delivered_exactly_once(targets: Seq<u32>, wanted: Set<u32>, id: u32)
    requires
        targets.no_duplicates(),
        targets.to_set() == wanted,
    ensures
        wanted.contains(id) ==> exists|i: int|
            0 <= i < targets.len() && #[trigger] targets[i] == id && forall|j: int|
                0 <= j < targets.len() && #[trigger] targets[j] == id ==> j == i,
        !wanted.contains(id) ==> forall|j: int|
            0 <= j < targets.len() ==> #[trigger] targets[j] != id,
{
    if wanted.contains(id) {
        assert(targets.to_set().contains(id));
        let i = choose|i: int| 0 <= i < targets.len() && targets[i] == id;
        assert(targets[i] == id);
    } else {
        assert forall|j: int| 0 <= j < targets.len() implies #[trigger] targets[j] != id by {
            if targets[j] == id {
                assert(targets.to_set().contains(targets[j]));
            }
        }
    }
}

/// While no subscriber is listed twice, a subscriber of a topic is a target of
/// the publishes to that topic and of no other topic's, and matches no
/// pattern's list.
pub proof fn law_topic_subscriber_gets_its_topic_only(
    b: BrokerModel,
    name: Seq<char>,
    id: u32,
    other: Seq<char>,
)
    requires
        exclusive(b),
        b.topic_targets(name).contains(id),
    ensures
        b.topic_targets(other).contains(id) <==> other == name,
        !b.pattern_targets(other).contains(id),
{
    assert(b.topics.contains_key(name) && b.topics[name].contains(id));
    if b.topic_targets(other).contains(id) {
        assert(b.topics.contains_key(other) && b.topics[other].contains(id));
    }
    if b.pattern_targets(other).contains(id) {
        assert(b.patterns.contains_key(other) && b.patterns[other].contains(id));
    }
}

/// Ending a subscription twice is the same as ending it once.
pub proof fn law_unsubscribe_is_idempotent(b: BrokerModel, key: Seq<char>, id: u32)
    ensures
        b.unsubscribe(key, id).unsubscribe(key, id) == b.unsubscribe(key, id),
        b.punsubscribe(key, id).punsubscribe(key, id) == b.punsubscribe(key, id),
{
    lemma_withdrawn_twice(b.topics, key, id);
    lemma_withdrawn_twice(b.patterns, key, id);
    assert(b.subscriptions.remove(id).remove(id) =~= b.subscriptions.remove(id));
}

/// Taking an id off a key twice is the same as taking it off once.
pub proof fn lemma_withdrawn_twice(m: Map<Seq<char>, Set<u32>>, key: Seq<char>, id: u32)
    ensures
        withdrawn(withdrawn(m, key, id), key, id) == withdrawn(m, key, id),
{
    let once = withdrawn(m, key, id);
    if once.contains_key(key) {
        assert(once[key] == m[key].remove(id));
        assert(once[key].remove(id) =~= once[key]);
        assert(once.insert(key, once[key]) =~= once);
    }
    assert(withdrawn(once, key, id) =~= once);
}

/// One publish as it was delivered: the topic, what was published, and the
/// subscribers it was sent to.
pub struct Sent<M> {
    pub topic: Seq<char>,
    pub message: M,
    pub targets: Seq<u32>,
}

/// What subscriber `id` was sent by a run of publishes, in order.
pub open spec fn received<M>(run: Seq<Sent<M>>, id: u32) -> Seq<M>
    decreases run.len(),
{
    if run.len() == 0 {
        Seq::empty()
    } else if run.last().targets.contains(id) {
        received(run.drop_last(), id).push(run.last().message)
    } else {
        received(run.drop_last(), id)
    }
}

/// What a run of publishes published to topic `name`, in order.
pub open spec fn published_to<M>(run: Seq<Sent<M>>, name: Seq<char>) -> Seq<M>
    decreases run.len(),
{
    if run.len() == 0 {
        Seq::empty()
    } else if run.last().topic == name {
        published_to(run.drop_last(), name).push(run.last().message)
    } else {
        published_to(run.drop_last(), name)
    }
}

/// A subscriber that is a target of exactly the publishes to its topic is sent
/// what was published to that topic, in the order of the publishes, and
/// nothing else.
pub proof fn law_received_is_published<M>(run: Seq<Sent<M>>, name: Seq<char>, id: u32)
    requires
        forall|i: int|
            0 <= i < run.len() ==> ((#[trigger] run[i]).targets.contains(id) <==> run[i].topic
                == name),
    ensures
        received(run, id) == published_to(run, name),
    decreases run.len(),
{
    if run.len() > 0 {
        assert forall|i: int| 0 <= i < run.drop_last().len() implies ((
        #[trigger] run.drop_last()[i]).targets.contains(id) <==> run.drop_last()[i].topic
            == name) by {
            assert(run.drop_last()[i] == run[i]);
        }
        law_received_is_published(run.drop_last(), name, id);
        assert(run.last() == run[run.len() - 1]);
    }
}

} // verus!
