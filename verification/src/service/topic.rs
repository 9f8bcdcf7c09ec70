//! The publish/subscribe broker.

use dashmap::DashMap;
use dashmap::DashSet;
use glob::Pattern;
use vstd::prelude::*;
use vstd::string::StringExecFns;

use super::broker::{lemma_subscribe_preserves, lemma_unsubscribe_preserves, withdrawn, BrokerModel};
use super::registry::{
    free_of_separators, glob_compiles, glob_match, id_set, ids_contains, ids_insert, ids_new,
    ids_remove, pattern_as_str, pattern_clone, pattern_compile, pattern_matches, pattern_sets,
    pattern_text, patterns_drop, patterns_enrol, patterns_keys, patterns_members, patterns_new,
    patterns_strike, patterns_vacant, topic_sets, topics_drop, topics_enrol, topics_members,
    topics_new, topics_strike, topics_vacant,
};
use crate::error::KvError;
use crate::text::{decimal, decimal_string};

verus! {

/// How many responses a subscriber's channel holds before the publisher waits.
pub const BROCASTER_CAPACITY: usize = 128;

/// Hands out the next subscription id and moves the counter on.
pub fn get_next_subscription_id(counter: &mut u32) -> (id: u32)
    requires
        *old(counter) < u32::MAX,
    ensures
        id == *old(counter),
        *final(counter) == *old(counter) + 1,
{
    let id = *counter;
    *counter = id + 1;
    id
}

/// What a topic backend offers.
pub trait Topic {
    /// What the backend knows.
    spec fn model(&self) -> BrokerModel;

    /// What holds of the backend after it was made, and is kept by every
    /// operation.
    spec fn inv(&self) -> bool;

    /// Whether an id is left for a new subscription.
    fn has_free_id(&self) -> (free: bool)
        ensures
            free == self.model().has_free_id(),
    ;

    /// Subscribes to topic `name` and returns the new subscription's id, which
    /// is positive and was never handed out before.
    fn subscribe(&mut self, name: String) -> (id: u32)
        requires
            old(self).model().has_free_id(),
        ensures
            old(self).inv() ==> final(self).inv() && id >= 1 && !old(self).model().mentions(id),
            id == old(self).model().next_id,
            final(self).model() == old(self).model().subscribe(name@),
    ;

    /// Ends subscription `id` of topic `name`. Returns the id if there was
    /// such a subscription, and a not-found error otherwise.
    fn unsubscribe(&mut self, name: String, id: u32) -> (r: Result<u32, KvError>)
        ensures
            old(self).inv() ==> final(self).inv(),
            final(self).model() == old(self).model().unsubscribe(name@, id),
            old(self).model().subscriptions.contains(id) ==> r == Ok::<u32, KvError>(id),
            !old(self).model().subscriptions.contains(id) ==> (r matches Err(
                KvError::NotFound(what),
            ) && what@ == "subscription "@ + decimal(id as nat)),
    ;

    /// The subscribers of topic `name` to deliver a published value to, each
    /// once.
    fn publish(&self, name: &str) -> (targets: Vec<u32>)
        ensures
            targets@.no_duplicates(),
            targets@.to_set() == self.model().topic_targets(name@),
    ;

    /// Subscribes to every topic that `pattern` matches and returns the new
    /// subscription's id; an error, with nothing changed, where `pattern` is no
    /// glob pattern. Of a text without a path separator it is stated whether
    /// it is one.
    fn psubscribe(&mut self, pattern: &str) -> (r: Result<u32, KvError>)
        requires
            old(self).model().has_free_id(),
        ensures
            old(self).inv() ==> final(self).inv(),
            r matches Ok(id) ==> id == old(self).model().next_id && final(self).model() == old(
                self).model().psubscribe(pattern@) && (old(self).inv() ==> id >= 1 && !old(
                self).model().mentions(id)),
            r matches Err(e) ==> (e matches KvError::InvalidCommand(why) && why@ == pattern@)
                && final(self).model() == old(self).model(),
            free_of_separators(pattern@) ==> (r is Ok == glob_compiles(pattern@)),
    ;

    /// Ends subscription `id` of pattern `pattern`. Returns the id if there was
    /// such a subscription, and a not-found error otherwise; an invalid-command
    /// error, with nothing changed, where `pattern` is no glob pattern.
    fn punsubscribe(&mut self, pattern: &str, id: u32) -> (r: Result<u32, KvError>)
        ensures
            old(self).inv() ==> final(self).inv(),
            r matches Ok(v) ==> v == id && old(self).model().subscriptions.contains(id) && final(
                self).model() == old(self).model().punsubscribe(pattern@, id),
            r matches Err(e) ==> ((e matches KvError::InvalidCommand(why) && why@ == pattern@)
                && final(self).model() == old(self).model())
                || (e matches KvError::NotFound(what) && what@ == "pattern "@ + decimal(id as nat)
                && !old(self).model().subscriptions.contains(id) && final(self).model() == old(
                self).model().punsubscribe(pattern@, id)),
            free_of_separators(pattern@) ==> ((r matches Err(KvError::InvalidCommand(_)))
                == !glob_compiles(pattern@)),
            !(r matches Err(KvError::InvalidCommand(_))) ==> (r is Ok == old(
                self).model().subscriptions.contains(id)),
    ;
}

/// The broker: who subscribed to what.
pub struct Broadcaster {
    /// Subscribers by topic.
    topics: DashMap<String, DashSet<u32>>,
    /// The subscriptions that can still be delivered to.
    subscriptions: DashSet<u32>,
    /// Subscribers by compiled glob pattern.
    patterns: DashMap<Pattern, DashSet<u32>>,
    /// The id the next subscription gets.
    next_id: u32,
}

impl View for Broadcaster {
    type V = BrokerModel;

    closed spec fn view(&self) -> BrokerModel {
        BrokerModel {
            topics: topic_sets(self.topics),
            patterns: pattern_sets(self.patterns),
            subscriptions: id_set(self.subscriptions),
            next_id: self.next_id,
        }
    }
}

impl Default for Broadcaster {
    fn default() -> (b: Self)
        ensures
            b@ == BrokerModel::initial(),
            b@.wf(),
            b@.consistent(),
    {
        Broadcaster::new()
    }
}

impl Broadcaster {
    /// A broker nobody has subscribed to.
    pub fn new() -> (b: Self)
        ensures
            b@ == BrokerModel::initial(),
            b@.wf(),
            b@.consistent(),
    {
        Broadcaster {
            topics: topics_new(),
            subscriptions: ids_new(),
            patterns: patterns_new(),
            next_id: 1,
        }
    }

    /// Takes `id` off topic `name`, the topic going with its last subscriber,
    /// and off the subscriptions. Returns the id if it was subscribed.
    pub fn remove_subscription(&mut self, name: &str, id: u32) -> (gone: Option<u32>)
        ensures
            old(self)@.wf() ==> final(self)@.wf(),
            final(self)@ == old(self)@.unsubscribe(name@, id),
            gone == (if old(self)@.subscriptions.contains(id) {
                Some(id)
            } else {
                None
            }),
    {
        topics_strike(&mut self.topics, name, id);
        if let Some(true) = topics_vacant(&self.topics, name) {
            topics_drop(&mut self.topics, name);
        }
        let gone = ids_remove(&mut self.subscriptions, id);
        proof {
            assert(topic_sets(self.topics) =~= withdrawn(old(self)@.topics, name@, id));
            if old(self)@.wf() {
                lemma_unsubscribe_preserves(old(self)@, name@, id);
            }
        }
        gone
    }

    /// Takes `id` off `pattern`, the pattern going with its last subscriber,
    /// and off the subscriptions. Returns the id if it was subscribed.
    pub fn remove_pattern(&mut self, pattern: &Pattern, id: u32) -> (gone: Option<u32>)
        ensures
            old(self)@.wf() ==> final(self)@.wf(),
            final(self)@ == old(self)@.punsubscribe(pattern_text(*pattern), id),
            gone == (if old(self)@.subscriptions.contains(id) {
                Some(id)
            } else {
                None
            }),
    {
        patterns_strike(&mut self.patterns, pattern, id);
        if let Some(true) = patterns_vacant(&self.patterns, pattern) {
            patterns_drop(&mut self.patterns, pattern);
        }
        let gone = ids_remove(&mut self.subscriptions, id);
        proof {
            assert(pattern_sets(self.patterns) =~= withdrawn(
                old(self)@.patterns,
                pattern_text(*pattern),
                id,
            ));
            if old(self)@.wf() {
                lemma_unsubscribe_preserves(old(self)@, pattern_text(*pattern), id);
            }
        }
        gone
    }

    /// Subscribes to every topic that `pattern` matches and returns the new
    /// subscription's id.
    pub fn psubscribe_compiled(&mut self, pattern: Pattern) -> (id: u32)
        requires
            old(self)@.has_free_id(),
        ensures
            old(self)@.wf() ==> final(self)@.wf() && id >= 1 && !old(self)@.mentions(id),
            id == old(self)@.next_id,
            final(self)@ == old(self)@.psubscribe(pattern_text(pattern)),
    {
        let id = get_next_subscription_id(&mut self.next_id);
        patterns_enrol(&mut self.patterns, pattern, id);
        ids_insert(&mut self.subscriptions, id);
        proof {
            if old(self)@.wf() {
                lemma_subscribe_preserves(old(self)@, pattern_text(pattern));
            }
        }
        id
    }
}

impl Broadcaster {
    /// Those of `ids` that can still be delivered to, in the order given.
    fn deliverable(&self, ids: Vec<u32>) -> (targets: Vec<u32>)
        requires
            ids@.no_duplicates(),
        ensures
            targets@.no_duplicates(),
            targets@.to_set() == ids@.to_set().intersect(self@.subscriptions),
    {
        let mut targets: Vec<u32> = Vec::new();
        let mut i: usize = 0;
        while i < ids.len()
            invariant
                0 <= i <= ids.len(),
                ids@.no_duplicates(),
                targets@.no_duplicates(),
                forall|k: int|
                    0 <= k < targets@.len() ==> id_set(self.subscriptions).contains(
                        #[trigger] targets@[k],
                    ) && exists|j: int| 0 <= j < i && ids@[j] == targets@[k],
                forall|j: int|
                    0 <= j < i && id_set(self.subscriptions).contains(#[trigger] ids@[j])
                        ==> targets@.contains(ids@[j]),
            decreases ids.len() - i,
        {
            let id = ids[i];
            if ids_contains(&self.subscriptions, id) {
                let ghost before = targets@;
                targets.push(id);
                proof {
                    assert forall|j: int|
                        0 <= j < i + 1 && id_set(self.subscriptions).contains(
                            #[trigger] ids@[j],
                        ) implies targets@.contains(ids@[j]) by {
                        if j < i {
                            let k = choose|k: int| 0 <= k < before.len() && before[k] == ids@[j];
                            assert(targets@[k] == ids@[j]);
                        } else {
                            assert(targets@[before.len() as int] == ids@[j]);
                        }
                    }
                }
            }
            i = i + 1;
        }
        proof {
            let wanted = ids@.to_set().intersect(self@.subscriptions);
            assert forall|x: u32| targets@.to_set().contains(x) <==> wanted.contains(x) by {
                if targets@.to_set().contains(x) {
                    let k = choose|k: int| 0 <= k < targets@.len() && targets@[k] == x;
                    let j = choose|j: int| 0 <= j < i && ids@[j] == targets@[k];
                    assert(ids@.to_set().contains(ids@[j]));
                }
                if wanted.contains(x) {
                    assert(ids@.to_set().contains(x));
                    let j = choose|j: int| 0 <= j < ids@.len() && ids@[j] == x;
                    assert(targets@.contains(ids@[j]));
                }
            }
            assert(targets@.to_set() =~= wanted);
        }
        targets
    }

    /// Takes each of `failed`, in turn, off topic `name` and off the
    /// subscriptions: what a publish does with the subscribers it could not
    /// reach.
    pub fn prune_topic(&mut self, name: &str, failed: &Vec<u32>)
        ensures
            old(self)@.wf() ==> final(self)@.wf(),
            final(self)@ == old(self)@.prune_topic(name@, failed@),
    {
        let mut i: usize = 0;
        while i < failed.len()
            invariant
                0 <= i <= failed.len(),
                old(self)@.wf() ==> self@.wf(),
                self@ == old(self)@.prune_topic(name@, failed@.take(i as int)),
            decreases failed.len() - i,
        {
            self.remove_subscription(name, failed[i]);
            proof {
                assert(failed@.take(i + 1).drop_last() =~= failed@.take(i as int));
            }
            i = i + 1;
        }
        proof {
            assert(failed@.take(i as int) =~= failed@);
        }
    }

    /// The patterns with subscribers that match topic `name`, each once, in no
    /// stated order. Among the patterns that hold no path separator, those
    /// returned are exactly those that match a topic that holds none; of a
    /// pattern or a topic with a slash or a backslash the glob matcher decides
    /// by the platform's separators, and only this is stated: each pattern
    /// returned is one of the broker's.
    #[verifier::rlimit(50)]
    pub fn matching_patterns(&self, name: &str) -> (matched: Vec<Pattern>)
        ensures
            forall|i: int, j: int|
                0 <= i < j < matched@.len() ==> pattern_text(#[trigger] matched@[i])
                    != pattern_text(#[trigger] matched@[j]),
            forall|i: int|
                0 <= i < matched@.len() ==> self@.patterns.contains_key(
                    pattern_text(#[trigger] matched@[i]),
                ),
            free_of_separators(name@) ==> forall|text: Seq<char>|
                #![trigger self@.patterns.contains_key(text)]
                self@.patterns.contains_key(text) && free_of_separators(text) ==> (names_pattern(
                    matched@,
                    text,
                ) <==> glob_match(text, name@)),
    {
        let keys = patterns_keys(&self.patterns);
        let mut matched: Vec<Pattern> = Vec::new();
        let mut i: usize = 0;
        while i < keys.len()
            invariant
                0 <= i <= keys.len(),
                forall|a: int, b: int|
                    0 <= a < b < keys@.len() ==> pattern_text(#[trigger] keys@[a]) != pattern_text(
                        #[trigger] keys@[b],
                    ),
                forall|a: int|
                    0 <= a < keys@.len() ==> pattern_sets(self.patterns).contains_key(
                        pattern_text(#[trigger] keys@[a]),
                    ),
                forall|k: int|
                    0 <= k < matched@.len() ==> exists|a: int|
                        0 <= a < i && pattern_text(keys@[a]) == pattern_text(
                            #[trigger] matched@[k],
                        ),
                forall|a: int, b: int|
                    0 <= a < b < matched@.len() ==> pattern_text(#[trigger] matched@[a])
                        != pattern_text(#[trigger] matched@[b]),
                forall|a: int|
                    0 <= a < i && free_of_separators(name@) && free_of_separators(
                        pattern_text(#[trigger] keys@[a]),
                    ) && glob_match(pattern_text(keys@[a]), name@) ==> names_pattern(
                        matched@,
                        pattern_text(keys@[a]),
                    ),
                forall|k: int|
                    0 <= k < matched@.len() && free_of_separators(name@) && free_of_separators(
                        pattern_text(#[trigger] matched@[k]),
                    ) ==> glob_match(pattern_text(matched@[k]), name@),
            decreases keys.len() - i,
        {
            let ghost before = matched@;
            if pattern_matches(&keys[i], name) {
                let copy = pattern_clone(&keys[i]);
                matched.push(copy);
                proof {
                    assert forall|k: int| 0 <= k < matched@.len() implies exists|a: int|
                        0 <= a < i + 1 && pattern_text(keys@[a]) == pattern_text(
                            #[trigger] matched@[k],
                        ) by {
                        if k < before.len() {
                            let a = choose|a: int|
                                0 <= a < i && pattern_text(keys@[a]) == pattern_text(before[k]);
                            assert(pattern_text(keys@[a]) == pattern_text(matched@[k]));
                        } else {
                            assert(pattern_text(keys@[i as int]) == pattern_text(matched@[k]));
                        }
                    }
                    assert forall|a: int, b: int| 0 <= a < b < matched@.len() implies pattern_text(
                        #[trigger] matched@[a],
                    ) != pattern_text(#[trigger] matched@[b]) by {
                        if b == before.len() {
                            let c = choose|c: int|
                                0 <= c < i && pattern_text(keys@[c]) == pattern_text(before[a]);
                            assert(pattern_text(keys@[c]) != pattern_text(keys@[i as int]));
                        }
                    }
                    assert forall|k: int|
                        0 <= k < matched@.len() && free_of_separators(name@) && free_of_separators(
                            pattern_text(#[trigger] matched@[k]),
                        ) implies glob_match(pattern_text(matched@[k]), name@) by {
                        if k < before.len() {
                            assert(matched@[k] == before[k]);
                        }
                    }
                }
            }
            proof {
                assert forall|a: int|
                    0 <= a < i + 1 && free_of_separators(name@) && free_of_separators(
                        pattern_text(#[trigger] keys@[a]),
                    ) && glob_match(pattern_text(keys@[a]), name@) implies names_pattern(
                    matched@,
                    pattern_text(keys@[a]),
                ) by {
                    if a < i {
                        let k = choose|k: int|
                            0 <= k < before.len() && pattern_text(#[trigger] before[k])
                                == pattern_text(keys@[a]);
                        assert(matched@[k] == before[k]);
                    } else {
                        assert(pattern_text(matched@[before.len() as int]) == pattern_text(
                            keys@[a],
                        ));
                    }
                }
            }
            i = i + 1;
        }
        proof {
            assert forall|k: int| 0 <= k < matched@.len() implies self@.patterns.contains_key(
                pattern_text(#[trigger] matched@[k]),
            ) by {
                let a = choose|a: int|
                    0 <= a < i && pattern_text(keys@[a]) == pattern_text(matched@[k]);
                assert(pattern_sets(self.patterns).contains_key(pattern_text(keys@[a])));
            }
            if free_of_separators(name@) {
                assert forall|text: Seq<char>|
                    #![trigger self@.patterns.contains_key(text)]
                    self@.patterns.contains_key(text) && free_of_separators(
                        text,
                    ) implies (names_pattern(matched@, text) <==> glob_match(text, name@)) by {
                    if names_pattern(matched@, text) {
                        let k = choose|k: int|
                            0 <= k < matched@.len() && pattern_text(#[trigger] matched@[k])
                                == text;
                        assert(glob_match(pattern_text(matched@[k]), name@));
                    }
                    if glob_match(text, name@) {
                        assert(pattern_sets(self.patterns).contains_key(text));
                        let a = choose|a: int|
                            0 <= a < keys@.len() && pattern_text(#[trigger] keys@[a]) == text;
                        assert(names_pattern(matched@, pattern_text(keys@[a])));
                    }
                }
            }
        }
        matched
    }

    /// The subscribers of `pattern` to deliver a published value to, each once.
    pub fn pattern_subscribers(&self, pattern: &Pattern) -> (targets: Vec<u32>)
        ensures
            targets@.no_duplicates(),
            targets@.to_set() == self@.pattern_targets(pattern_text(*pattern)),
    {
        let ids = patterns_members(&self.patterns, pattern);
        self.deliverable(ids)
    }

    /// The pattern phase of a publish to topic `name`: each pattern of
    /// [`Broadcaster::matching_patterns`], once, with the subscribers of that
    /// pattern to deliver to, each once.
    pub fn pattern_deliveries(&self, name: &str) -> (plan: Vec<(Pattern, Vec<u32>)>)
        ensures
            selects(self@, plan_texts(plan@), name@),
            forall|i: int|
                0 <= i < plan@.len() ==> (#[trigger] plan@[i]).1@.no_duplicates()
                    && plan@[i].1@.to_set() == self@.pattern_targets(pattern_text(plan@[i].0)),
    {
        let matched = self.matching_patterns(name);
        let mut plan: Vec<(Pattern, Vec<u32>)> = Vec::new();
        let mut i: usize = 0;
        while i < matched.len()
            invariant
                0 <= i <= matched@.len(),
                plan@.len() == i,
                forall|k: int|
                    0 <= k < i ==> pattern_text((#[trigger] plan@[k]).0) == pattern_text(
                        matched@[k],
                    ) && plan@[k].1@.no_duplicates() && plan@[k].1@.to_set()
                        == self@.pattern_targets(pattern_text(plan@[k].0)),
            decreases matched@.len() - i,
        {
            let targets = self.pattern_subscribers(&matched[i]);
            plan.push((pattern_clone(&matched[i]), targets));
            i = i + 1;
        }
        proof {
            let texts = plan_texts(plan@);
            assert forall|k: int| 0 <= k < texts.len() implies #[trigger] texts[k] == pattern_text(
                matched@[k],
            ) by {
                assert(texts[k] == pattern_text(plan@[k].0));
            }
            if free_of_separators(name@) {
                assert forall|text: Seq<char>|
                    #![trigger self@.patterns.contains_key(text)]
                    self@.patterns.contains_key(text) && free_of_separators(
                        text,
                    ) implies (texts.contains(text) <==> glob_match(text, name@)) by {
                    if texts.contains(text) {
                        let k = choose|k: int| 0 <= k < texts.len() && texts[k] == text;
                        assert(pattern_text(matched@[k]) == text);
                        assert(names_pattern(matched@, text));
                    }
                    if names_pattern(matched@, text) {
                        let k = choose|k: int|
                            0 <= k < matched@.len() && pattern_text(#[trigger] matched@[k])
                                == text;
                        assert(texts[k] == text);
                    }
                }
            }
        }
        plan
    }

    /// Takes each `(pattern, id)` of `failed`, in turn, off its pattern and off
    /// the subscriptions: what a publish does with the pattern subscribers it
    /// could not reach.
    pub fn prune_patterns(&mut self, failed: &Vec<(Pattern, u32)>)
        ensures
            old(self)@.wf() ==> final(self)@.wf(),
            final(self)@ == old(self)@.prune_patterns(pattern_failures(failed@)),
    {
        let mut i: usize = 0;
        while i < failed.len()
            invariant
                0 <= i <= failed.len(),
                old(self)@.wf() ==> self@.wf(),
                self@ == old(self)@.prune_patterns(pattern_failures(failed@.take(i as int))),
            decreases failed.len() - i,
        {
            self.remove_pattern(&failed[i].0, failed[i].1);
            proof {
                assert(failed@.take(i + 1).drop_last() =~= failed@.take(i as int));
                assert(pattern_failures(failed@.take(i + 1)).drop_last() =~= pattern_failures(
                    failed@.take(i as int),
                ));
            }
            i = i + 1;
        }
        proof {
            assert(failed@.take(i as int) =~= failed@);
        }
    }

    /// The text of a compiled pattern.
    pub fn pattern_str(pattern: &Pattern) -> (text: &str)
        ensures
            text@ == pattern_text(*pattern),
    {
        pattern_as_str(pattern)
    }
}

/// The texts of the patterns that a plan of pattern deliveries names, in order.
pub open spec fn plan_texts(plan: Seq<(Pattern, Vec<u32>)>) -> Seq<Seq<char>> {
    Seq::new(plan.len(), |i: int| pattern_text(plan[i].0))
}

/// Whether `texts` are patterns that a publish to topic `name` selects from
/// broker `b`: each is a pattern of the broker and comes once; and where the
/// topic holds no path separator, the patterns without one that are among them
/// are exactly those that match the topic.
pub open spec fn selects(b: BrokerModel, texts: Seq<Seq<char>>, name: Seq<char>) -> bool {
    &&& forall|i: int, j: int|
        0 <= i < j < texts.len() ==> #[trigger] texts[i] != #[trigger] texts[j]
    &&& forall|i: int| 0 <= i < texts.len() ==> b.patterns.contains_key(#[trigger] texts[i])
    &&& free_of_separators(name) ==> forall|text: Seq<char>|
        #![trigger b.patterns.contains_key(text)]
        b.patterns.contains_key(text) && free_of_separators(text) ==> (texts.contains(text)
            <==> glob_match(text, name))
}

/// Whether one of `patterns` was compiled from `text`.
pub open spec fn names_pattern(patterns: Seq<Pattern>, text: Seq<char>) -> bool {
    exists|i: int| 0 <= i < patterns.len() && pattern_text(#[trigger] patterns[i]) == text
}

/// The `(pattern text, id)` pairs that a list of failed pattern deliveries
/// names.
pub open spec fn pattern_failures(failed: Seq<(Pattern, u32)>) -> Seq<(Seq<char>, u32)> {
    Seq::new(failed.len(), |i: int| (pattern_text(failed[i].0), failed[i].1))
}

impl Topic for Broadcaster {
    open spec fn model(&self) -> BrokerModel {
        self@
    }

    open spec fn inv(&self) -> bool {
        self@.wf()
    }

    fn has_free_id(&self) -> (free: bool) {
        self.next_id < u32::MAX
    }

    fn subscribe(&mut self, name: String) -> (id: u32) {
        let ghost text = name@;
        let id = get_next_subscription_id(&mut self.next_id);
        topics_enrol(&mut self.topics, name, id);
        ids_insert(&mut self.subscriptions, id);
        proof {
            if old(self)@.wf() {
                lemma_subscribe_preserves(old(self)@, text);
            }
        }
        id
    }

    fn unsubscribe(&mut self, name: String, id: u32) -> (r: Result<u32, KvError>) {
        match self.remove_subscription(name.as_str(), id) {
            Some(v) => Ok(v),
            None => Err(
                KvError::NotFound(
                    String::from_str("subscription ").concat(decimal_string(id).as_str()),
                ),
            ),
        }
    }

    fn publish(&self, name: &str) -> (targets: Vec<u32>) {
        let ids = topics_members(&self.topics, name);
        self.deliverable(ids)
    }

    fn psubscribe(&mut self, pattern: &str) -> (r: Result<u32, KvError>) {
        match pattern_compile(pattern) {
            Some(compiled) => Ok(self.psubscribe_compiled(compiled)),
            None => Err(KvError::InvalidCommand(pattern.to_owned())),
        }
    }

    fn punsubscribe(&mut self, pattern: &str, id: u32) -> (r: Result<u32, KvError>) {
        match pattern_compile(pattern) {
            Some(compiled) => match self.remove_pattern(&compiled, id) {
                Some(v) => Ok(v),
                None => Err(
                    KvError::NotFound(
                        String::from_str("pattern ").concat(decimal_string(id).as_str()),
                    ),
                ),
            },
            None => Err(KvError::InvalidCommand(pattern.to_owned())),
        }
    }
}

} // verus!
