//! The concurrent collections the broker keeps its tables in, with what each
//! call on them is trusted to do.

use dashmap::DashMap;
use dashmap::DashSet;
use glob::Pattern;
use vstd::prelude::*;

verus! {

#[verifier::external_type_specification]
#[verifier::external_body]
#[verifier::reject_recursive_types(K)]
#[verifier::reject_recursive_types(V)]
#[verifier::reject_recursive_types(S)]
pub struct ExDashMap<K, V, S>(DashMap<K, V, S>);

#[verifier::external_type_specification]
#[verifier::external_body]
#[verifier::reject_recursive_types(K)]
#[verifier::reject_recursive_types(S)]
pub struct ExDashSet<K, S>(DashSet<K, S>);

#[verifier::external_type_specification]
#[verifier::external_body]
pub struct ExPattern(Pattern);

/// The subscription ids a set holds.
pub uninterp spec fn id_set(s: DashSet<u32>) -> Set<u32>;

/// The subscriber sets a topic table holds, by topic name.
pub uninterp spec fn topic_sets(m: DashMap<String, DashSet<u32>>) -> Map<Seq<char>, Set<u32>>;

/// The subscriber sets a pattern table holds, by the pattern's text.
pub uninterp spec fn pattern_sets(m: DashMap<Pattern, DashSet<u32>>) -> Map<Seq<char>, Set<u32>>;

/// The text a compiled pattern was compiled from.
pub uninterp spec fn pattern_text(p: Pattern) -> Seq<char>;

/// Whether the glob pattern `pattern` matches `topic`: `*` stands for any run
/// of characters, `?` for any one, `[abc]` for one of those listed and
/// `[!abc]` for one not listed.
pub uninterp spec fn glob_match(pattern: Seq<char>, topic: Seq<char>) -> bool;

/// Whether `text` is a glob pattern: whether it compiles.
pub uninterp spec fn glob_compiles(text: Seq<char>) -> bool;

/// Whether a text holds neither a slash nor a backslash.
pub open spec fn free_of_separators(text: Seq<char>) -> bool {
    forall|i: int| 0 <= i < text.len() ==> #[trigger] text[i] != '/' && text[i] != '\\'
}

/// The table that holds no key.
pub open spec fn no_sets() -> Map<Seq<char>, Set<u32>> {
    Map::empty()
}

/// Whether a set holds nothing.
pub open spec fn vacant_set(s: Set<u32>) -> bool {
    s =~= Set::empty()
}

/// The set under `key`, or the empty set where the table has no such key.
pub open spec fn members(m: Map<Seq<char>, Set<u32>>, key: Seq<char>) -> Set<u32> {
    if m.contains_key(key) {
        m[key]
    } else {
        Set::empty()
    }
}

/// The table after `id` joined the set under `key`.
pub open spec fn enrolled(m: Map<Seq<char>, Set<u32>>, key: Seq<char>, id: u32) -> Map<
    Seq<char>,
    Set<u32>,
> {
    m.insert(key, members(m, key).insert(id))
}

/// The table after `id` left the set under `key`, the key staying even if its
/// set is now empty.
pub open spec fn struck(m: Map<Seq<char>, Set<u32>>, key: Seq<char>, id: u32) -> Map<
    Seq<char>,
    Set<u32>,
> {
    if m.contains_key(key) {
        m.insert(key, m[key].remove(id))
    } else {
        m
    }
}

/// `DashSet::new`: the new set holds nothing.
#[verifier::external_body]
pub(crate) fn ids_new() -> (s: DashSet<u32>)
    ensures
        id_set(s) == Set::<u32>::empty(),
{
    DashSet::new()
}

/// `DashSet::insert`: afterwards the set holds `id` beside what it held; the
/// result tells whether `id` was new.
#[verifier::external_body]
pub(crate) fn ids_insert(s: &mut DashSet<u32>, id: u32) -> (fresh: bool)
    ensures
        id_set(*final(s)) == id_set(*old(s)).insert(id),
        fresh == !id_set(*old(s)).contains(id),
{
    s.insert(id)
}

/// `DashSet::remove`: afterwards the set no longer holds `id`; the result is
/// `id` if the set held it.
#[verifier::external_body]
pub(crate) fn ids_remove(s: &mut DashSet<u32>, id: u32) -> (gone: Option<u32>)
    ensures
        id_set(*final(s)) == id_set(*old(s)).remove(id),
        gone == (if id_set(*old(s)).contains(id) {
            Some(id)
        } else {
            None
        }),
{
    s.remove(&id)
}

/// `DashSet::contains`.
#[verifier::external_body]
pub(crate) fn ids_contains(s: &DashSet<u32>, id: u32) -> (held: bool)
    ensures
        held == id_set(*s).contains(id),
{
    s.contains(&id)
}

/// `DashMap::new`: the new table has no topic.
#[verifier::external_body]
pub(crate) fn topics_new() -> (table: DashMap<String, DashSet<u32>>)
    ensures
        topic_sets(table) == no_sets(),
{
    DashMap::new()
}

/// `DashMap::entry` with `or_default`, then `DashSet::insert` on the entry:
/// the topic's set, created empty if the topic was absent, gains `id`.
#[verifier::external_body]
pub(crate) fn topics_enrol(m: &mut DashMap<String, DashSet<u32>>, name: String, id: u32)
    ensures
        topic_sets(*final(m)) == enrolled(topic_sets(*old(m)), name@, id),
{
    m.entry(name).or_default().value().insert(id);
}

/// `DashMap::get_mut`, then `DashSet::remove` on what it found: the topic's
/// set, if the topic is there, loses `id`. The topic itself stays.
#[verifier::external_body]
pub(crate) fn topics_strike(m: &mut DashMap<String, DashSet<u32>>, name: &str, id: u32)
    ensures
        topic_sets(*final(m)) == struck(topic_sets(*old(m)), name@, id),
{
    m.get_mut(name).map(|set| set.remove(&id));
}

/// `DashMap::get`, then `DashSet::is_empty` on what it found: `None` where the
/// topic is absent, else whether its set is empty.
#[verifier::external_body]
pub(crate) fn topics_vacant(m: &DashMap<String, DashSet<u32>>, name: &str) -> (vacant: Option<bool>)
    ensures
        vacant is Some == topic_sets(*m).contains_key(name@),
        vacant matches Some(b) ==> b == vacant_set(topic_sets(*m)[name@]),
{
    m.get(name).map(|set| set.is_empty())
}

/// `DashMap::remove`: afterwards the topic is absent.
#[verifier::external_body]
pub(crate) fn topics_drop(m: &mut DashMap<String, DashSet<u32>>, name: &str)
    ensures
        topic_sets(*final(m)) == topic_sets(*old(m)).remove(name@),
{
    m.remove(name);
}

/// `DashMap::get`, then `DashSet::iter` over what it found: the ids of the
/// topic's set, each once, in no stated order; nothing where the topic is
/// absent.
#[verifier::external_body]
pub(crate) fn topics_members(m: &DashMap<String, DashSet<u32>>, name: &str) -> (ids: Vec<u32>)
    ensures
        ids@.no_duplicates(),
        ids@.to_set() == members(topic_sets(*m), name@),
{
    m.get(name).map(|set| set.iter().map(|id| *id).collect()).unwrap_or_default()
}

/// `DashMap::new`: the new table has no pattern.
#[verifier::external_body]
pub(crate) fn patterns_new() -> (table: DashMap<Pattern, DashSet<u32>>)
    ensures
        pattern_sets(table) == no_sets(),
{
    DashMap::new()
}

/// `DashMap::entry` with `or_default`, then `DashSet::insert` on the entry:
/// the pattern's set, created empty if the pattern was absent, gains `id`.
#[verifier::external_body]
pub(crate) fn patterns_enrol(m: &mut DashMap<Pattern, DashSet<u32>>, pattern: Pattern, id: u32)
    ensures
        pattern_sets(*final(m)) == enrolled(pattern_sets(*old(m)), pattern_text(pattern), id),
{
    m.entry(pattern).or_default().value().insert(id);
}

/// `DashMap::get_mut`, then `DashSet::remove` on what it found: the pattern's
/// set, if the pattern is there, loses `id`. The pattern itself stays.
#[verifier::external_body]
pub(crate) fn patterns_strike(m: &mut DashMap<Pattern, DashSet<u32>>, pattern: &Pattern, id: u32)
    ensures
        pattern_sets(*final(m)) == struck(pattern_sets(*old(m)), pattern_text(*pattern), id),
{
    m.get_mut(pattern).map(|set| set.remove(&id));
}

/// `DashMap::get`, then `DashSet::is_empty` on what it found: `None` where the
/// pattern is absent, else whether its set is empty.
#[verifier::external_body]
pub(crate) fn patterns_vacant(m: &DashMap<Pattern, DashSet<u32>>, pattern: &Pattern) -> (vacant:
    Option<bool>)
    ensures
        vacant is Some == pattern_sets(*m).contains_key(pattern_text(*pattern)),
        vacant matches Some(b) ==> b == vacant_set(pattern_sets(*m)[pattern_text(*pattern)]),
{
    m.get(pattern).map(|set| set.is_empty())
}

/// `DashMap::remove`: afterwards the pattern is absent.
#[verifier::external_body]
pub(crate) fn patterns_drop(m: &mut DashMap<Pattern, DashSet<u32>>, pattern: &Pattern)
    ensures
        pattern_sets(*final(m)) == pattern_sets(*old(m)).remove(pattern_text(*pattern)),
{
    m.remove(pattern);
}

/// `DashMap::get`, then `DashSet::iter` over what it found: the ids of the
/// pattern's set, each once, in no stated order; nothing where the pattern is
/// absent.
#[verifier::external_body]
pub(crate) fn patterns_members(m: &DashMap<Pattern, DashSet<u32>>, pattern: &Pattern) -> (ids: Vec<
    u32,
>)
    ensures
        ids@.no_duplicates(),
        ids@.to_set() == members(pattern_sets(*m), pattern_text(*pattern)),
{
    m.get(pattern).map(|set| set.iter().map(|id| *id).collect()).unwrap_or_default()
}

/// `DashMap::iter`, cloning each key: the patterns of the table, each once, in
/// no stated order.
#[verifier::external_body]
pub(crate) fn patterns_keys(m: &DashMap<Pattern, DashSet<u32>>) -> (keys: Vec<Pattern>)
    ensures
        forall|i: int, j: int|
            0 <= i < j < keys@.len() ==> pattern_text(#[trigger] keys@[i]) != pattern_text(
                #[trigger] keys@[j],
            ),
        forall|i: int|
            0 <= i < keys@.len() ==> pattern_sets(*m).contains_key(
                pattern_text(#[trigger] keys@[i]),
            ),
        forall|text: Seq<char>| #[trigger]
            pattern_sets(*m).contains_key(text) ==> exists|i: int|
                0 <= i < keys@.len() && pattern_text(#[trigger] keys@[i]) == text,
{
    m.iter().map(|entry| entry.key().clone()).collect()
}

/// `Pattern::new`: a compiled pattern remembers the text it was compiled from.
/// Whether a text that holds no path separator compiles is a matter of the
/// text alone. Where it holds a slash or a backslash, the compiler asks the
/// platform what a separator is, and nothing is stated.
#[verifier::external_body]
pub(crate) fn pattern_compile(text: &str) -> (compiled: Option<Pattern>)
    ensures
        compiled matches Some(p) ==> pattern_text(p) == text@,
        free_of_separators(text@) ==> (compiled is Some == glob_compiles(text@)),
{
    Pattern::new(text).ok()
}

/// `Pattern::matches`: for a pattern and a topic that hold no path separator,
/// whether the pattern matches is a matter of the two texts alone. Where one of
/// them holds a slash or a backslash, the matcher asks the platform what a
/// separator is, and nothing is stated.
#[verifier::external_body]
pub(crate) fn pattern_matches(pattern: &Pattern, topic: &str) -> (hit: bool)
    ensures
        free_of_separators(pattern_text(*pattern)) && free_of_separators(topic@) ==> hit
            == glob_match(pattern_text(*pattern), topic@),
{
    pattern.matches(topic)
}

/// `Pattern::clone`: the copy has the same text.
#[verifier::external_body]
pub(crate) fn pattern_clone(pattern: &Pattern) -> (copy: Pattern)
    ensures
        pattern_text(copy) == pattern_text(*pattern),
{
    pattern.clone()
}

/// `Pattern::as_str`.
#[verifier::external_body]
pub(crate) fn pattern_as_str(pattern: &Pattern) -> (text: &str)
    ensures
        text@ == pattern_text(*pattern),
{
    pattern.as_str()
}

} // verus!
