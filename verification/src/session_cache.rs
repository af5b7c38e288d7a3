//! The session's result cache: bounded in size, with entries that expire.
//!
//! Its entries stand in the order in which they were stored, oldest first.
//! Storing under a key that is present moves the entry to the back; when the
//! bound is exceeded the front goes. Reading never changes the order.

use std::collections::VecDeque;
use vstd::hash_map::StringHashMap;
use vstd::prelude::*;
use vstd::seq_lib::lemma_seq_contains_after_push;
use crate::response::{ResponseInputItem, ResponseInputItemView};
use crate::text::texts;

verus! {

/// A cached result and the time, in nanoseconds on the session's clock, at
/// which it was stored.
pub struct CachedToolResult {
    pub stored_at: u128,
    pub response: ResponseInputItem,
}

pub struct CachedToolResultView {
    pub stored_at: u128,
    pub response: ResponseInputItemView,
}

impl View for CachedToolResult {
    type V = CachedToolResultView;

    open spec fn view(&self) -> CachedToolResultView {
        CachedToolResultView { stored_at: self.stored_at, response: self.response@ }
    }
}

/// The keys of the entries, oldest first.
pub open spec fn entry_keys(entries: Seq<(Seq<char>, CachedToolResultView)>) -> Seq<Seq<char>> {
    entries.map_values(|entry: (Seq<char>, CachedToolResultView)| entry.0)
}

/// How long ago `stored_at` was, seen from `now`; zero where the clock shows
/// `now` to be the earlier of the two.
pub open spec fn age(now: u128, stored_at: u128) -> nat {
    if now >= stored_at {
        (now - stored_at) as nat
    } else {
        0
    }
}

/// An entry stays while its age is at most `max_age`.
pub open spec fn is_fresh(entry: CachedToolResultView, max_age: u128, now: u128) -> bool {
    age(now, entry.stored_at) <= max_age
}

pub open spec fn fresh_at(max_age: u128, now: u128) -> spec_fn(
    (Seq<char>, CachedToolResultView),
) -> bool {
    |entry: (Seq<char>, CachedToolResultView)| is_fresh(entry.1, max_age, now)
}

pub open spec fn not_keyed(key: Seq<char>) -> spec_fn((Seq<char>, CachedToolResultView)) -> bool {
    |entry: (Seq<char>, CachedToolResultView)| entry.0 != key
}

/// The entries that are left once the expired ones are gone. A `max_age` of
/// zero leaves nothing, whatever the entries' ages.
pub open spec fn without_expired(
    entries: Seq<(Seq<char>, CachedToolResultView)>,
    max_age: u128,
    now: u128,
) -> Seq<(Seq<char>, CachedToolResultView)> {
    if max_age == 0 {
        Seq::empty()
    } else {
        entries.filter(fresh_at(max_age, now))
    }
}

/// The newest `max_entries` of the entries.
pub open spec fn newest(entries: Seq<(Seq<char>, CachedToolResultView)>, max_entries: nat) -> Seq<
    (Seq<char>, CachedToolResultView),
> {
    if entries.len() > max_entries {
        entries.skip(entries.len() - max_entries)
    } else {
        entries
    }
}

/// The entries after `response` was stored under `key` at `now`: an entry of
/// that key gives way, the new entry is the newest, and of the whole only the
/// newest `max_entries` stay. With `max_entries` zero nothing stays.
pub open spec fn with_stored(
    entries: Seq<(Seq<char>, CachedToolResultView)>,
    key: Seq<char>,
    response: ResponseInputItemView,
    max_entries: nat,
    now: u128,
) -> Seq<(Seq<char>, CachedToolResultView)> {
    if max_entries == 0 {
        Seq::empty()
    } else {
        newest(
            entries.filter(not_keyed(key)).push(
                (key, CachedToolResultView { stored_at: now, response }),
            ),
            max_entries,
        )
    }
}

/// The result stored under `key`, if there is one.
pub open spec fn stored(entries: Seq<(Seq<char>, CachedToolResultView)>, key: Seq<char>) -> Option<
    ResponseInputItemView,
>
    decreases entries.len(),
{
    if entries.len() == 0 {
        None
    } else if entries.last().0 == key {
        Some(entries.last().1.response)
    } else {
        stored(entries.drop_last(), key)
    }
}

/// Among entries with distinct keys, dropping those of a key that occurs at
/// `at` removes that one entry.
proof fn lemma_filter_removes_key(
    entries: Seq<(Seq<char>, CachedToolResultView)>,
    key: Seq<char>,
    at: int,
)
    requires
        entry_keys(entries).no_duplicates(),
        0 <= at < entries.len(),
        entries[at].0 == key,
    ensures
        entries.filter(not_keyed(key)) == entries.remove(at),
    decreases entries.len(),
{
    let rest = entries.drop_last();
    let keys = entry_keys(entries);
    assert(entries =~= rest.push(entries.last()));
    rest.lemma_filter_push(entries.last(), not_keyed(key));
    assert forall|i: int, j: int| 0 <= i < rest.len() && 0 <= j < rest.len() && i != j implies
        entry_keys(rest)[i] != entry_keys(rest)[j] by {
        assert(keys[i] != keys[j]);
    }
    if at == entries.len() - 1 {
        assert forall|i: int| 0 <= i < rest.len() implies (#[trigger] rest[i]).0 != key by {
            assert(keys[i] != keys[at]);
        }
        lemma_filter_keeps_all(rest, key);
        assert(entries.remove(at) =~= rest);
    } else {
        assert(keys[entries.len() - 1] != keys[at]);
        lemma_filter_removes_key(rest, key, at);
        assert(entries.remove(at) =~= rest.remove(at).push(entries.last()));
    }
}

/// Dropping the entries of a key that does not occur changes nothing.
proof fn lemma_filter_keeps_all(entries: Seq<(Seq<char>, CachedToolResultView)>, key: Seq<char>)
    requires
        forall|i: int| 0 <= i < entries.len() ==> (#[trigger] entries[i]).0 != key,
    ensures
        entries.filter(not_keyed(key)) == entries,
    decreases entries.len(),
{
    reveal(Seq::filter);
    if entries.len() > 0 {
        let rest = entries.drop_last();
        assert forall|i: int| 0 <= i < rest.len() implies (#[trigger] rest[i]).0 != key by {
            assert(rest[i] == entries[i]);
        }
        lemma_filter_keeps_all(rest, key);
        assert(entries =~= rest.push(entries.last()));
    }
}

/// Among entries with distinct keys, the result stored under a key is the
/// result of the one entry that has the key.
proof fn lemma_stored_finds(entries: Seq<(Seq<char>, CachedToolResultView)>, key: Seq<char>)
    requires
        entry_keys(entries).no_duplicates(),
    ensures
        forall|i: int|
            0 <= i < entries.len() && (#[trigger] entries[i]).0 == key ==> stored(entries, key)
                == Some(entries[i].1.response),
        (forall|i: int| 0 <= i < entries.len() ==> (#[trigger] entries[i]).0 != key) ==> stored(
            entries,
            key,
        ) is None,
    decreases entries.len(),
{
    if entries.len() > 0 {
        let rest = entries.drop_last();
        let keys = entry_keys(entries);
        assert forall|i: int, j: int| 0 <= i < rest.len() && 0 <= j < rest.len() && i != j implies
            entry_keys(rest)[i] != entry_keys(rest)[j] by {
            assert(keys[i] != keys[j]);
        }
        lemma_stored_finds(rest, key);
        assert forall|i: int| 0 <= i < entries.len() && (#[trigger] entries[i]).0 == key implies
            stored(entries, key) == Some(entries[i].1.response) by {
            if i < entries.len() - 1 {
                assert(keys[i] != keys[entries.len() - 1]);
                assert(rest[i] == entries[i]);
            }
        }
        if forall|i: int| 0 <= i < entries.len() ==> (#[trigger] entries[i]).0 != key {
            assert forall|i: int| 0 <= i < rest.len() implies (#[trigger] rest[i]).0 != key by {
                assert(rest[i] == entries[i]);
            }
            assert(entries[entries.len() - 1].0 != key);
        }
    }
}

/// What was stored last is found, as long as the cache may hold anything.
pub proof fn lemma_stored_entry_is_found(
    entries: Seq<(Seq<char>, CachedToolResultView)>,
    key: Seq<char>,
    response: ResponseInputItemView,
    max_entries: nat,
    now: u128,
)
    requires
        max_entries > 0,
    ensures
        stored(with_stored(entries, key, response, max_entries, now), key) == Some(response),
{
    let full = entries.filter(not_keyed(key)).push(
        (key, CachedToolResultView { stored_at: now, response }),
    );
    assert(newest(full, max_entries).last() == full.last());
}

/// What was stored is found again while it is fresh: a read at a time at
/// which its age is at most the maximal age, the maximal age not being zero.
pub proof fn lemma_stored_entry_is_found_while_fresh(
    entries: Seq<(Seq<char>, CachedToolResultView)>,
    key: Seq<char>,
    response: ResponseInputItemView,
    max_entries: nat,
    stored_at: u128,
    max_age: u128,
    now: u128,
)
    requires
        max_entries > 0,
        max_age > 0,
        age(now, stored_at) <= max_age,
    ensures
        stored(
            without_expired(
                with_stored(entries, key, response, max_entries, stored_at),
                max_age,
                now,
            ),
            key,
        ) == Some(response),
{
    let entry = (key, CachedToolResultView { stored_at, response });
    let kept = with_stored(entries, key, response, max_entries, stored_at);
    assert(kept.last() == entry);
    assert(kept =~= kept.drop_last().push(entry));
    kept.drop_last().lemma_filter_push(entry, fresh_at(max_age, now));
}

/// The cache never holds more entries than the bound it was last stored
/// with.
pub proof fn lemma_store_respects_bound(
    entries: Seq<(Seq<char>, CachedToolResultView)>,
    key: Seq<char>,
    response: ResponseInputItemView,
    max_entries: nat,
    now: u128,
)
    ensures
        with_stored(entries, key, response, max_entries, now).len() <= max_entries,
{
}

/// Reading with a maximal age of zero finds nothing and leaves nothing,
/// whatever was stored and whenever.
pub proof fn lemma_zero_age_empties(
    entries: Seq<(Seq<char>, CachedToolResultView)>,
    key: Seq<char>,
    response: ResponseInputItemView,
    max_entries: nat,
    stored_at: u128,
    now: u128,
)
    ensures
        without_expired(with_stored(entries, key, response, max_entries, stored_at), 0, now)
            == Seq::<(Seq<char>, CachedToolResultView)>::empty(),
        stored(
            without_expired(with_stored(entries, key, response, max_entries, stored_at), 0, now),
            key,
        ) is None,
{
}

/// Three results stored under three different keys into an empty cache that
/// is bounded by two: the first is gone, the second and the third are found.
pub proof fn lemma_oldest_entry_goes_first(
    a: Seq<char>,
    b: Seq<char>,
    c: Seq<char>,
    first: ResponseInputItemView,
    second: ResponseInputItemView,
    third: ResponseInputItemView,
    t1: u128,
    t2: u128,
    t3: u128,
)
    requires
        a != b,
        a != c,
        b != c,
    ensures
        ({
            let entries = with_stored(
                with_stored(with_stored(Seq::empty(), a, first, 2, t1), b, second, 2, t2),
                c,
                third,
                2,
                t3,
            );
            &&& entry_keys(entries) == seq![b, c]
            &&& stored(entries, a) is None
            &&& stored(entries, b) == Some(second)
            &&& stored(entries, c) == Some(third)
        }),
{
    let none = Seq::<(Seq<char>, CachedToolResultView)>::empty();
    let ea = (a, CachedToolResultView { stored_at: t1, response: first });
    let eb = (b, CachedToolResultView { stored_at: t2, response: second });
    let ec = (c, CachedToolResultView { stored_at: t3, response: third });
    lemma_filter_keeps_all(none, a);
    let one = with_stored(none, a, first, 2, t1);
    assert(one =~= seq![ea]);
    lemma_filter_keeps_all(one, b);
    let two = with_stored(one, b, second, 2, t2);
    assert(two =~= seq![ea, eb]);
    lemma_filter_keeps_all(two, c);
    let three = with_stored(two, c, third, 2, t3);
    assert(three =~= seq![eb, ec]);
    assert(entry_keys(three) =~= seq![b, c]);
    assert(three.drop_last() =~= seq![eb]);
    assert(three.drop_last().drop_last() =~= none);
    reveal_with_fuel(stored, 3);
}

/// The two parts of the cache: the entries by key, and the keys in the order
/// in which the entries were stored.
struct CacheParts {
    entries: StringHashMap<CachedToolResult>,
    order: VecDeque<String>,
}

impl CacheParts {
    /// `order` holds exactly the keys of `entries`, each once.
    spec fn well_formed(&self) -> bool {
        &&& texts(self.order@).no_duplicates()
        &&& forall|key: Seq<char>|
            self.entries@.contains_key(key) <==> texts(self.order@).contains(key)
    }

    /// The entries, oldest first.
    spec fn view(&self) -> Seq<(Seq<char>, CachedToolResultView)> {
        pairs(self.order@, self.entries@)
    }

    proof fn lemma_keys_are_distinct(&self)
        requires
            self.well_formed(),
        ensures
            entry_keys(self@).no_duplicates(),
    {
        assert(entry_keys(self@) =~= texts(self.order@));
    }

    fn new() -> (cache: Self)
        ensures
            cache.well_formed(),
            cache@ == Seq::<(Seq<char>, CachedToolResultView)>::empty(),
    {
        let cache = CacheParts { entries: StringHashMap::new(), order: VecDeque::new() };
        assert(cache@ =~= Seq::empty());
        assert(texts(cache.order@) =~= Seq::empty());
        cache
    }

    /// Drops every entry.
    fn clear(&mut self)
        ensures
            final(self).well_formed(),
            final(self)@ == Seq::<(Seq<char>, CachedToolResultView)>::empty(),
    {
        self.entries.clear();
        self.order.clear();
        assert(self@ =~= Seq::empty());
        assert(texts(self.order@) =~= Seq::empty());
    }

    /// The number of entries.
    fn len(&self) -> (count: usize)
        ensures
            count == self@.len(),
    {
        self.order.len()
    }

    /// Drops the entries that are older than `max_age` at `now`; all of them
    /// where `max_age` is zero.
    fn evict_expired(&mut self, max_age: u128, now: u128)
        requires
            old(self).well_formed(),
        ensures
            final(self).well_formed(),
            final(self)@ == without_expired(old(self)@, max_age, now),
    {
        if max_age == 0 {
            self.clear();
            return ;
        }
        let ghost before = self@;
        let ghost held = self.entries@;
        let ghost keys = texts(self.order@);
        let ghost fresh = fresh_at(max_age, now);
        let mut kept: VecDeque<String> = VecDeque::new();
        let mut index: usize = 0;
        proof {
            reveal(Seq::filter);
            assert(before.take(0) =~= Seq::empty());
            assert(texts(kept@) =~= Seq::empty());
            assert(pairs(kept@, held) =~= Seq::empty());
            assert(keys.take(0) =~= Seq::empty());
        }
        while index < self.order.len()
            invariant
                index <= self.order.len(),
                keys == texts(self.order@),
                keys.no_duplicates(),
                before == pairs(self.order@, held),
                forall|key: Seq<char>| held.contains_key(key) <==> keys.contains(key),
                fresh == fresh_at(max_age, now),
                forall|key: Seq<char>| #[trigger]
                    self.entries@.contains_key(key) <==> held.contains_key(key) && (fresh(
                        (key, held[key]@),
                    ) || !keys.take(index as int).contains(key)),
                forall|key: Seq<char>| #[trigger]
                    self.entries@.contains_key(key) ==> self.entries@[key] == held[key],
                texts(kept@).no_duplicates(),
                forall|key: Seq<char>| #[trigger]
                    texts(kept@).contains(key) <==> keys.take(index as int).contains(key) && fresh(
                        (key, held[key]@),
                    ),
                pairs(kept@, held) == before.take(index as int).filter(fresh),
            decreases self.order.len() - index,
        {
            let key = &self.order[index];
            let ghost done = keys.take(index as int);
            let ghost name = key@;
            proof {
                assert(keys[index as int] == name);
                assert(keys.contains(name));
                assert(!done.contains(name));
                assert(keys.take(index + 1) =~= done.push(name));
                assert(before.take(index + 1) =~= before.take(index as int).push(
                    before[index as int],
                ));
                before.take(index as int).lemma_filter_push(before[index as int], fresh);
                assert forall|other: Seq<char>|
                    keys.take(index + 1).contains(other) <==> other == name || done.contains(
                        other,
                    ) by {
                    lemma_seq_contains_after_push(done, name, other);
                }
            }
            let is_fresh_now = match self.entries.get(key.as_str()) {
                Some(entry) => {
                    let entry_age = if now >= entry.stored_at {
                        now - entry.stored_at
                    } else {
                        0
                    };
                    entry_age <= max_age
                },
                None => false,
            };
            assert(is_fresh_now == fresh((name, held[name]@)));
            let ghost kept_before = kept@;
            if is_fresh_now {
                kept.push_back(key.clone());
                proof {
                    assert(texts(kept@) =~= texts(kept_before).push(name));
                    assert(pairs(kept@, held) =~= pairs(kept_before, held).push(
                        before[index as int],
                    ));
                    assert(!texts(kept_before).contains(name));
                    lemma_push_keeps_distinct(texts(kept_before), name);
                    assert forall|other: Seq<char>| #[trigger]
                        texts(kept@).contains(other) <==> keys.take(index + 1).contains(other)
                            && fresh((other, held[other]@)) by {
                        lemma_seq_contains_after_push(texts(kept_before), name, other);
                        assert(texts(kept_before).contains(other) <==> done.contains(other)
                            && fresh((other, held[other]@)));
                    }
                }
            } else {
                self.entries.remove(key.as_str());
                proof {
                    assert forall|other: Seq<char>| #[trigger]
                        texts(kept@).contains(other) <==> keys.take(index + 1).contains(other)
                            && fresh((other, held[other]@)) by {
                        assert(texts(kept_before).contains(other) <==> done.contains(other)
                            && fresh((other, held[other]@)));
                    }
                }
            }
            index = index + 1;
        }
        self.order = kept;
        proof {
            assert(keys.take(index as int) =~= keys);
            assert(before.take(index as int) =~= before);
            assert forall|key: Seq<char>|
                self.entries@.contains_key(key) <==> texts(self.order@).contains(key) by {
                assert(texts(kept@).contains(key) <==> keys.contains(key) && fresh(
                    (key, held[key]@),
                ));
            }
            assert(self@ =~= pairs(self.order@, held)) by {
                assert forall|i: int| 0 <= i < self.order@.len() implies self.entries@[self.order@[i]@]
                    == held[self.order@[i]@] by {
                    assert(texts(self.order@)[i] == self.order@[i]@);
                    assert(texts(self.order@).contains(self.order@[i]@));
                    assert(self.entries@.contains_key(self.order@[i]@));
                }
            }
        }
    }

    /// The result stored under `key`, once the expired entries are gone.
    fn get(&mut self, key: &str, max_age: u128, now: u128) -> (found: Option<
        ResponseInputItem,
    >)
        requires
            old(self).well_formed(),
        ensures
            final(self).well_formed(),
            final(self)@ == without_expired(old(self)@, max_age, now),
            match found {
                Some(response) => stored(final(self)@, key@) == Some(response@),
                None => stored(final(self)@, key@) is None,
            },
    {
        self.evict_expired(max_age, now);
        proof {
            self.lemma_keys_are_distinct();
            lemma_stored_finds(self@, key@);
            if self.entries@.contains_key(key@) {
                let at = choose|i: int|
                    0 <= i < texts(self.order@).len() && texts(self.order@)[i] == key@;
                assert(self@[at].0 == key@);
            } else {
                assert forall|i: int| 0 <= i < self@.len() implies (#[trigger] self@[i]).0
                    != key@ by {
                    assert(texts(self.order@)[i] == self@[i].0);
                    assert(texts(self.order@).contains(self@[i].0));
                }
            }
        }
        match self.entries.get(key) {
            Some(entry) => Some(entry.response.clone()),
            None => None,
        }
    }

    /// Stores `response` under `key` as the newest entry, then drops the
    /// oldest entries until at most `max_entries` are left. With
    /// `max_entries` zero the cache is switched off: it is emptied.
    fn put(&mut self, key: String, response: ResponseInputItem, max_entries: usize, now: u128)
        requires
            old(self).well_formed(),
        ensures
            final(self).well_formed(),
            final(self)@ == with_stored(old(self)@, key@, response@, max_entries as nat, now),
    {
        if max_entries == 0 {
            self.clear();
            return ;
        }
        let ghost before = self@;
        let ghost name = key@;
        let ghost entry = CachedToolResultView { stored_at: now, response: response@ };
        let ghost listed = self.order@;
        let ghost held = self.entries@;
        proof {
            self.lemma_keys_are_distinct();
            assert(entry_keys(before) =~= texts(listed));
        }
        let was_present = self.entries.contains_key(key.as_str());
        self.entries.insert(key.clone(), CachedToolResult { stored_at: now, response });
        if was_present {
            let mut index: usize = 0;
            while index < self.order.len() && !self.order[index].as_str().eq(key.as_str())
                invariant
                    index <= self.order.len(),
                    forall|i: int| 0 <= i < index ==> (#[trigger] self.order@[i])@ != key@,
                decreases self.order.len() - index,
            {
                index = index + 1;
            }
            proof {
                if index == self.order.len() {
                    let at = choose|i: int| 0 <= i < texts(listed).len() && texts(listed)[i] == name;
                    assert(listed[at]@ == name);
                }
                lemma_filter_removes_key(before, name, index as int);
                lemma_remove_keeps_distinct(texts(listed), index as int);
            }
            self.order.remove(index);
            proof {
                assert(texts(self.order@) =~= texts(listed).remove(index as int));
                assert(pairs(self.order@, held) =~= before.remove(index as int));
            }
        } else {
            proof {
                assert forall|i: int| 0 <= i < before.len() implies (#[trigger] before[i]).0
                    != name by {
                    assert(texts(listed)[i] == before[i].0);
                    assert(texts(listed).contains(before[i].0));
                }
                lemma_filter_keeps_all(before, name);
            }
        }
        let ghost rest = self.order@;
        let ghost full = before.filter(not_keyed(name)).push((name, entry));
        proof {
            assert(pairs(rest, held) == before.filter(not_keyed(name)));
            assert(texts(rest).no_duplicates());
            assert(!texts(rest).contains(name));
            assert(forall|other: Seq<char>|
                texts(rest).contains(other) <==> held.contains_key(other) && other != name);
            lemma_push_keeps_distinct(texts(rest), name);
        }
        self.order.push_back(key);
        let ghost dropped: int = 0;
        proof {
            assert(texts(self.order@) =~= texts(rest).push(name));
            assert forall|other: Seq<char>|
                self.entries@.contains_key(other) <==> texts(self.order@).contains(other) by {
                lemma_seq_contains_after_push(texts(rest), name, other);
            }
            assert(self@ =~= full) by {
                assert forall|i: int| 0 <= i < rest.len() implies (#[trigger] rest[i])@ != name by {
                    assert(texts(rest)[i] == rest[i]@);
                    assert(texts(rest).contains(rest[i]@));
                }
            }
            assert(full.skip(0) =~= full);
        }
        while self.order.len() > max_entries
            invariant
                0 <= dropped,
                dropped + self.order@.len() == full.len(),
                dropped > 0 ==> self.order@.len() >= max_entries,
                self@ == full.skip(dropped),
                self.well_formed(),
            decreases self.order.len(),
        {
            let ghost listed = self.order@;
            let ghost held = self.entries@;
            match self.order.pop_front() {
                Some(oldest) => {
                    self.entries.remove(oldest.as_str());
                    proof {
                        lemma_remove_keeps_distinct(texts(listed), 0);
                        assert(texts(self.order@) =~= texts(listed).remove(0));
                        assert(texts(listed)[0] == oldest@);
                        assert forall|i: int| 0 <= i < self.order@.len() implies #[trigger] self@[i]
                            == full.skip(dropped + 1)[i] by {
                            assert(self.order@[i] == listed[i + 1]);
                            assert(texts(self.order@)[i] == self.order@[i]@);
                            assert(texts(self.order@).contains(self.order@[i]@));
                            assert(full.skip(dropped)[i + 1] == pairs(listed, held)[i + 1]);
                        }
                        assert(self@ =~= full.skip(dropped + 1));
                        dropped = dropped + 1;
                    }
                },
                None => {},
            }
        }
    }
}

/// The session's result cache. Its keys are distinct: every key has at most
/// one entry.
pub struct ToolResultCache {
    parts: CacheParts,
}

impl ToolResultCache {
    #[verifier::type_invariant]
    spec fn in_order(self) -> bool {
        self.parts.well_formed()
    }

    /// The entries, oldest first.
    pub closed spec fn view(&self) -> Seq<(Seq<char>, CachedToolResultView)> {
        self.parts@
    }

    pub fn new() -> (cache: Self)
        ensures
            cache@ == Seq::<(Seq<char>, CachedToolResultView)>::empty(),
    {
        ToolResultCache { parts: CacheParts::new() }
    }

    /// Puts the parts back.
    fn restore(&mut self, parts: CacheParts)
        requires
            parts.well_formed(),
        ensures
            final(self)@ == parts@,
            entry_keys(final(self)@).no_duplicates(),
    {
        proof {
            parts.lemma_keys_are_distinct();
        }
        *self = ToolResultCache { parts };
    }

    /// Takes the parts out and leaves an empty cache behind.
    fn take_parts(&mut self) -> (parts: CacheParts)
        ensures
            parts.well_formed(),
            parts@ == old(self)@,
            entry_keys(old(self)@).no_duplicates(),
    {
        let mut taken = ToolResultCache::new();
        core::mem::swap(self, &mut taken);
        proof {
            use_type_invariant(&taken);
            taken.parts.lemma_keys_are_distinct();
        }
        taken.parts
    }

    /// Drops every entry.
    pub fn clear(&mut self)
        ensures
            final(self)@ == Seq::<(Seq<char>, CachedToolResultView)>::empty(),
    {
        *self = ToolResultCache::new();
    }

    /// The number of entries.
    pub fn len(&self) -> (count: usize)
        ensures
            count == self@.len(),
    {
        self.parts.len()
    }

    /// Drops the entries that are older than `max_age` at `now`; all of them
    /// where `max_age` is zero.
    pub fn evict_expired(&mut self, max_age: u128, now: u128)
        ensures
            final(self)@ == without_expired(old(self)@, max_age, now),
            entry_keys(final(self)@).no_duplicates(),
    {
        let mut parts = self.take_parts();
        parts.evict_expired(max_age, now);
        self.restore(parts);
    }

    /// The result stored under `key`, once the entries that are older than
    /// `max_age` at `now` are gone.
    pub fn get(&mut self, key: &str, max_age: u128, now: u128) -> (found: Option<
        ResponseInputItem,
    >)
        ensures
            final(self)@ == without_expired(old(self)@, max_age, now),
            entry_keys(final(self)@).no_duplicates(),
            match found {
                Some(response) => stored(final(self)@, key@) == Some(response@),
                None => stored(final(self)@, key@) is None,
            },
    {
        let mut parts = self.take_parts();
        let found = parts.get(key, max_age, now);
        self.restore(parts);
        found
    }

    /// Stores `response` under `key` as the newest entry, with `now` as the
    /// time of storing, then drops the oldest entries until at most
    /// `max_entries` are left. With `max_entries` zero the cache is switched
    /// off: it is emptied.
    pub fn put(&mut self, key: String, response: ResponseInputItem, max_entries: usize, now: u128)
        ensures
            final(self)@ == with_stored(old(self)@, key@, response@, max_entries as nat, now),
            entry_keys(final(self)@).no_duplicates(),
    {
        let mut parts = self.take_parts();
        parts.put(key, response, max_entries, now);
        self.restore(parts);
    }
}

/// The entries that a list of keys names in a map.
spec fn pairs(order: Seq<String>, held: Map<Seq<char>, CachedToolResult>) -> Seq<
    (Seq<char>, CachedToolResultView),
> {
    Seq::new(order.len(), |i: int| (order[i]@, held[order[i]@]@))
}

/// Taking one item out of a list of distinct items leaves the others, still
/// distinct.
proof fn lemma_remove_keeps_distinct<A>(items: Seq<A>, at: int)
    requires
        items.no_duplicates(),
        0 <= at < items.len(),
    ensures
        items.remove(at).no_duplicates(),
        forall|item: A|
            items.remove(at).contains(item) <==> items.contains(item) && item != items[at],
{
    let rest = items.remove(at);
    assert forall|i: int, j: int| 0 <= i < rest.len() && 0 <= j < rest.len() && i
        != j implies rest[i] != rest[j] by {
        let a = if i < at {
            i
        } else {
            i + 1
        };
        let b = if j < at {
            j
        } else {
            j + 1
        };
        assert(rest[i] == items[a] && rest[j] == items[b]);
    }
    assert forall|item: A|
        rest.contains(item) <==> items.contains(item) && item != items[at] by {
        if rest.contains(item) {
            let i = choose|i: int| 0 <= i < rest.len() && rest[i] == item;
            let a = if i < at {
                i
            } else {
                i + 1
            };
            assert(items[a] == item);
        }
        if items.contains(item) && item != items[at] {
            let a = choose|a: int| 0 <= a < items.len() && items[a] == item;
            let i = if a < at {
                a
            } else {
                a - 1
            };
            assert(rest[i] == item);
        }
    }
}

proof fn lemma_push_keeps_distinct<A>(items: Seq<A>, item: A)
    requires
        items.no_duplicates(),
        !items.contains(item),
    ensures
        items.push(item).no_duplicates(),
{
    let pushed = items.push(item);
    assert forall|i: int, j: int| 0 <= i < pushed.len() && 0 <= j < pushed.len() && i
        != j implies pushed[i] != pushed[j] by {
        if i < items.len() {
            assert(items.contains(pushed[i]));
        }
        if j < items.len() {
            assert(items.contains(pushed[j]));
        }
    }
}

} // verus!
