//! Building blocks of the store's indices: where each key stands in a
//! column of keys, whether a column holds a key twice, and which positions
//! share a key.
use vstd::prelude::*;
use vstd::hash_map::StringHashMap;
use std::collections::HashMap;

verus! {

/// The positions below `n`, ascending, at which `keys` holds `key`.
pub open spec fn positions<K>(keys: Seq<K>, key: K, n: nat) -> Seq<usize>
    decreases n,
{
    if n == 0 || n > keys.len() {
        Seq::empty()
    } else if keys[n - 1] == key {
        positions(keys, key, (n - 1) as nat).push((n - 1) as usize)
    } else {
        positions(keys, key, (n - 1) as nat)
    }
}

/// `keys` holds `key` at some position below `n`.
pub open spec fn occurs_below<K>(keys: Seq<K>, key: K, n: int) -> bool {
    exists|j: int| 0 <= j < n && j < keys.len() && keys[j] == key
}

/// `keys` holds `key` somewhere.
pub open spec fn occurs<K>(keys: Seq<K>, key: K) -> bool {
    occurs_below(keys, key, keys.len() as int)
}

/// No key stands at two positions.
pub open spec fn distinct<K>(keys: Seq<K>) -> bool {
    forall|i: int, j: int| 0 <= i < j < keys.len() ==> keys[i] != keys[j]
}

/// `map` sends every key of `keys` to the one position that holds it, and
/// holds nothing else.
pub open spec fn indexes<K>(map: Map<K, usize>, keys: Seq<K>) -> bool {
    &&& forall|i: int|
        0 <= i < keys.len() ==> map.contains_key(#[trigger] keys[i]) && map[keys[i]] == i
    &&& forall|key: K| #[trigger]
        map.contains_key(key) ==> map[key] < keys.len() && keys[map[key] as int] == key
}

/// The positions that share the key at position `first`, where `first` is
/// the earliest of them; nothing where the key stands earlier too.
pub open spec fn group_at<K>(keys: Seq<K>, first: int) -> Seq<usize> {
    if occurs_below(keys, keys[first], first) {
        Seq::empty()
    } else {
        positions(keys, keys[first], keys.len())
    }
}

/// The items of `items` at `places`, in the order of `places`.
pub open spec fn select<A>(items: Seq<A>, places: Seq<usize>) -> Seq<A> {
    places.map_values(|place: usize| items[place as int])
}

/// The texts of a column of string slices.
pub open spec fn texts(slugs: Seq<&str>) -> Seq<Seq<char>> {
    slugs.map_values(|slug: &str| slug@)
}

/// Selecting at one place more adds the item at that place.
pub proof fn lemma_select_push<A>(items: Seq<A>, places: Seq<usize>, k: int)
    requires
        0 <= k < places.len(),
    ensures
        select(items, places.take(k + 1)) == select(items, places.take(k)).push(
            items[places[k] as int],
        ),
{
    assert(select(items, places.take(k + 1)) =~= select(items, places.take(k)).push(
        items[places[k] as int],
    ));
}

/// The texts of a column with one slice more.
pub proof fn lemma_texts_push(slugs: Seq<&str>, slug: &str)
    ensures
        texts(slugs.push(slug)) == texts(slugs).push(slug@),
{
    assert(texts(slugs.push(slug)) =~= texts(slugs).push(slug@));
}

/// `positions` lists exactly the positions below `n` that hold `key`, each
/// once and in ascending order.
pub proof fn lemma_positions<K>(keys: Seq<K>, key: K, n: nat)
    requires
        n <= keys.len(),
        keys.len() <= usize::MAX,
    ensures
        forall|a: int|
            0 <= a < positions(keys, key, n).len() ==> (#[trigger] positions(keys, key, n)[a]) < n
                && keys[positions(keys, key, n)[a] as int] == key,
        forall|a: int, b: int|
            0 <= a < b < positions(keys, key, n).len() ==> positions(keys, key, n)[a]
                < positions(keys, key, n)[b],
        forall|j: int|
            0 <= j < n && keys[j] == key ==> positions(keys, key, n).contains(j as usize),
        positions(keys, key, n).len() <= n,
        positions(keys, key, n).len() == 0 <==> !occurs_below(keys, key, n as int),
    decreases n,
{
    if n > 0 {
        let shorter = positions(keys, key, (n - 1) as nat);
        lemma_positions(keys, key, (n - 1) as nat);
        let all = positions(keys, key, n);
        if keys[n - 1] == key {
            assert(all == shorter.push((n - 1) as usize));
            assert(all[all.len() - 1] == (n - 1) as usize);
            assert forall|j: int| 0 <= j < n && keys[j] == key implies all.contains(j as usize) by {
                if j < n - 1 {
                    let a = choose|a: int| 0 <= a < shorter.len() && shorter[a] == j as usize;
                    assert(all[a] == j as usize);
                } else {
                    assert(all[all.len() - 1] == j as usize);
                }
            }
            assert(occurs_below(keys, key, n as int));
        } else {
            assert(all == shorter);
            if occurs_below(keys, key, n as int) {
                let j = choose|j: int| 0 <= j < n && j < keys.len() && keys[j] == key;
                assert(occurs_below(keys, key, n - 1));
            }
        }
    }
}

/// A position joins the list of its own key and of no other.
pub proof fn lemma_positions_step<K>(keys: Seq<K>, key: K, n: nat)
    requires
        n < keys.len(),
        keys.len() <= usize::MAX,
    ensures
        keys[n as int] == key ==> positions(keys, key, n + 1) == positions(keys, key, n).push(
            n as usize,
        ),
        keys[n as int] != key ==> positions(keys, key, n + 1) == positions(keys, key, n),
{
}

/// Where no key stands twice, every key's list holds its one position.
pub proof fn lemma_distinct_positions<K>(keys: Seq<K>, at: int)
    requires
        distinct(keys),
        0 <= at < keys.len(),
        keys.len() <= usize::MAX,
    ensures
        positions(keys, keys[at], keys.len()) == seq![at as usize],
        !occurs_below(keys, keys[at], at),
{
    let found = positions(keys, keys[at], keys.len());
    lemma_positions(keys, keys[at], keys.len());
    assert(found.contains(at as usize));
    assert forall|a: int| 0 <= a < found.len() implies found[a] == at as usize by {
        let place = found[a] as int;
        assert(keys[place] == keys[at]);
        if place < at {
            assert(keys[place] != keys[at]);
        } else if at < place {
            assert(keys[at] != keys[place]);
        }
    }
    if found.len() > 1 {
        assert(found[0] < found[1]);
    }
    assert(found =~= seq![at as usize]);
}

/// Every key that stands at `at` has a first position, at or before `at`.
pub proof fn lemma_first_position<K>(keys: Seq<K>, at: int) -> (first: int)
    requires
        0 <= at < keys.len(),
    ensures
        0 <= first <= at,
        keys[first] == keys[at],
        !occurs_below(keys, keys[at], first),
    decreases at,
{
    if occurs_below(keys, keys[at], at) {
        let earlier = choose|j: int| 0 <= j < at && j < keys.len() && keys[j] == keys[at];
        lemma_first_position(keys, earlier)
    } else {
        at
    }
}

/// No key stands twice exactly where no group has more than one member.
pub proof fn lemma_distinct_groups<K>(keys: Seq<K>)
    requires
        keys.len() <= usize::MAX,
    ensures
        distinct(keys) <==> forall|first: int|
            0 <= first < keys.len() ==> (#[trigger] group_at(keys, first)).len() <= 1,
{
    if distinct(keys) {
        assert forall|first: int| 0 <= first < keys.len() implies (#[trigger] group_at(
            keys,
            first,
        )).len() <= 1 by {
            lemma_distinct_positions(keys, first);
        }
    } else {
        let (i, j) = choose|i: int, j: int| 0 <= i < j < keys.len() && keys[i] == keys[j];
        let first = lemma_first_position(keys, i);
        let group = group_at(keys, first);
        lemma_positions(keys, keys[first], keys.len());
        assert(group == positions(keys, keys[first], keys.len()));
        assert(group.contains(i as usize));
        assert(group.contains(j as usize));
        let a = choose|a: int| 0 <= a < group.len() && group[a] == i as usize;
        let b = choose|b: int| 0 <= b < group.len() && group[b] == j as usize;
        assert(a != b);
        assert(group.len() > 1);
    }
}

/// A map that indexes `keys` holds exactly the keys that occur, each at its
/// position.
pub proof fn lemma_indexed<K>(map: Map<K, usize>, keys: Seq<K>, key: K)
    requires
        indexes(map, keys),
    ensures
        map.contains_key(key) <==> occurs(keys, key),
        map.contains_key(key) ==> 0 <= map[key] < keys.len() && keys[map[key] as int] == key,
{
    if occurs(keys, key) {
        let at = choose|j: int| 0 <= j < keys.len() && j < keys.len() && keys[j] == key;
        assert(map.contains_key(keys[at]));
    }
}

/// Indexes a column of ids by position, or finds an id that stands twice.
pub fn index_ids(ids: &Vec<u64>) -> (index: Option<HashMap<u64, usize>>)
    ensures
        match index {
            Some(map) => distinct(ids@) && indexes(map@, ids@),
            None => !distinct(ids@),
        },
{
    broadcast use vstd::std_specs::hash::group_hash_axioms;

    let mut map: HashMap<u64, usize> = HashMap::new();
    let mut i: usize = 0;
    while i < ids.len()
        invariant
            i <= ids.len(),
            distinct(ids@.take(i as int)),
            indexes(map@, ids@.take(i as int)),
        decreases ids.len() - i,
    {
        let id = ids[i];
        if map.contains_key(&id) {
            proof {
                let earlier = map@[id] as int;
                assert(ids@.take(i as int)[earlier] == id);
                assert(ids@[earlier] == ids@[i as int]);
            }
            return None;
        }
        map.insert(id, i);
        proof {
            let before = ids@.take(i as int);
            let after = ids@.take(i + 1);
            assert(after =~= before.push(id));
            assert forall|a: int, b: int| 0 <= a < b < after.len() implies after[a] != after[b] by {
                if b == i {
                    assert(before[a] == after[a]);
                } else {
                    assert(before[a] == after[a] && before[b] == after[b]);
                }
            }
            assert forall|a: int| 0 <= a < after.len() implies map@.contains_key(
                #[trigger] after[a],
            ) && map@[after[a]] == a by {
                if a < i {
                    assert(before[a] == after[a]);
                }
            }
        }
        i += 1;
    }
    assert(ids@.take(i as int) =~= ids@);
    Some(map)
}

/// Groups the positions of a column of ids by the id they hold.
pub fn group_by_id(ids: &Vec<u64>) -> (groups: HashMap<u64, Vec<usize>>)
    ensures
        forall|id: u64| #[trigger] groups@.contains_key(id) <==> occurs(ids@, id),
        forall|id: u64| #[trigger]
            groups@.contains_key(id) ==> groups@[id]@ == positions(ids@, id, ids@.len()),
{
    broadcast use vstd::std_specs::hash::group_hash_axioms;

    let mut groups: HashMap<u64, Vec<usize>> = HashMap::new();
    let mut i: usize = 0;
    while i < ids.len()
        invariant
            i <= ids.len(),
            forall|id: u64| #[trigger] groups@.contains_key(id) <==> occurs_below(ids@, id, i as int),
            forall|id: u64| #[trigger]
                groups@.contains_key(id) ==> groups@[id]@ == positions(ids@, id, i as nat),
        decreases ids.len() - i,
    {
        let id = ids[i];
        let ghost before = groups@;
        let mut members = match groups.remove(&id) {
            Some(members) => members,
            None => Vec::new(),
        };
        proof {
            lemma_positions(ids@, id, i as nat);
            assert(members@ == positions(ids@, id, i as nat));
        }
        members.push(i);
        groups.insert(id, members);
        proof {
            assert forall|other: u64| #[trigger]
                groups@.contains_key(other) <==> occurs_below(ids@, other, i + 1) by {
                if other == id {
                    assert(ids@[i as int] == id);
                } else {
                    assert(groups@.contains_key(other) == before.contains_key(other));
                    if occurs_below(ids@, other, i + 1) {
                        let j = choose|j: int| 0 <= j < i + 1 && j < ids@.len() && ids@[j] == other;
                        assert(0 <= j < i && ids@[j] == other);
                    }
                }
            }
            assert forall|other: u64| #[trigger] groups@.contains_key(other) implies groups@[other]@
                == positions(ids@, other, (i + 1) as nat) by {
                lemma_positions_step(ids@, other, i as nat);
                if other != id {
                    assert(groups@[other] == before[other]);
                }
            }
        }
        i += 1;
    }
    groups
}

/// Groups the positions of a column of slugs. The map sends each slug to
/// the first position that holds it; the list at a first position holds all
/// positions of its slug, and the list at any other position is empty.
pub fn group_by_slug(slugs: &Vec<&str>) -> (grouped: (StringHashMap<usize>, Vec<Vec<usize>>))
    ensures
        forall|slug: Seq<char>| #[trigger]
            grouped.0@.contains_key(slug) <==> occurs(texts(slugs@), slug),
        forall|slug: Seq<char>| #[trigger]
            grouped.0@.contains_key(slug) ==> grouped.0@[slug] < slugs@.len() && texts(
                slugs@,
            )[grouped.0@[slug] as int] == slug && !occurs_below(
                texts(slugs@),
                slug,
                grouped.0@[slug] as int,
            ),
        grouped.1@.len() == slugs@.len(),
        forall|first: int|
            0 <= first < slugs@.len() ==> (#[trigger] grouped.1@[first])@ == group_at(
                texts(slugs@),
                first,
            ),
{
    let ghost keys = texts(slugs@);
    let mut firsts: StringHashMap<usize> = StringHashMap::new();
    let mut members: Vec<Vec<usize>> = Vec::new();
    let mut i: usize = 0;
    while i < slugs.len()
        invariant
            i <= slugs.len(),
            keys == texts(slugs@),
            keys.len() == slugs@.len(),
            forall|slug: Seq<char>| #[trigger]
                firsts@.contains_key(slug) <==> occurs_below(keys, slug, i as int),
            forall|slug: Seq<char>| #[trigger]
                firsts@.contains_key(slug) ==> firsts@[slug] < i && keys[firsts@[slug] as int]
                    == slug && !occurs_below(keys, slug, firsts@[slug] as int),
            members@.len() == i,
            forall|first: int|
                0 <= first < i ==> (#[trigger] members@[first])@ == (if occurs_below(
                    keys,
                    keys[first],
                    first,
                ) {
                    Seq::<usize>::empty()
                } else {
                    positions(keys, keys[first], i as nat)
                }),
        decreases slugs.len() - i,
    {
        let slug: &str = slugs[i];
        let ghost key = keys[i as int];
        let ghost firsts_before = firsts@;
        let ghost members_before = members@;
        assert(key == slug@);
        let known = match firsts.get(slug) {
            Some(first) => Some(*first),
            None => None,
        };
        match known {
            Some(first) => {
                members[first].push(i);
                members.push(Vec::new());
                proof {
                    assert(occurs_below(keys, key, i as int));
                    assert(keys[first as int] == key);
                }
            },
            None => {
                firsts.insert(String::from_str(slug), i);
                let mut alone: Vec<usize> = Vec::new();
                alone.push(i);
                members.push(alone);
                proof {
                    lemma_positions(keys, key, i as nat);
                    lemma_positions_step(keys, key, i as nat);
                    assert(members@[i as int]@ =~= positions(keys, key, (i + 1) as nat));
                }
            },
        }
        proof {
            assert forall|other: Seq<char>| #[trigger]
                firsts@.contains_key(other) <==> occurs_below(keys, other, i + 1) by {
                if other == key {
                    assert(keys[i as int] == other);
                } else {
                    assert(firsts@.contains_key(other) == firsts_before.contains_key(other));
                    if occurs_below(keys, other, i + 1) {
                        let j = choose|j: int| 0 <= j < i + 1 && j < keys.len() && keys[j] == other;
                        assert(0 <= j < i && keys[j] == other);
                    }
                }
            }
            assert forall|first: int| 0 <= first < i + 1 implies (#[trigger] members@[first])@ == (
            if occurs_below(keys, keys[first], first) {
                Seq::<usize>::empty()
            } else {
                positions(keys, keys[first], (i + 1) as nat)
            }) by {
                lemma_positions_step(keys, keys[first], i as nat);
                if first < i {
                    if keys[first] == key && !occurs_below(keys, keys[first], first) {
                        // `first` is the first position of `key`, so the map names it
                        assert(firsts_before.contains_key(key));
                        let named = firsts_before[key] as int;
                        if named < first {
                            assert(occurs_below(keys, key, first));
                        } else if first < named {
                            assert(occurs_below(keys, key, named));
                        }
                        assert(known == Some(first as usize));
                    } else if keys[first] != key {
                        assert(members@[first] == members_before[first]);
                    } else {
                        assert(members_before[first]@.len() == 0);
                        if known is Some && known->0 == first {
                            assert(!occurs_below(keys, key, first));
                        }
                        assert(members@[first] == members_before[first]);
                    }
                }
            }
        }
        i += 1;
    }
    (firsts, members)
}

} // verus!
