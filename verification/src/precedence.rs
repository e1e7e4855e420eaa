//! Which of the records that share a slug stays: the one whose key comes
//! first. Keys order as tuples do, part by part, so the order is total, and
//! of two records with equal keys the one that stands first stays.
use vstd::prelude::*;
use itertools::Itertools;
use crate::data::types::{
    Category, CategoryView, Game, GameView, Level, LevelView, Timestamp, User, UserView,
};

verus! {

/// What decides which of the records that share a slug stays: creation
/// time, length of the slug in bytes, length of the name in bytes, name,
/// id. Kinds without a creation time put `None` first, and kinds whose slug
/// does not count put zero second.
pub type PrecedenceKey<'a> = (Option<(i64, u32)>, usize, usize, &'a str, u64);

/// What a `PrecedenceKey` stands for.
pub type PrecedenceKeyView = (Option<(i64, u32)>, usize, usize, Seq<char>, u64);

/// The views of a column of keys.
pub open spec fn key_views(keys: Seq<PrecedenceKey>) -> Seq<PrecedenceKeyView> {
    keys.map_values(|key: PrecedenceKey| key@)
}

/// `a` is no later than `b`: an absent time is before every time, and times
/// go by seconds, then nanoseconds.
pub open spec fn created_le(a: Option<(i64, u32)>, b: Option<(i64, u32)>) -> bool {
    match (a, b) {
        (None, _) => true,
        (Some(_), None) => false,
        (Some(a), Some(b)) => a.0 < b.0 || (a.0 == b.0 && a.1 <= b.1),
    }
}

/// `a` is no later than `b` in the order of texts: character by character,
/// by code point, a prefix before what extends it.
pub open spec fn text_le(a: Seq<char>, b: Seq<char>) -> bool
    decreases a.len(),
{
    if a.len() == 0 {
        true
    } else if b.len() == 0 {
        false
    } else if a[0] != b[0] {
        a[0] < b[0]
    } else {
        text_le(a.drop_first(), b.drop_first())
    }
}

/// `a` is no later than `b` in the order of keys: the first part that
/// differs decides.
pub open spec fn key_le(a: PrecedenceKeyView, b: PrecedenceKeyView) -> bool {
    if a.0 != b.0 {
        created_le(a.0, b.0)
    } else if a.1 != b.1 {
        a.1 < b.1
    } else if a.2 != b.2 {
        a.2 < b.2
    } else if a.3 != b.3 {
        text_le(a.3, b.3)
    } else {
        a.4 <= b.4
    }
}

/// The record at position `a` takes precedence over the one at `b`: its
/// key is no later, and of two equal keys the earlier position wins.
pub open spec fn outranks(keys: Seq<PrecedenceKeyView>, a: int, b: int) -> bool {
    key_le(keys[a], keys[b]) && (key_le(keys[b], keys[a]) ==> a < b)
}

/// The record at position `m` takes precedence over every other.
pub open spec fn leads(keys: Seq<PrecedenceKeyView>, m: int) -> bool {
    &&& 0 <= m < keys.len()
    &&& forall|other: int| 0 <= other < keys.len() && other != m ==> outranks(keys, m, other)
}

/// The position of the record that stays.
pub open spec fn survivor(keys: Seq<PrecedenceKeyView>) -> int {
    choose|m: int| leads(keys, m)
}

/// At most one record takes precedence over every other.
pub proof fn lemma_one_leader(keys: Seq<PrecedenceKeyView>, m: int)
    requires
        leads(keys, m),
    ensures
        survivor(keys) == m,
{
    let chosen = survivor(keys);
    assert(leads(keys, chosen));
    if chosen != m {
        assert(outranks(keys, m, chosen));
        assert(outranks(keys, chosen, m));
    }
}

/// Of two texts, one is no later than the other.
pub proof fn lemma_text_le_total(a: Seq<char>, b: Seq<char>)
    ensures
        text_le(a, b) || text_le(b, a),
    decreases a.len(),
{
    if a.len() > 0 && b.len() > 0 && a[0] == b[0] {
        lemma_text_le_total(a.drop_first(), b.drop_first());
    }
}

/// Two texts that are each no later than the other are the same text.
pub proof fn lemma_text_le_antisymmetric(a: Seq<char>, b: Seq<char>)
    requires
        text_le(a, b),
        text_le(b, a),
    ensures
        a == b,
    decreases a.len(),
{
    if a.len() > 0 && b.len() > 0 {
        lemma_text_le_antisymmetric(a.drop_first(), b.drop_first());
        assert(a =~= seq![a[0]] + a.drop_first());
        assert(b =~= seq![b[0]] + b.drop_first());
    } else {
        assert(a =~= b);
    }
}

/// A text that is no later than a second, which is no later than a third,
/// is no later than the third.
pub proof fn lemma_text_le_transitive(a: Seq<char>, b: Seq<char>, c: Seq<char>)
    requires
        text_le(a, b),
        text_le(b, c),
    ensures
        text_le(a, c),
    decreases a.len(),
{
    if a.len() > 0 && b.len() > 0 && c.len() > 0 && a[0] == b[0] && b[0] == c[0] {
        lemma_text_le_transitive(a.drop_first(), b.drop_first(), c.drop_first());
    }
}

/// The order of keys is total: of two keys one is no later than the other,
/// two keys that are each no later than the other are the same key, and the
/// order carries over a key in between.
pub proof fn lemma_key_le_total_order(
    a: PrecedenceKeyView,
    b: PrecedenceKeyView,
    c: PrecedenceKeyView,
)
    ensures
        key_le(a, a),
        key_le(a, b) || key_le(b, a),
        key_le(a, b) && key_le(b, a) ==> a == b,
        key_le(a, b) && key_le(b, c) ==> key_le(a, c),
{
    lemma_text_le_total(a.3, b.3);
    if text_le(a.3, b.3) && text_le(b.3, a.3) {
        lemma_text_le_antisymmetric(a.3, b.3);
    }
    if text_le(a.3, b.3) && text_le(b.3, c.3) {
        lemma_text_le_transitive(a.3, b.3, c.3);
    }
    if text_le(a.3, c.3) && text_le(c.3, a.3) {
        lemma_text_le_antisymmetric(a.3, c.3);
    }
}

/// Of two records at different positions exactly one takes precedence, and
/// precedence carries over a record in between.
pub proof fn lemma_outranks_total_order(keys: Seq<PrecedenceKeyView>, a: int, b: int, c: int)
    ensures
        a != b ==> (outranks(keys, a, b) <==> !outranks(keys, b, a)),
        outranks(keys, a, b) && outranks(keys, b, c) ==> outranks(keys, a, c),
{
    lemma_key_le_total_order(keys[a], keys[b], keys[c]);
    lemma_key_le_total_order(keys[b], keys[a], keys[c]);
    lemma_key_le_total_order(keys[c], keys[a], keys[b]);
    lemma_key_le_total_order(keys[b], keys[c], keys[a]);
    lemma_key_le_total_order(keys[c], keys[b], keys[a]);
}

/// The record at position `m` takes precedence over every other below
/// `n`.
pub open spec fn leads_below(keys: Seq<PrecedenceKeyView>, m: int, n: int) -> bool {
    &&& 0 <= m < n
    &&& forall|other: int| 0 <= other < n && other != m ==> outranks(keys, m, other)
}

/// Among the first `n` records, one takes precedence over every other.
proof fn lemma_leader_below(keys: Seq<PrecedenceKeyView>, n: int) -> (m: int)
    requires
        0 < n <= keys.len(),
    ensures
        leads_below(keys, m, n),
    decreases n,
{
    if n == 1 {
        0
    } else {
        let last = n - 1;
        let before = lemma_leader_below(keys, last);
        lemma_outranks_total_order(keys, before, last, 0);
        if outranks(keys, before, last) {
            before
        } else {
            assert forall|other: int| 0 <= other < n && other != last implies outranks(
                keys,
                last,
                other,
            ) by {
                if other != before {
                    lemma_outranks_total_order(keys, last, before, other);
                }
            }
            last
        }
    }
}

/// Every group that is not empty has its survivor: the one record that
/// takes precedence over every other.
pub proof fn lemma_survivor_leads(keys: Seq<PrecedenceKeyView>)
    requires
        keys.len() > 0,
    ensures
        leads(keys, survivor(keys)),
{
    let m = lemma_leader_below(keys, keys.len() as int);
    assert(leads(keys, m));
}

/// `Itertools::sorted_by_key` on the positions of `keys`, each keyed by the
/// key it holds. The result lists every position, in ascending order of the
/// keys as tuples order; the sort is stable, so positions with equal keys
/// stay in ascending order.
#[verifier::external_body]
fn sorted_positions(keys: &Vec<PrecedenceKey>) -> (order: Vec<usize>)
    ensures
        order@.len() == keys@.len(),
        forall|at: usize| at < keys@.len() ==> #[trigger] order@.contains(at),
        forall|a: int| 0 <= a < order@.len() ==> (#[trigger] order@[a]) < keys@.len(),
        forall|a: int, b: int|
            0 <= a < b < order@.len() ==> outranks(
                key_views(keys@),
                (#[trigger] order@[a]) as int,
                (#[trigger] order@[b]) as int,
            ),
{
    (0..keys.len()).sorted_by_key(|at| &keys[*at]).collect()
}

/// Finds the record that stays among those that `keys` describe.
pub fn find_survivor(keys: &Vec<PrecedenceKey>) -> (m: usize)
    requires
        keys@.len() > 0,
    ensures
        leads(key_views(keys@), m as int),
        m as int == survivor(key_views(keys@)),
{
    let order = sorted_positions(keys);
    let m = order[0];
    proof {
        let views = key_views(keys@);
        assert forall|other: int| 0 <= other < views.len() && other != m implies outranks(
            views,
            m as int,
            other,
        ) by {
            assert(views.len() == keys@.len());
            assert(order@.contains(other as usize));
            let b = choose|b: int| 0 <= b < order@.len() && order@[b] == other as usize;
            assert(order@[b] as int == other);
            assert(b != 0);
            assert(outranks(views, order@[0] as int, order@[b] as int));
        }
        lemma_one_leader(views, m as int);
    }
    m
}

/// The length in bytes of a text's UTF-8 form.
pub open spec fn utf8_len(text: Seq<char>) -> usize {
    vstd::utf8::encode_utf8(text).len() as usize
}

/// A creation time as a pair that orders as times do.
pub open spec fn time_pair(created: Option<Timestamp>) -> Option<(i64, u32)> {
    match created {
        Some(time) => Some((time.secs, time.nanos)),
        None => None,
    }
}

/// Games go by creation time, slug length, name length, name, id.
pub open spec fn game_key(game: GameView) -> PrecedenceKeyView {
    (time_pair(game.created), utf8_len(game.slug), utf8_len(game.name), game.name, game.id)
}

/// Users go by creation time, slug length, name length, name, id.
pub open spec fn user_key(user: UserView) -> PrecedenceKeyView {
    (time_pair(user.created), utf8_len(user.slug), utf8_len(user.name), user.name, user.id)
}

/// Categories go by name length, name, id.
pub open spec fn category_key(category: CategoryView) -> PrecedenceKeyView {
    (None, 0, utf8_len(category.name), category.name, category.id)
}

/// Levels go by name length, name, id.
pub open spec fn level_key(level: LevelView) -> PrecedenceKeyView {
    (None, 0, utf8_len(level.name), level.name, level.id)
}

/// The keys of a group of games, record by record.
pub open spec fn game_keys(games: Seq<GameView>) -> Seq<PrecedenceKeyView> {
    games.map_values(|game: GameView| game_key(game))
}

/// The keys of a group of users, record by record.
pub open spec fn user_keys(users: Seq<UserView>) -> Seq<PrecedenceKeyView> {
    users.map_values(|user: UserView| user_key(user))
}

/// The keys of a group of categories, record by record.
pub open spec fn category_keys(categories: Seq<CategoryView>) -> Seq<PrecedenceKeyView> {
    categories.map_values(|category: CategoryView| category_key(category))
}

/// The keys of a group of levels, record by record.
pub open spec fn level_keys(levels: Seq<LevelView>) -> Seq<PrecedenceKeyView> {
    levels.map_values(|level: LevelView| level_key(level))
}

fn pair_of(created: Option<Timestamp>) -> (pair: Option<(i64, u32)>)
    ensures
        pair == time_pair(created),
{
    match created {
        Some(time) => Some((time.secs, time.nanos)),
        None => None,
    }
}

impl Game {
    /// The key that decides which game of a shared slug stays.
    pub fn precedence_key(&self) -> (key: PrecedenceKey<'_>)
        ensures
            key@ == game_key(self@),
    {
        (
            pair_of(self.created),
            self.slug.as_str().len(),
            self.name.as_str().len(),
            self.name.as_str(),
            self.id,
        )
    }
}

impl User {
    /// The key that decides which user of a shared slug stays.
    pub fn precedence_key(&self) -> (key: PrecedenceKey<'_>)
        ensures
            key@ == user_key(self@),
    {
        (
            pair_of(self.created),
            self.slug.as_str().len(),
            self.name.as_str().len(),
            self.name.as_str(),
            self.id,
        )
    }
}

impl Category {
    /// The key that decides which category of a shared slug stays.
    pub fn precedence_key(&self) -> (key: PrecedenceKey<'_>)
        ensures
            key@ == category_key(self@),
    {
        (None, 0, self.name.as_str().len(), self.name.as_str(), self.id)
    }
}

impl Level {
    /// The key that decides which level of a shared slug stays.
    pub fn precedence_key(&self) -> (key: PrecedenceKey<'_>)
        ensures
            key@ == level_key(self@),
    {
        (None, 0, self.name.as_str().len(), self.name.as_str(), self.id)
    }
}

} // verus!
