//! The five working collections, one per kind, and what it means for them
//! to be consistent with each other.
use vstd::prelude::*;
use crate::data::index::{distinct, occurs, positions, select};
use crate::data::types::{
    views, Category, CategoryView, Game, GameView, Level, LevelView, Run, RunPlayerView, RunView,
    User, UserView,
};

verus! {

/// The records of all five kinds, each kind in the order it was given.
#[derive(Debug, PartialEq, Eq)]
pub struct Tables {
    pub runs: Vec<Run>,
    pub users: Vec<User>,
    pub games: Vec<Game>,
    pub categories: Vec<Category>,
    pub levels: Vec<Level>,
}

/// What `Tables` stand for.
pub struct TablesView {
    pub runs: Seq<RunView>,
    pub users: Seq<UserView>,
    pub games: Seq<GameView>,
    pub categories: Seq<CategoryView>,
    pub levels: Seq<LevelView>,
}

impl View for Tables {
    type V = TablesView;

    open spec fn view(&self) -> TablesView {
        TablesView {
            runs: views(self.runs@),
            users: views(self.users@),
            games: views(self.games@),
            categories: views(self.categories@),
            levels: views(self.levels@),
        }
    }
}

impl Clone for Tables {
    fn clone(&self) -> (copy: Self)
        ensures
            copy@ == self@,
    {
        let runs = self.runs.clone();
        let users = self.users.clone();
        let games = self.games.clone();
        let categories = self.categories.clone();
        let levels = self.levels.clone();
        assert(views(runs@) =~= views(self.runs@));
        assert(views(users@) =~= views(self.users@));
        assert(views(games@) =~= views(self.games@));
        assert(views(categories@) =~= views(self.categories@));
        assert(views(levels@) =~= views(self.levels@));
        Tables { runs, users, games, categories, levels }
    }
}

impl Tables {
    /// Takes the five collections as they are: nothing is checked yet.
    pub fn new(
        runs: Vec<Run>,
        users: Vec<User>,
        games: Vec<Game>,
        categories: Vec<Category>,
        levels: Vec<Level>,
    ) -> (tables: Self)
        ensures
            tables.runs == runs,
            tables.users == users,
            tables.games == games,
            tables.categories == categories,
            tables.levels == levels,
    {
        Tables { runs, users, games, categories, levels }
    }
}

/// What `Tables` hold is short enough to be held.
pub proof fn lemma_tables_bounded(tables: &Tables)
    ensures
        tables@.bounded(),
{
    assert(tables@.runs.len() == tables.runs.len());
    assert(tables@.users.len() == tables.users.len());
    assert(tables@.games.len() == tables.games.len());
    assert(tables@.categories.len() == tables.categories.len());
    assert(tables@.levels.len() == tables.levels.len());
}

/// The position of `key` in `keys`, where `keys` holds it.
pub open spec fn place_of<K>(keys: Seq<K>, key: K) -> int {
    choose|at: int| 0 <= at < keys.len() && keys[at] == key
}

/// The item of `items` that stands where `keys` holds `key`, if `keys` holds
/// it at all.
pub open spec fn find<A, K>(items: Seq<A>, keys: Seq<K>, key: K) -> Option<A> {
    if occurs(keys, key) {
        Some(items[place_of(keys, key)])
    } else {
        None
    }
}

/// Where no key stands twice, the item found under a key is the item at
/// the key's one position.
pub proof fn lemma_find<A, K>(items: Seq<A>, keys: Seq<K>, key: K, at: int)
    requires
        distinct(keys),
        0 <= at < keys.len(),
        keys[at] == key,
    ensures
        place_of(keys, key) == at,
        find(items, keys, key) == Some(items[at]),
{
    let place = place_of(keys, key);
    assert(0 <= place < keys.len() && keys[place] == key);
    if place < at {
        assert(keys[place] != keys[at]);
    } else if at < place {
        assert(keys[at] != keys[place]);
    }
}

impl TablesView {
    /// The ids of the runs, run by run.
    pub open spec fn run_ids(self) -> Seq<u64> {
        self.runs.map_values(|run: RunView| run.id)
    }

    /// The ids of the users, user by user.
    pub open spec fn user_ids(self) -> Seq<u64> {
        self.users.map_values(|user: UserView| user.id)
    }

    /// The ids of the games, game by game.
    pub open spec fn game_ids(self) -> Seq<u64> {
        self.games.map_values(|game: GameView| game.id)
    }

    /// The ids of the categories, category by category.
    pub open spec fn category_ids(self) -> Seq<u64> {
        self.categories.map_values(|category: CategoryView| category.id)
    }

    /// The ids of the levels, level by level.
    pub open spec fn level_ids(self) -> Seq<u64> {
        self.levels.map_values(|level: LevelView| level.id)
    }

    /// The slugs of the users, user by user.
    pub open spec fn user_slugs(self) -> Seq<Seq<char>> {
        self.users.map_values(|user: UserView| user.slug)
    }

    /// The slugs of the games, game by game.
    pub open spec fn game_slugs(self) -> Seq<Seq<char>> {
        self.games.map_values(|game: GameView| game.slug)
    }

    /// The slugs of the categories, category by category.
    pub open spec fn category_slugs(self) -> Seq<Seq<char>> {
        self.categories.map_values(|category: CategoryView| category.slug)
    }

    /// The slugs of the levels, level by level.
    pub open spec fn level_slugs(self) -> Seq<Seq<char>> {
        self.levels.map_values(|level: LevelView| level.slug)
    }

    /// The game that each run belongs to, run by run.
    pub open spec fn run_game_ids(self) -> Seq<u64> {
        self.runs.map_values(|run: RunView| run.game_id)
    }

    /// The game that each category belongs to, category by category.
    pub open spec fn category_game_ids(self) -> Seq<u64> {
        self.categories.map_values(|category: CategoryView| category.game_id)
    }

    /// The game that each level belongs to, level by level.
    pub open spec fn level_game_ids(self) -> Seq<u64> {
        self.levels.map_values(|level: LevelView| level.game_id)
    }

    /// Some run has the given id.
    pub open spec fn has_run(self, id: u64) -> bool {
        occurs(self.run_ids(), id)
    }

    /// Some user has the given id.
    pub open spec fn has_user(self, id: u64) -> bool {
        occurs(self.user_ids(), id)
    }

    /// Some game has the given id.
    pub open spec fn has_game(self, id: u64) -> bool {
        occurs(self.game_ids(), id)
    }

    /// Some category has the given id.
    pub open spec fn has_category(self, id: u64) -> bool {
        occurs(self.category_ids(), id)
    }

    /// Some level has the given id.
    pub open spec fn has_level(self, id: u64) -> bool {
        occurs(self.level_ids(), id)
    }

    /// The game with the given id, where there is one.
    pub open spec fn game(self, id: u64) -> GameView {
        self.games[place_of(self.game_ids(), id)]
    }

    /// The run with the given id, if there is one.
    pub open spec fn run_by_id(self, id: u64) -> Option<RunView> {
        find(self.runs, self.run_ids(), id)
    }

    /// The user with the given id, if there is one.
    pub open spec fn user_by_id(self, id: u64) -> Option<UserView> {
        find(self.users, self.user_ids(), id)
    }

    /// The game with the given id, if there is one.
    pub open spec fn game_by_id(self, id: u64) -> Option<GameView> {
        find(self.games, self.game_ids(), id)
    }

    /// The category with the given id, if there is one.
    pub open spec fn category_by_id(self, id: u64) -> Option<CategoryView> {
        find(self.categories, self.category_ids(), id)
    }

    /// The level with the given id, if there is one.
    pub open spec fn level_by_id(self, id: u64) -> Option<LevelView> {
        find(self.levels, self.level_ids(), id)
    }

    /// The user with the given slug, if there is one.
    pub open spec fn user_by_slug(self, slug: Seq<char>) -> Option<UserView> {
        find(self.users, self.user_slugs(), slug)
    }

    /// The game with the given slug, if there is one.
    pub open spec fn game_by_slug(self, slug: Seq<char>) -> Option<GameView> {
        find(self.games, self.game_slugs(), slug)
    }

    /// The category with the given slug, if there is one.
    pub open spec fn category_by_slug(self, slug: Seq<char>) -> Option<CategoryView> {
        find(self.categories, self.category_slugs(), slug)
    }

    /// The level with the given slug, if there is one.
    pub open spec fn level_by_slug(self, slug: Seq<char>) -> Option<LevelView> {
        find(self.levels, self.level_slugs(), slug)
    }

    /// The runs of a game, in table order.
    pub open spec fn runs_by_game_id(self, game_id: u64) -> Seq<RunView> {
        select(self.runs, positions(self.run_game_ids(), game_id, self.runs.len()))
    }

    /// The categories of a game, in table order.
    pub open spec fn categories_by_game_id(self, game_id: u64) -> Seq<CategoryView> {
        select(
            self.categories,
            positions(self.category_game_ids(), game_id, self.categories.len()),
        )
    }

    /// The levels of a game, in table order.
    pub open spec fn levels_by_game_id(self, game_id: u64) -> Seq<LevelView> {
        select(self.levels, positions(self.level_game_ids(), game_id, self.levels.len()))
    }

    /// Every collection is short enough for a `Vec` to hold.
    pub open spec fn bounded(self) -> bool {
        &&& self.runs.len() <= usize::MAX
        &&& self.users.len() <= usize::MAX
        &&& self.games.len() <= usize::MAX
        &&& self.categories.len() <= usize::MAX
        &&& self.levels.len() <= usize::MAX
    }

    /// The number of records of all kinds together.
    pub open spec fn total(self) -> nat {
        self.runs.len() + self.users.len() + self.games.len() + self.categories.len()
            + self.levels.len()
    }

    /// Within each kind, no two records share an id.
    pub open spec fn ids_distinct(self) -> bool {
        &&& distinct(self.run_ids())
        &&& distinct(self.user_ids())
        &&& distinct(self.game_ids())
        &&& distinct(self.category_ids())
        &&& distinct(self.level_ids())
    }

    /// No record has a field-local defect.
    pub open spec fn fields_valid(self) -> bool {
        &&& forall|i: int|
            0 <= i < self.runs.len() ==> (#[trigger] self.runs[i]).field_errors().len() == 0
        &&& forall|i: int|
            0 <= i < self.users.len() ==> (#[trigger] self.users[i]).field_errors().len() == 0
        &&& forall|i: int|
            0 <= i < self.games.len() ==> (#[trigger] self.games[i]).field_errors().len() == 0
        &&& forall|i: int|
            0 <= i < self.categories.len() ==> (#[trigger] self.categories[i]).field_errors().len()
                == 0
        &&& forall|i: int|
            0 <= i < self.levels.len() ==> (#[trigger] self.levels[i]).field_errors().len() == 0
    }

    /// A player who is a user is a user of these tables.
    pub open spec fn player_resolves(self, player: RunPlayerView) -> bool {
        player matches RunPlayerView::UserId(id) ==> self.has_user(id)
    }

    /// The run's game, category, level and users are all in these tables.
    pub open spec fn run_resolves(self, run: RunView) -> bool {
        &&& self.has_game(run.game_id)
        &&& self.has_category(run.category_id)
        &&& run.level_id matches Some(level_id) ==> self.has_level(level_id)
        &&& forall|p: int|
            0 <= p < run.players.len() ==> self.player_resolves(#[trigger] run.players[p])
    }

    /// Every foreign key of every record names a record of these tables.
    pub open spec fn references_resolve(self) -> bool {
        &&& forall|i: int| 0 <= i < self.runs.len() ==> self.run_resolves(#[trigger] self.runs[i])
        &&& forall|i: int|
            0 <= i < self.categories.len() ==> self.has_game((#[trigger] self.categories[i]).game_id)
        &&& forall|i: int|
            0 <= i < self.levels.len() ==> self.has_game((#[trigger] self.levels[i]).game_id)
    }

    /// Within each kind that has slugs, no two records share a slug.
    pub open spec fn slugs_distinct(self) -> bool {
        &&& distinct(self.user_slugs())
        &&& distinct(self.game_slugs())
        &&& distinct(self.category_slugs())
        &&& distinct(self.level_slugs())
    }

    /// The run has a duration under its game's primary timing method, if its
    /// game is in these tables.
    pub open spec fn run_has_primary_timing(self, run: RunView) -> bool {
        self.has_game(run.game_id) ==> run.times_ms.spec_get(
            self.game(run.game_id).primary_timing,
        ) is Some
    }

    /// Every run has a duration under its game's primary timing method.
    pub open spec fn primary_timings_present(self) -> bool {
        forall|i: int|
            0 <= i < self.runs.len() ==> self.run_has_primary_timing(#[trigger] self.runs[i])
    }

    /// All that a store asks of its tables.
    pub open spec fn consistent(self) -> bool {
        &&& self.ids_distinct()
        &&& self.fields_valid()
        &&& self.references_resolve()
        &&& self.slugs_distinct()
        &&& self.primary_timings_present()
    }
}

impl Tables {
    /// The column `run_ids`, copied out.
    pub(crate) fn run_ids(&self) -> (column: Vec<u64>)
        ensures
            column@ == self@.run_ids(),
    {
        let mut column: Vec<u64> = Vec::new();
        let mut i: usize = 0;
        while i < self.runs.len()
            invariant
                i <= self.runs.len(),
                column@ == self@.run_ids().take(i as int),
            decreases self.runs.len() - i,
        {
            column.push(self.runs[i].id);
            assert(column@ =~= self@.run_ids().take(i + 1));
            i += 1;
        }
        assert(column@ =~= self@.run_ids());
        column
    }

    /// The column `user_ids`, copied out.
    pub(crate) fn user_ids(&self) -> (column: Vec<u64>)
        ensures
            column@ == self@.user_ids(),
    {
        let mut column: Vec<u64> = Vec::new();
        let mut i: usize = 0;
        while i < self.users.len()
            invariant
                i <= self.users.len(),
                column@ == self@.user_ids().take(i as int),
            decreases self.users.len() - i,
        {
            column.push(self.users[i].id);
            assert(column@ =~= self@.user_ids().take(i + 1));
            i += 1;
        }
        assert(column@ =~= self@.user_ids());
        column
    }

    /// The column `game_ids`, copied out.
    pub(crate) fn game_ids(&self) -> (column: Vec<u64>)
        ensures
            column@ == self@.game_ids(),
    {
        let mut column: Vec<u64> = Vec::new();
        let mut i: usize = 0;
        while i < self.games.len()
            invariant
                i <= self.games.len(),
                column@ == self@.game_ids().take(i as int),
            decreases self.games.len() - i,
        {
            column.push(self.games[i].id);
            assert(column@ =~= self@.game_ids().take(i + 1));
            i += 1;
        }
        assert(column@ =~= self@.game_ids());
        column
    }

    /// The column `category_ids`, copied out.
    pub(crate) fn category_ids(&self) -> (column: Vec<u64>)
        ensures
            column@ == self@.category_ids(),
    {
        let mut column: Vec<u64> = Vec::new();
        let mut i: usize = 0;
        while i < self.categories.len()
            invariant
                i <= self.categories.len(),
                column@ == self@.category_ids().take(i as int),
            decreases self.categories.len() - i,
        {
            column.push(self.categories[i].id);
            assert(column@ =~= self@.category_ids().take(i + 1));
            i += 1;
        }
        assert(column@ =~= self@.category_ids());
        column
    }

    /// The column `level_ids`, copied out.
    pub(crate) fn level_ids(&self) -> (column: Vec<u64>)
        ensures
            column@ == self@.level_ids(),
    {
        let mut column: Vec<u64> = Vec::new();
        let mut i: usize = 0;
        while i < self.levels.len()
            invariant
                i <= self.levels.len(),
                column@ == self@.level_ids().take(i as int),
            decreases self.levels.len() - i,
        {
            column.push(self.levels[i].id);
            assert(column@ =~= self@.level_ids().take(i + 1));
            i += 1;
        }
        assert(column@ =~= self@.level_ids());
        column
    }

    /// The column `run_game_ids`, copied out.
    pub(crate) fn run_game_ids(&self) -> (column: Vec<u64>)
        ensures
            column@ == self@.run_game_ids(),
    {
        let mut column: Vec<u64> = Vec::new();
        let mut i: usize = 0;
        while i < self.runs.len()
            invariant
                i <= self.runs.len(),
                column@ == self@.run_game_ids().take(i as int),
            decreases self.runs.len() - i,
        {
            column.push(self.runs[i].game_id);
            assert(column@ =~= self@.run_game_ids().take(i + 1));
            i += 1;
        }
        assert(column@ =~= self@.run_game_ids());
        column
    }

    /// The column `category_game_ids`, copied out.
    pub(crate) fn category_game_ids(&self) -> (column: Vec<u64>)
        ensures
            column@ == self@.category_game_ids(),
    {
        let mut column: Vec<u64> = Vec::new();
        let mut i: usize = 0;
        while i < self.categories.len()
            invariant
                i <= self.categories.len(),
                column@ == self@.category_game_ids().take(i as int),
            decreases self.categories.len() - i,
        {
            column.push(self.categories[i].game_id);
            assert(column@ =~= self@.category_game_ids().take(i + 1));
            i += 1;
        }
        assert(column@ =~= self@.category_game_ids());
        column
    }

    /// The column `level_game_ids`, copied out.
    pub(crate) fn level_game_ids(&self) -> (column: Vec<u64>)
        ensures
            column@ == self@.level_game_ids(),
    {
        let mut column: Vec<u64> = Vec::new();
        let mut i: usize = 0;
        while i < self.levels.len()
            invariant
                i <= self.levels.len(),
                column@ == self@.level_game_ids().take(i as int),
            decreases self.levels.len() - i,
        {
            column.push(self.levels[i].game_id);
            assert(column@ =~= self@.level_game_ids().take(i + 1));
            i += 1;
        }
        assert(column@ =~= self@.level_game_ids());
        column
    }
}

} // verus!
