//! The record store: an immutable, indexed snapshot of consistent tables.
//!
//! A store is built from tables in one step. Either the tables are
//! consistent and the store holds them with all its indices, or nothing is
//! built and the complete integrity report is handed back.
use vstd::prelude::*;
use std::collections::HashMap;
pub use crate::data::integrity::{IntegrityError, IntegrityErrors};
pub use crate::data::tables::Tables;
use crate::data::index::{
    group_by_id, index_ids, lemma_indexed, lemma_positions, lemma_select_push, occurs, positions,
    select,
};
use crate::data::integrity::{integrity_errors, lemma_clean_report};
use crate::data::tables::{lemma_find, lemma_tables_bounded, TablesView};
use crate::data::types::{
    lemma_views_push, views, Category, Game, Level, Run, RunPlayerView, User,
};
use crate::data::validate::{
    check_fields, check_primary_timings, check_references, check_slugs, lemma_firsts_index,
    IdIndices, SlugIndices,
};

verus! {

/// The lists of a reverse index: under each game id that occurs in
/// `parents`, the positions that hold it.
pub(crate) open spec fn groups(map: Map<u64, Vec<usize>>, parents: Seq<u64>) -> bool {
    &&& forall|id: u64| #[trigger] map.contains_key(id) <==> occurs(parents, id)
    &&& forall|id: u64| #[trigger]
        map.contains_key(id) ==> map[id]@ == positions(parents, id, parents.len())
}

/// Indexes the tables and checks them. `Ok` holds the id and slug indices of
/// consistent tables; `Err` holds the complete report.
pub(crate) fn survey(tables: &Tables) -> (found: Result<(IdIndices, SlugIndices), Vec<
    IntegrityError,
>>)
    ensures
        match found {
            Ok((ids, slugs)) => {
                &&& tables@.consistent()
                &&& ids.describes(tables)
                &&& slugs.describes(tables)
            },
            Err(errors) => {
                &&& views(errors@) == integrity_errors(tables@)
                &&& errors@.len() > 0
                &&& !tables@.consistent()
            },
        },
{
    let mut errors: Vec<IntegrityError> = Vec::new();
    proof {
        lemma_tables_bounded(tables);
        lemma_clean_report(tables@);
    }
    let runs = index_ids(&tables.run_ids());
    let users = index_ids(&tables.user_ids());
    let games = index_ids(&tables.game_ids());
    let categories = index_ids(&tables.category_ids());
    let levels = index_ids(&tables.level_ids());
    let ids = match (runs, users, games, categories, levels) {
        (Some(runs), Some(users), Some(games), Some(categories), Some(levels)) => IdIndices {
            users,
            games,
            categories,
            levels,
            runs,
        },
        _ => {
            errors.push(IntegrityError::IndexingError);
            assert(views(errors@) =~= integrity_errors(tables@));
            return Err(errors);
        },
    };
    assert(views(errors@) =~= Seq::empty());
    check_fields(tables, &mut errors);
    check_references(tables, &ids, &mut errors);
    let slugs = check_slugs(tables, &mut errors);
    check_primary_timings(tables, &ids, &mut errors);
    assert(views(errors@) =~= integrity_errors(tables@));
    if errors.len() > 0 {
        Err(errors)
    } else {
        proof {
            lemma_firsts_index(slugs.users@, tables@.user_slugs());
            lemma_firsts_index(slugs.games@, tables@.game_slugs());
            lemma_firsts_index(slugs.categories@, tables@.category_slugs());
            lemma_firsts_index(slugs.levels@, tables@.level_slugs());
        }
        Ok((ids, slugs))
    }
}

/// Checks the tables without building a store: `Ok` exactly for consistent
/// tables, and otherwise the complete report.
pub fn validate(tables: &Tables) -> (outcome: Result<(), IntegrityErrors>)
    ensures
        match outcome {
            Ok(_) => tables@.consistent(),
            Err(report) => {
                &&& report@ == integrity_errors(tables@)
                &&& report@.len() > 0
                &&& !tables@.consistent()
            },
        },
{
    match survey(tables) {
        Ok(_) => Ok(()),
        Err(errors) => Err(IntegrityErrors { errors }),
    }
}

/// In consistent tables, and so in every store, every foreign key of every
/// record is found by the lookup of its target kind: a run's game,
/// category, level and users, and the game of a category or a level.
pub proof fn lemma_references_resolve(store: TablesView)
    requires
        store.consistent(),
    ensures
        forall|i: int|
            0 <= i < store.runs.len() ==> {
                let run = #[trigger] store.runs[i];
                &&& store.game_by_id(run.game_id) is Some
                &&& store.category_by_id(run.category_id) is Some
                &&& run.level_id matches Some(level_id) ==> store.level_by_id(level_id) is Some
                &&& forall|p: int|
                    0 <= p < run.players.len() ==> (#[trigger] run.players[p] matches RunPlayerView::UserId(
                        user_id,
                    ) ==> store.user_by_id(user_id) is Some)
            },
        forall|i: int|
            0 <= i < store.categories.len() ==> store.game_by_id(
                (#[trigger] store.categories[i]).game_id,
            ) is Some,
        forall|i: int|
            0 <= i < store.levels.len() ==> store.game_by_id((#[trigger] store.levels[i]).game_id)
                is Some,
{
    assert forall|i: int| 0 <= i < store.runs.len() implies {
        let run = #[trigger] store.runs[i];
        &&& store.game_by_id(run.game_id) is Some
        &&& store.category_by_id(run.category_id) is Some
        &&& run.level_id matches Some(level_id) ==> store.level_by_id(level_id) is Some
        &&& forall|p: int|
            0 <= p < run.players.len() ==> (#[trigger] run.players[p] matches RunPlayerView::UserId(
                user_id,
            ) ==> store.user_by_id(user_id) is Some)
    } by {
        let run = store.runs[i];
        assert(store.run_resolves(run));
        assert forall|p: int| 0 <= p < run.players.len() implies (
        #[trigger] run.players[p] matches RunPlayerView::UserId(user_id) ==> store.user_by_id(
            user_id,
        ) is Some) by {
            assert(store.player_resolves(run.players[p]));
        }
    }
}

/// In consistent tables, and so in every store, no two records of a kind
/// share a slug.
pub proof fn lemma_slugs_unique(store: TablesView)
    requires
        store.consistent(),
    ensures
        forall|i: int, j: int|
            0 <= i < j < store.games.len() ==> (#[trigger] store.games[i]).slug != (
            #[trigger] store.games[j]).slug,
        forall|i: int, j: int|
            0 <= i < j < store.users.len() ==> (#[trigger] store.users[i]).slug != (
            #[trigger] store.users[j]).slug,
        forall|i: int, j: int|
            0 <= i < j < store.categories.len() ==> (#[trigger] store.categories[i]).slug != (
            #[trigger] store.categories[j]).slug,
        forall|i: int, j: int|
            0 <= i < j < store.levels.len() ==> (#[trigger] store.levels[i]).slug != (
            #[trigger] store.levels[j]).slug,
{
    assert forall|i: int, j: int| 0 <= i < j < store.games.len() implies (
    #[trigger] store.games[i]).slug != (#[trigger] store.games[j]).slug by {
        assert(store.game_slugs()[i] != store.game_slugs()[j]);
    }
    assert forall|i: int, j: int| 0 <= i < j < store.users.len() implies (
    #[trigger] store.users[i]).slug != (#[trigger] store.users[j]).slug by {
        assert(store.user_slugs()[i] != store.user_slugs()[j]);
    }
    assert forall|i: int, j: int| 0 <= i < j < store.categories.len() implies (
    #[trigger] store.categories[i]).slug != (#[trigger] store.categories[j]).slug by {
        assert(store.category_slugs()[i] != store.category_slugs()[j]);
    }
    assert forall|i: int, j: int| 0 <= i < j < store.levels.len() implies (
    #[trigger] store.levels[i]).slug != (#[trigger] store.levels[j]).slug by {
        assert(store.level_slugs()[i] != store.level_slugs()[j]);
    }
}

/// In consistent tables, and so in every store, every run has a duration
/// under the primary timing method of its game.
pub proof fn lemma_primary_timings_present(store: TablesView)
    requires
        store.consistent(),
    ensures
        forall|i: int|
            0 <= i < store.runs.len() ==> {
                let run = #[trigger] store.runs[i];
                &&& store.game_by_id(run.game_id) matches Some(game)
                &&& run.times_ms.spec_get(game.primary_timing) is Some
            },
{
    assert forall|i: int| 0 <= i < store.runs.len() implies {
        let run = #[trigger] store.runs[i];
        &&& store.game_by_id(run.game_id) matches Some(game)
        &&& run.times_ms.spec_get(game.primary_timing) is Some
    } by {
        let run = store.runs[i];
        assert(store.run_resolves(run));
        assert(store.run_has_primary_timing(run));
    }
}

/// An immutable, indexed snapshot of consistent tables.
pub struct Database {
    tables: Tables,
    ids: IdIndices,
    slugs: SlugIndices,
    runs_by_game_id: HashMap<u64, Vec<usize>>,
    categories_by_game_id: HashMap<u64, Vec<usize>>,
    levels_by_game_id: HashMap<u64, Vec<usize>>,
}

impl View for Database {
    type V = TablesView;

    closed spec fn view(&self) -> TablesView {
        self.tables@
    }
}

impl Database {
    /// The tables are consistent, and every index describes them.
    #[verifier::type_invariant]
    closed spec fn well_formed(&self) -> bool {
        &&& self.tables@.consistent()
        &&& self.ids.describes(&self.tables)
        &&& self.slugs.describes(&self.tables)
        &&& groups(self.runs_by_game_id@, self.tables@.run_game_ids())
        &&& groups(self.categories_by_game_id@, self.tables@.category_game_ids())
        &&& groups(self.levels_by_game_id@, self.tables@.level_game_ids())
    }

    /// Builds the store of `tables`, or reports everything that is wrong
    /// with them. The store is built exactly where the tables are
    /// consistent, and then holds them unchanged.
    pub fn new(tables: Tables) -> (built: Result<Database, IntegrityErrors>)
        ensures
            match built {
                Ok(database) => database@ == tables@ && tables@.consistent(),
                Err(report) => {
                    &&& report@ == integrity_errors(tables@)
                    &&& report@.len() > 0
                    &&& !tables@.consistent()
                },
            },
    {
        match survey(&tables) {
            Ok((ids, slugs)) => Ok(Database::assemble(tables, ids, slugs)),
            Err(errors) => Err(IntegrityErrors { errors }),
        }
    }

    /// Builds the store of tables that were surveyed and found consistent.
    pub(crate) fn assemble(tables: Tables, ids: IdIndices, slugs: SlugIndices) -> (database:
        Database)
        requires
            tables@.consistent(),
            ids.describes(&tables),
            slugs.describes(&tables),
        ensures
            database@ == tables@,
    {
        let runs_by_game_id = group_by_id(&tables.run_game_ids());
        let categories_by_game_id = group_by_id(&tables.category_game_ids());
        let levels_by_game_id = group_by_id(&tables.level_game_ids());
        Database { tables, ids, slugs, runs_by_game_id, categories_by_game_id, levels_by_game_id }
    }

    /// The tables that the store holds. They are consistent.
    pub fn tables(&self) -> (tables: &Tables)
        ensures
            tables@ == self@,
            self@.consistent(),
    {
        proof {
            use_type_invariant(self);
        }
        &self.tables
    }

    /// The run with the given id, if the store holds one.
    pub fn run_by_id(&self, id: u64) -> (run: Option<&Run>)
        ensures
            match run {
                Some(run) => self@.run_by_id(id) == Some(run@),
                None => self@.run_by_id(id) is None,
            },
    {
        broadcast use vstd::std_specs::hash::group_hash_axioms;

        proof {
            use_type_invariant(self);
            lemma_indexed(self.ids.runs@, self.tables@.run_ids(), id);
        }
        match self.ids.runs.get(&id) {
            Some(at) => {
                proof {
                    lemma_find(self.tables@.runs, self.tables@.run_ids(), id, *at as int);
                }
                Some(&self.tables.runs[*at])
            },
            None => None,
        }
    }

    /// The user with the given id, if the store holds one.
    pub fn user_by_id(&self, id: u64) -> (user: Option<&User>)
        ensures
            match user {
                Some(user) => self@.user_by_id(id) == Some(user@),
                None => self@.user_by_id(id) is None,
            },
    {
        broadcast use vstd::std_specs::hash::group_hash_axioms;

        proof {
            use_type_invariant(self);
            lemma_indexed(self.ids.users@, self.tables@.user_ids(), id);
        }
        match self.ids.users.get(&id) {
            Some(at) => {
                proof {
                    lemma_find(self.tables@.users, self.tables@.user_ids(), id, *at as int);
                }
                Some(&self.tables.users[*at])
            },
            None => None,
        }
    }

    /// The game with the given id, if the store holds one.
    pub fn game_by_id(&self, id: u64) -> (game: Option<&Game>)
        ensures
            match game {
                Some(game) => self@.game_by_id(id) == Some(game@),
                None => self@.game_by_id(id) is None,
            },
    {
        broadcast use vstd::std_specs::hash::group_hash_axioms;

        proof {
            use_type_invariant(self);
            lemma_indexed(self.ids.games@, self.tables@.game_ids(), id);
        }
        match self.ids.games.get(&id) {
            Some(at) => {
                proof {
                    lemma_find(self.tables@.games, self.tables@.game_ids(), id, *at as int);
                }
                Some(&self.tables.games[*at])
            },
            None => None,
        }
    }

    /// The category with the given id, if the store holds one.
    pub fn category_by_id(&self, id: u64) -> (category: Option<&Category>)
        ensures
            match category {
                Some(category) => self@.category_by_id(id) == Some(category@),
                None => self@.category_by_id(id) is None,
            },
    {
        broadcast use vstd::std_specs::hash::group_hash_axioms;

        proof {
            use_type_invariant(self);
            lemma_indexed(self.ids.categories@, self.tables@.category_ids(), id);
        }
        match self.ids.categories.get(&id) {
            Some(at) => {
                proof {
                    lemma_find(self.tables@.categories, self.tables@.category_ids(), id, *at as int);
                }
                Some(&self.tables.categories[*at])
            },
            None => None,
        }
    }

    /// The level with the given id, if the store holds one.
    pub fn level_by_id(&self, id: u64) -> (level: Option<&Level>)
        ensures
            match level {
                Some(level) => self@.level_by_id(id) == Some(level@),
                None => self@.level_by_id(id) is None,
            },
    {
        broadcast use vstd::std_specs::hash::group_hash_axioms;

        proof {
            use_type_invariant(self);
            lemma_indexed(self.ids.levels@, self.tables@.level_ids(), id);
        }
        match self.ids.levels.get(&id) {
            Some(at) => {
                proof {
                    lemma_find(self.tables@.levels, self.tables@.level_ids(), id, *at as int);
                }
                Some(&self.tables.levels[*at])
            },
            None => None,
        }
    }

    /// The user with the given slug, if the store holds one.
    pub fn user_by_slug(&self, slug: &str) -> (user: Option<&User>)
        ensures
            match user {
                Some(user) => self@.user_by_slug(slug@) == Some(user@),
                None => self@.user_by_slug(slug@) is None,
            },
    {
        proof {
            use_type_invariant(self);
            lemma_indexed(self.slugs.users@, self.tables@.user_slugs(), slug@);
        }
        match self.slugs.users.get(slug) {
            Some(at) => {
                proof {
                    lemma_find(self.tables@.users, self.tables@.user_slugs(), slug@, *at as int);
                }
                Some(&self.tables.users[*at])
            },
            None => None,
        }
    }

    /// The game with the given slug, if the store holds one.
    pub fn game_by_slug(&self, slug: &str) -> (game: Option<&Game>)
        ensures
            match game {
                Some(game) => self@.game_by_slug(slug@) == Some(game@),
                None => self@.game_by_slug(slug@) is None,
            },
    {
        proof {
            use_type_invariant(self);
            lemma_indexed(self.slugs.games@, self.tables@.game_slugs(), slug@);
        }
        match self.slugs.games.get(slug) {
            Some(at) => {
                proof {
                    lemma_find(self.tables@.games, self.tables@.game_slugs(), slug@, *at as int);
                }
                Some(&self.tables.games[*at])
            },
            None => None,
        }
    }

    /// The category with the given slug, if the store holds one.
    pub fn category_by_slug(&self, slug: &str) -> (category: Option<&Category>)
        ensures
            match category {
                Some(category) => self@.category_by_slug(slug@) == Some(category@),
                None => self@.category_by_slug(slug@) is None,
            },
    {
        proof {
            use_type_invariant(self);
            lemma_indexed(self.slugs.categories@, self.tables@.category_slugs(), slug@);
        }
        match self.slugs.categories.get(slug) {
            Some(at) => {
                proof {
                    lemma_find(self.tables@.categories, self.tables@.category_slugs(), slug@, *at as int);
                }
                Some(&self.tables.categories[*at])
            },
            None => None,
        }
    }

    /// The level with the given slug, if the store holds one.
    pub fn level_by_slug(&self, slug: &str) -> (level: Option<&Level>)
        ensures
            match level {
                Some(level) => self@.level_by_slug(slug@) == Some(level@),
                None => self@.level_by_slug(slug@) is None,
            },
    {
        proof {
            use_type_invariant(self);
            lemma_indexed(self.slugs.levels@, self.tables@.level_slugs(), slug@);
        }
        match self.slugs.levels.get(slug) {
            Some(at) => {
                proof {
                    lemma_find(self.tables@.levels, self.tables@.level_slugs(), slug@, *at as int);
                }
                Some(&self.tables.levels[*at])
            },
            None => None,
        }
    }

    /// The runs of the game with the given id, in table order; `None`
    /// where the store holds no such game.
    pub fn runs_by_game_id(&self, game_id: u64) -> (runs: Option<Vec<&Run>>)
        ensures
            match runs {
                Some(runs) => self@.has_game(game_id) && views(runs@)
                    == self@.runs_by_game_id(game_id),
                None => !self@.has_game(game_id),
            },
    {
        broadcast use vstd::std_specs::hash::group_hash_axioms;

        proof {
            use_type_invariant(self);
            lemma_tables_bounded(&self.tables);
            lemma_indexed(self.ids.games@, self.tables@.game_ids(), game_id);
            lemma_positions(self.tables@.run_game_ids(), game_id, self.tables@.runs.len());
        }
        if !self.ids.games.contains_key(&game_id) {
            return None;
        }
        let mut found: Vec<&Run> = Vec::new();
        match self.runs_by_game_id.get(&game_id) {
            Some(places) => {
                let mut k: usize = 0;
                while k < places.len()
                    invariant
                        k <= places.len(),
                        forall|a: int|
                            0 <= a < places@.len() ==> (#[trigger] places@[a])
                                < self.tables.runs@.len(),
                        found@.len() == k,
                        views(found@) == select(self.tables@.runs, places@.take(k as int)),
                    decreases places.len() - k,
                {
                    let ghost listed = found@;
                    found.push(&self.tables.runs[places[k]]);
                    proof {
                        lemma_views_push(listed, found@[k as int]);
                        lemma_select_push(self.tables@.runs, places@, k as int);
                        assert(self.tables@.runs[places@[k as int] as int]
                            == self.tables.runs@[places@[k as int] as int]@);
                    }
                    k += 1;
                }
                assert(places@.take(k as int) =~= places@);
            },
            None => {
                assert(views(found@) =~= self.tables@.runs_by_game_id(game_id));
            },
        }
        Some(found)
    }

    /// The categories of the game with the given id, in table order; `None`
    /// where the store holds no such game.
    pub fn categories_by_game_id(&self, game_id: u64) -> (categories: Option<Vec<&Category>>)
        ensures
            match categories {
                Some(categories) => self@.has_game(game_id) && views(categories@)
                    == self@.categories_by_game_id(game_id),
                None => !self@.has_game(game_id),
            },
    {
        broadcast use vstd::std_specs::hash::group_hash_axioms;

        proof {
            use_type_invariant(self);
            lemma_tables_bounded(&self.tables);
            lemma_indexed(self.ids.games@, self.tables@.game_ids(), game_id);
            lemma_positions(self.tables@.category_game_ids(), game_id, self.tables@.categories.len());
        }
        if !self.ids.games.contains_key(&game_id) {
            return None;
        }
        let mut found: Vec<&Category> = Vec::new();
        match self.categories_by_game_id.get(&game_id) {
            Some(places) => {
                let mut k: usize = 0;
                while k < places.len()
                    invariant
                        k <= places.len(),
                        forall|a: int|
                            0 <= a < places@.len() ==> (#[trigger] places@[a])
                                < self.tables.categories@.len(),
                        found@.len() == k,
                        views(found@) == select(self.tables@.categories, places@.take(k as int)),
                    decreases places.len() - k,
                {
                    let ghost listed = found@;
                    found.push(&self.tables.categories[places[k]]);
                    proof {
                        lemma_views_push(listed, found@[k as int]);
                        lemma_select_push(self.tables@.categories, places@, k as int);
                        assert(self.tables@.categories[places@[k as int] as int]
                            == self.tables.categories@[places@[k as int] as int]@);
                    }
                    k += 1;
                }
                assert(places@.take(k as int) =~= places@);
            },
            None => {
                assert(views(found@) =~= self.tables@.categories_by_game_id(game_id));
            },
        }
        Some(found)
    }

    /// The levels of the game with the given id, in table order; `None`
    /// where the store holds no such game.
    pub fn levels_by_game_id(&self, game_id: u64) -> (levels: Option<Vec<&Level>>)
        ensures
            match levels {
                Some(levels) => self@.has_game(game_id) && views(levels@)
                    == self@.levels_by_game_id(game_id),
                None => !self@.has_game(game_id),
            },
    {
        broadcast use vstd::std_specs::hash::group_hash_axioms;

        proof {
            use_type_invariant(self);
            lemma_tables_bounded(&self.tables);
            lemma_indexed(self.ids.games@, self.tables@.game_ids(), game_id);
            lemma_positions(self.tables@.level_game_ids(), game_id, self.tables@.levels.len());
        }
        if !self.ids.games.contains_key(&game_id) {
            return None;
        }
        let mut found: Vec<&Level> = Vec::new();
        match self.levels_by_game_id.get(&game_id) {
            Some(places) => {
                let mut k: usize = 0;
                while k < places.len()
                    invariant
                        k <= places.len(),
                        forall|a: int|
                            0 <= a < places@.len() ==> (#[trigger] places@[a])
                                < self.tables.levels@.len(),
                        found@.len() == k,
                        views(found@) == select(self.tables@.levels, places@.take(k as int)),
                    decreases places.len() - k,
                {
                    let ghost listed = found@;
                    found.push(&self.tables.levels[places[k]]);
                    proof {
                        lemma_views_push(listed, found@[k as int]);
                        lemma_select_push(self.tables@.levels, places@, k as int);
                        assert(self.tables@.levels[places@[k as int] as int]
                            == self.tables.levels@[places@[k as int] as int]@);
                    }
                    k += 1;
                }
                assert(places@.take(k as int) =~= places@);
            },
            None => {
                assert(views(found@) =~= self.tables@.levels_by_game_id(game_id));
            },
        }
        Some(found)
    }
}

} // verus!
