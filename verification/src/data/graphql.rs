//! The read-only query layer over a store: what each field of the schema
//! answers, given the store that a request runs against.
use vstd::prelude::*;
use std::sync::Arc;
use crate::data::database::Database;
use crate::data::types::{views, RunView};
use crate::utils::{base36, base36_text};

pub mod global_id;

verus! {

/// What a request runs against.
pub struct Context {
    pub database: Arc<Database>,
}

/// Why a field has no answer.
#[derive(Debug, Clone, Copy, PartialEq, Eq, Structural)]
pub enum QueryError {
    /// The store holds no record under the id or slug that was asked for.
    NotFound,
}

/// A game, named by its id.
#[derive(Debug)]
pub struct Game {
    pub id: u64,
}

/// A run, named by its id.
#[derive(Debug)]
pub struct Run {
    pub id: u64,
}

/// The ids that a batch of run nodes names, in order.
pub open spec fn node_ids(runs: Seq<Run>) -> Seq<u64> {
    runs.map_values(|run: Run| run.id)
}

/// The ids of a batch of runs, in order.
pub open spec fn run_ids(runs: Seq<RunView>) -> Seq<u64> {
    runs.map_values(|run: RunView| run.id)
}

impl Game {
    /// The game's id as the upstream site writes it.
    pub fn id(&self, context: &Context) -> (id: String)
        ensures
            id@ == base36_text(self.id as nat),
    {
        base36(self.id)
    }

    /// The game's name, where the store holds the game.
    pub fn name(&self, context: &Context) -> (name: Result<String, QueryError>)
        ensures
            match name {
                Ok(name) => context.database@.game_by_id(self.id) matches Some(game) && name@
                    == game.name,
                Err(error) => error == QueryError::NotFound && context.database@.game_by_id(
                    self.id,
                ) is None,
            },
    {
        match context.database.game_by_id(self.id) {
            Some(game) => Ok(game.name.clone()),
            None => Err(QueryError::NotFound),
        }
    }

    /// The game's slug, where the store holds the game.
    pub fn slug(&self, context: &Context) -> (slug: Result<String, QueryError>)
        ensures
            match slug {
                Ok(slug) => context.database@.game_by_id(self.id) matches Some(game) && slug@
                    == game.slug,
                Err(error) => error == QueryError::NotFound && context.database@.game_by_id(
                    self.id,
                ) is None,
            },
    {
        match context.database.game_by_id(self.id) {
            Some(game) => Ok(game.slug.clone()),
            None => Err(QueryError::NotFound),
        }
    }

    /// All runs of the game, in table order, where the store holds the
    /// game.
    pub fn runs(&self, context: &Context) -> (runs: Result<Vec<Run>, QueryError>)
        ensures
            match runs {
                Ok(runs) => context.database@.has_game(self.id) && node_ids(runs@) == run_ids(
                    context.database@.runs_by_game_id(self.id),
                ),
                Err(error) => error == QueryError::NotFound && !context.database@.has_game(self.id),
            },
    {
        match context.database.runs_by_game_id(self.id) {
            Some(found) => {
                let mut runs: Vec<Run> = Vec::new();
                let mut i: usize = 0;
                while i < found.len()
                    invariant
                        i <= found.len(),
                        runs@.len() == i,
                        node_ids(runs@) == run_ids(views(found@)).take(i as int),
                    decreases found.len() - i,
                {
                    runs.push(Run { id: found[i].id });
                    assert(node_ids(runs@) =~= run_ids(views(found@)).take(i + 1));
                    i += 1;
                }
                assert(node_ids(runs@) =~= run_ids(views(found@)));
                Ok(runs)
            },
            None => Err(QueryError::NotFound),
        }
    }
}

impl Run {
    /// The run's id as the upstream site writes it.
    pub fn id(&self, context: &Context) -> (id: String)
        ensures
            id@ == base36_text(self.id as nat),
    {
        base36(self.id)
    }
}

/// The read-only root of the schema.
#[derive(Debug, Default)]
pub struct Query {}

impl Query {
    /// The game with the given slug.
    pub fn game(context: &Context, slug: String) -> (game: Result<Game, QueryError>)
        ensures
            match game {
                Ok(game) => context.database@.game_by_slug(slug@) matches Some(found) && game.id
                    == found.id,
                Err(error) => error == QueryError::NotFound && context.database@.game_by_slug(
                    slug@,
                ) is None,
            },
    {
        match context.database.game_by_slug(slug.as_str()) {
            Some(game) => Ok(Game { id: game.id }),
            None => Err(QueryError::NotFound),
        }
    }
}

/// The read-write root of the schema. It changes nothing.
#[derive(Debug, Default)]
pub struct Mutation {}

impl Mutation {
    /// Does nothing, and says so.
    pub fn noop(context: &Context) -> (changed: bool)
        ensures
            !changed,
    {
        false
    }
}

} // verus!
