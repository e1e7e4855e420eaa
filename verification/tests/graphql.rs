use std::sync::Arc;

use speedruns::data::database::Database;
use speedruns::data::graphql::{Context, Game as GameNode, Mutation, Query, QueryError, Run as RunNode};
use speedruns::data::tables::Tables;
use speedruns::data::types::{
    Category, CategoryType, Game, Run, RunPlayer, RunTimesMs, TimingMethod,
};

fn served_context() -> Context {
    let game = |id: u64, slug: &str, name: &str| Game {
        id,
        created: None,
        slug: slug.to_string(),
        src_slug: slug.to_string(),
        name: name.to_string(),
        primary_timing: TimingMethod::RTA,
    };
    let run = |id: u64, game_id: u64| Run {
        game_id,
        category_id: 10,
        level_id: None,
        id,
        created: None,
        date: None,
        times_ms: RunTimesMs { igt: None, rta: Some(id), rta_nl: None },
        players: vec![RunPlayer::GuestName("guest".to_string())],
    };
    let tables = Tables::new(
        vec![run(1296, 36), run(3, 71), run(35, 36)],
        vec![],
        vec![game(36, "celeste", "Celeste"), game(71, "sc1", "StarCraft"), game(72, "scbw", "Brood War")],
        vec![Category {
            game_id: 36,
            slug: "any".to_string(),
            name: "Any%".to_string(),
            id: 10,
            per: CategoryType::PerGame,
            rules: String::new(),
        }],
        vec![],
    );
    match Database::new(tables) {
        Ok(database) => Context { database: Arc::new(database) },
        Err(report) => panic!("the tables were refused: {:?}", report),
    }
}

#[test]
fn a_game_is_found_by_its_slug() {
    let context = served_context();
    assert_eq!(Query::game(&context, "sc1".to_string()).map(|game| game.id), Ok(71));
    assert_eq!(Query::game(&context, "celeste".to_string()).map(|game| game.id), Ok(36));
}

#[test]
fn an_unknown_slug_finds_nothing() {
    let context = served_context();
    assert_eq!(
        Query::game(&context, "sc2".to_string()).map(|game| game.id),
        Err(QueryError::NotFound)
    );
    assert_eq!(
        Query::game(&context, String::new()).map(|game| game.id),
        Err(QueryError::NotFound)
    );
}

#[test]
fn a_game_node_answers_with_the_fields_of_its_game() {
    let context = served_context();
    let node = Query::game(&context, "sc1".to_string()).unwrap();
    assert_eq!(node.id(&context), "1z");
    assert_eq!(node.name(&context), Ok("StarCraft".to_string()));
    assert_eq!(node.slug(&context), Ok("sc1".to_string()));
}

#[test]
fn a_game_node_lists_the_runs_of_its_game_in_table_order() {
    let context = served_context();
    let celeste = GameNode { id: 36 };
    let ids: Vec<u64> = celeste.runs(&context).unwrap().iter().map(|run| run.id).collect();
    assert_eq!(ids, vec![1296, 35]);
    let brood_war = GameNode { id: 72 };
    assert_eq!(brood_war.runs(&context).unwrap().len(), 0);
}

#[test]
fn a_node_of_an_unknown_game_has_no_fields_but_its_id() {
    let context = served_context();
    let node = GameNode { id: 5 };
    assert_eq!(node.id(&context), "5");
    assert_eq!(node.name(&context), Err(QueryError::NotFound));
    assert_eq!(node.slug(&context), Err(QueryError::NotFound));
    assert_eq!(node.runs(&context).map(|runs| runs.len()), Err(QueryError::NotFound));
}

#[test]
fn a_run_node_writes_its_id_in_base_36() {
    let context = served_context();
    assert_eq!(RunNode { id: 1296 }.id(&context), "100");
    assert_eq!(RunNode { id: 35 }.id(&context), "z");
}

#[test]
fn the_mutation_root_changes_nothing() {
    let context = served_context();
    assert!(!Mutation::noop(&context));
    let _roots = (Query::default(), Mutation::default());
}
