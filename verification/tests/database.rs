use speedruns::data::database::{validate, Database};
use speedruns::data::graphql::global_id::NodeType;
use speedruns::data::integrity::{ForeignKeyField, IntegrityError};
use speedruns::data::models::{AnyModel, AnyModelVec};
use speedruns::data::tables::Tables;
use speedruns::data::types::{
    Category, CategoryType, FieldError, Game, Level, Run, RunPlayer, RunTimesMs, Timestamp,
    TimingMethod, User,
};

fn db_game(id: u64, slug: &str, timing: TimingMethod) -> Game {
    Game {
        id,
        created: Some(Timestamp { secs: 1_300_000_000 + id as i64, nanos: 0 }),
        slug: slug.to_string(),
        src_slug: slug.to_string(),
        name: format!("Game {}", slug),
        primary_timing: timing,
    }
}

fn db_user(id: u64, slug: &str) -> User {
    User { created: None, slug: slug.to_string(), name: slug.to_uppercase(), id }
}

fn db_category(id: u64, game_id: u64, slug: &str) -> Category {
    Category {
        game_id,
        slug: slug.to_string(),
        name: slug.to_string(),
        id,
        per: CategoryType::PerGame,
        rules: String::new(),
    }
}

fn db_level(id: u64, game_id: u64, slug: &str) -> Level {
    Level { game_id, id, slug: slug.to_string(), name: slug.to_string(), rules: String::new() }
}

fn db_run(id: u64, game_id: u64, category_id: u64, level_id: Option<u64>, user: u64) -> Run {
    Run {
        game_id,
        category_id,
        level_id,
        id,
        created: None,
        date: None,
        times_ms: RunTimesMs { igt: Some(1000 * id), rta: Some(2000 * id), rta_nl: None },
        players: vec![RunPlayer::UserId(user), RunPlayer::GuestName("guest".to_string())],
    }
}

/// Two games, two users, three categories, two levels and four runs that
/// agree with each other.
fn sound_tables() -> Tables {
    Tables::new(
        vec![
            db_run(100, 1, 10, None, 50),
            db_run(101, 2, 12, Some(21), 51),
            db_run(102, 1, 11, Some(20), 50),
            db_run(103, 1, 10, None, 51),
        ],
        vec![db_user(50, "ann"), db_user(51, "bob")],
        vec![db_game(1, "wc1", TimingMethod::IGT), db_game(2, "wc2", TimingMethod::RTA)],
        vec![db_category(10, 1, "any"), db_category(11, 1, "all"), db_category(12, 2, "hundred")],
        vec![db_level(20, 1, "orc-1"), db_level(21, 2, "human-1")],
    )
}

fn report_on(tables: Tables) -> Vec<IntegrityError> {
    match Database::new(tables) {
        Ok(_) => panic!("the tables were accepted"),
        Err(report) => report.errors,
    }
}

fn store_of(tables: Tables) -> Database {
    match Database::new(tables) {
        Ok(database) => database,
        Err(report) => panic!("the tables were refused: {:?}", report),
    }
}

#[test]
fn sound_tables_make_a_store() {
    assert!(Database::new(sound_tables()).is_ok());
    assert_eq!(validate(&sound_tables()), Ok(()));
}

#[test]
fn empty_tables_make_a_store() {
    let empty = Tables::new(vec![], vec![], vec![], vec![], vec![]);
    let store = store_of(empty);
    assert!(store.game_by_id(1).is_none());
    assert!(store.game_by_slug("wc1").is_none());
    assert!(store.runs_by_game_id(1).is_none());
}

#[test]
fn a_store_holds_its_tables_unchanged() {
    let store = store_of(sound_tables());
    assert_eq!(*store.tables(), sound_tables());
}

#[test]
fn a_store_finds_records_by_id() {
    let store = store_of(sound_tables());
    assert_eq!(store.game_by_id(2), Some(&db_game(2, "wc2", TimingMethod::RTA)));
    assert_eq!(store.user_by_id(51), Some(&db_user(51, "bob")));
    assert_eq!(store.category_by_id(11), Some(&db_category(11, 1, "all")));
    assert_eq!(store.level_by_id(20), Some(&db_level(20, 1, "orc-1")));
    assert_eq!(store.run_by_id(102), Some(&db_run(102, 1, 11, Some(20), 50)));
    assert_eq!(store.game_by_id(3), None);
    assert_eq!(store.user_by_id(1), None);
    assert_eq!(store.category_by_id(1), None);
    assert_eq!(store.level_by_id(1), None);
    assert_eq!(store.run_by_id(1), None);
}

#[test]
fn a_store_finds_records_by_slug() {
    let store = store_of(sound_tables());
    assert_eq!(store.game_by_slug("wc1"), Some(&db_game(1, "wc1", TimingMethod::IGT)));
    assert_eq!(store.user_by_slug("ann"), Some(&db_user(50, "ann")));
    assert_eq!(store.category_by_slug("hundred"), Some(&db_category(12, 2, "hundred")));
    assert_eq!(store.level_by_slug("human-1"), Some(&db_level(21, 2, "human-1")));
    assert_eq!(store.game_by_slug("wc3"), None);
    assert_eq!(store.user_by_slug("wc1"), None);
    assert_eq!(store.category_by_slug(""), None);
    assert_eq!(store.level_by_slug("orc-2"), None);
}

#[test]
fn a_store_lists_the_records_of_a_game_in_table_order() {
    let store = store_of(sound_tables());
    assert_eq!(
        store.runs_by_game_id(1),
        Some(vec![
            &db_run(100, 1, 10, None, 50),
            &db_run(102, 1, 11, Some(20), 50),
            &db_run(103, 1, 10, None, 51)
        ])
    );
    assert_eq!(store.runs_by_game_id(2), Some(vec![&db_run(101, 2, 12, Some(21), 51)]));
    assert_eq!(
        store.categories_by_game_id(1),
        Some(vec![&db_category(10, 1, "any"), &db_category(11, 1, "all")])
    );
    assert_eq!(store.levels_by_game_id(2), Some(vec![&db_level(21, 2, "human-1")]));
    assert_eq!(store.runs_by_game_id(3), None);
    assert_eq!(store.categories_by_game_id(3), None);
    assert_eq!(store.levels_by_game_id(3), None);
}

#[test]
fn a_game_without_records_has_empty_lists() {
    let mut tables = sound_tables();
    tables.games.push(db_game(3, "wc3", TimingMethod::RTA));
    let store = store_of(tables);
    assert_eq!(store.runs_by_game_id(3), Some(vec![]));
    assert_eq!(store.categories_by_game_id(3), Some(vec![]));
    assert_eq!(store.levels_by_game_id(3), Some(vec![]));
}

#[test]
fn every_key_of_a_store_resolves_within_it() {
    let store = store_of(sound_tables());
    for run in &store.tables().runs {
        assert!(store.game_by_id(run.game_id).is_some());
        assert!(store.category_by_id(run.category_id).is_some());
        if let Some(level_id) = run.level_id {
            assert!(store.level_by_id(level_id).is_some());
        }
        for player in &run.players {
            if let RunPlayer::UserId(user_id) = player {
                assert!(store.user_by_id(*user_id).is_some());
            }
        }
        let game = store.game_by_id(run.game_id).unwrap();
        assert!(run.times_ms.get(&game.primary_timing).is_some());
    }
    for category in &store.tables().categories {
        assert!(store.game_by_id(category.game_id).is_some());
    }
    for level in &store.tables().levels {
        assert!(store.game_by_id(level.game_id).is_some());
    }
}

#[test]
fn an_id_held_twice_is_an_indexing_defect_and_nothing_else_is_reported() {
    let mut tables = sound_tables();
    tables.games.push(db_game(1, "again", TimingMethod::RTA));
    // this run would dangle, but the tables cannot be indexed at all
    tables.runs.push(db_run(104, 9, 10, None, 50));
    assert_eq!(report_on(tables), vec![IntegrityError::IndexingError]);
}

#[test]
fn an_id_held_twice_is_an_indexing_defect_in_every_kind() {
    let mut tables = sound_tables();
    tables.runs.push(db_run(100, 1, 10, None, 50));
    assert_eq!(report_on(tables), vec![IntegrityError::IndexingError]);
    let mut tables = sound_tables();
    tables.users.push(db_user(50, "carl"));
    assert_eq!(report_on(tables), vec![IntegrityError::IndexingError]);
    let mut tables = sound_tables();
    tables.categories.push(db_category(10, 2, "other"));
    assert_eq!(report_on(tables), vec![IntegrityError::IndexingError]);
    let mut tables = sound_tables();
    tables.levels.push(db_level(20, 2, "other"));
    assert_eq!(report_on(tables), vec![IntegrityError::IndexingError]);
}

#[test]
fn the_same_id_in_two_kinds_is_no_defect() {
    let mut tables = sound_tables();
    tables.users.push(db_user(1, "one"));
    tables.levels.push(db_level(1, 1, "one"));
    assert!(Database::new(tables).is_ok());
}

#[test]
fn a_dangling_key_is_reported_against_the_record_that_holds_it() {
    let mut tables = sound_tables();
    let run = db_run(104, 1, 99, None, 50);
    tables.runs.push(run.clone());
    assert_eq!(
        report_on(tables),
        vec![IntegrityError::ForeignKeyMissing {
            target_type: NodeType::Category,
            target_id: 99,
            foreign_key_field: ForeignKeyField::CategoryId,
            source: AnyModel::Run(run),
        }]
    );
}

#[test]
fn every_dangling_key_of_a_run_is_reported() {
    let mut tables = sound_tables();
    let mut run = db_run(104, 7, 8, Some(9), 6);
    run.players.push(RunPlayer::UserId(50));
    run.players.push(RunPlayer::UserId(5));
    tables.runs.push(run.clone());
    assert_eq!(
        report_on(tables),
        vec![
            IntegrityError::ForeignKeyMissing {
                target_type: NodeType::Game,
                target_id: 7,
                foreign_key_field: ForeignKeyField::GameId,
                source: AnyModel::Run(run.clone()),
            },
            IntegrityError::ForeignKeyMissing {
                target_type: NodeType::Category,
                target_id: 8,
                foreign_key_field: ForeignKeyField::CategoryId,
                source: AnyModel::Run(run.clone()),
            },
            IntegrityError::ForeignKeyMissing {
                target_type: NodeType::Level,
                target_id: 9,
                foreign_key_field: ForeignKeyField::LevelId,
                source: AnyModel::Run(run.clone()),
            },
            IntegrityError::ForeignKeyMissing {
                target_type: NodeType::User,
                target_id: 6,
                foreign_key_field: ForeignKeyField::PlayerUserId,
                source: AnyModel::Run(run.clone()),
            },
            IntegrityError::ForeignKeyMissing {
                target_type: NodeType::User,
                target_id: 5,
                foreign_key_field: ForeignKeyField::PlayerUserId,
                source: AnyModel::Run(run),
            },
        ]
    );
}

#[test]
fn dangling_keys_of_categories_and_levels_are_reported() {
    let mut tables = sound_tables();
    tables.categories.push(db_category(13, 8, "lost"));
    tables.levels.push(db_level(22, 9, "lost"));
    assert_eq!(
        report_on(tables),
        vec![
            IntegrityError::ForeignKeyMissing {
                target_type: NodeType::Game,
                target_id: 8,
                foreign_key_field: ForeignKeyField::GameId,
                source: AnyModel::Category(db_category(13, 8, "lost")),
            },
            IntegrityError::ForeignKeyMissing {
                target_type: NodeType::Game,
                target_id: 9,
                foreign_key_field: ForeignKeyField::GameId,
                source: AnyModel::Level(db_level(22, 9, "lost")),
            },
        ]
    );
}

#[test]
fn a_field_defect_is_reported_with_all_defects_of_the_record() {
    let mut tables = sound_tables();
    let mut user = db_user(52, "");
    user.name = String::new();
    tables.users.push(user.clone());
    assert_eq!(
        report_on(tables),
        vec![IntegrityError::CheckFailed {
            errors: vec![FieldError::EmptySlug, FieldError::EmptyName],
            source: AnyModel::User(user),
        }]
    );
}

#[test]
fn field_defects_are_reported_kind_by_kind() {
    let mut tables = sound_tables();
    let mut level = db_level(22, 1, "x");
    level.name = String::new();
    let mut game = db_game(3, "y", TimingMethod::IGT);
    game.src_slug = String::new();
    let mut run = db_run(104, 1, 10, None, 50);
    run.times_ms = RunTimesMs { igt: None, rta: None, rta_nl: None };
    tables.levels.push(level.clone());
    tables.games.push(game.clone());
    tables.runs.push(run.clone());
    let report = report_on(tables);
    assert_eq!(
        report[..3],
        [
            IntegrityError::CheckFailed {
                errors: vec![FieldError::AllTimesNone],
                source: AnyModel::Run(run.clone()),
            },
            IntegrityError::CheckFailed {
                errors: vec![FieldError::EmptySrcSlug],
                source: AnyModel::Game(game),
            },
            IntegrityError::CheckFailed {
                errors: vec![FieldError::EmptyName],
                source: AnyModel::Level(level),
            },
        ]
    );
    // the run without times also lacks its game's primary timing
    assert_eq!(report[3..], [IntegrityError::MissingPrimaryTiming(run)]);
}

#[test]
fn a_shared_slug_is_reported_with_all_records_that_share_it() {
    let mut tables = sound_tables();
    tables.games.push(db_game(3, "wc1", TimingMethod::IGT));
    tables.games.push(db_game(4, "wc4", TimingMethod::IGT));
    tables.games.push(db_game(5, "wc1", TimingMethod::RTA));
    assert_eq!(
        report_on(tables),
        vec![IntegrityError::NonUniqueSlug {
            target_type: NodeType::Game,
            slug: "wc1".to_string(),
            sources: AnyModelVec::Games(vec![
                db_game(1, "wc1", TimingMethod::IGT),
                db_game(3, "wc1", TimingMethod::IGT),
                db_game(5, "wc1", TimingMethod::RTA),
            ]),
        }]
    );
}

#[test]
fn shared_slugs_are_reported_kind_by_kind_in_the_order_of_their_first_record() {
    let mut tables = sound_tables();
    tables.levels.push(db_level(22, 1, "human-1"));
    tables.categories.push(db_category(13, 2, "all"));
    tables.categories.push(db_category(14, 2, "any"));
    tables.users.push(db_user(52, "bob"));
    assert_eq!(
        report_on(tables),
        vec![
            IntegrityError::NonUniqueSlug {
                target_type: NodeType::User,
                slug: "bob".to_string(),
                sources: AnyModelVec::Users(vec![db_user(51, "bob"), db_user(52, "bob")]),
            },
            IntegrityError::NonUniqueSlug {
                target_type: NodeType::Category,
                slug: "any".to_string(),
                sources: AnyModelVec::Categories(vec![
                    db_category(10, 1, "any"),
                    db_category(14, 2, "any")
                ]),
            },
            IntegrityError::NonUniqueSlug {
                target_type: NodeType::Category,
                slug: "all".to_string(),
                sources: AnyModelVec::Categories(vec![
                    db_category(11, 1, "all"),
                    db_category(13, 2, "all")
                ]),
            },
            IntegrityError::NonUniqueSlug {
                target_type: NodeType::Level,
                slug: "human-1".to_string(),
                sources: AnyModelVec::Levels(vec![
                    db_level(21, 2, "human-1"),
                    db_level(22, 1, "human-1")
                ]),
            },
        ]
    );
}

#[test]
fn the_same_slug_in_two_kinds_is_no_collision() {
    let mut tables = sound_tables();
    tables.users.push(db_user(52, "wc1"));
    tables.levels.push(db_level(22, 1, "any"));
    assert!(Database::new(tables).is_ok());
}

#[test]
fn a_run_without_its_games_primary_timing_is_reported() {
    let mut tables = sound_tables();
    // game 2 is timed by RTA
    let mut run = db_run(104, 2, 12, None, 50);
    run.times_ms = RunTimesMs { igt: Some(5), rta: None, rta_nl: Some(6) };
    tables.runs.push(run.clone());
    assert_eq!(report_on(tables), vec![IntegrityError::MissingPrimaryTiming(run)]);
}

#[test]
fn a_run_of_an_unknown_game_is_not_reported_for_its_timing() {
    let mut tables = sound_tables();
    let mut run = db_run(104, 9, 12, None, 50);
    run.times_ms = RunTimesMs { igt: None, rta: None, rta_nl: Some(6) };
    tables.runs.push(run.clone());
    assert_eq!(
        report_on(tables),
        vec![IntegrityError::ForeignKeyMissing {
            target_type: NodeType::Game,
            target_id: 9,
            foreign_key_field: ForeignKeyField::GameId,
            source: AnyModel::Run(run),
        }]
    );
}

#[test]
fn the_report_lists_keys_then_slugs_then_timings() {
    let mut tables = sound_tables();
    let mut untimed = db_run(104, 1, 10, None, 50);
    untimed.times_ms = RunTimesMs { igt: None, rta: Some(1), rta_nl: None };
    tables.runs.insert(0, untimed.clone());
    tables.users.push(db_user(52, "ann"));
    tables.levels.push(db_level(22, 9, "lost"));
    assert_eq!(
        report_on(tables),
        vec![
            IntegrityError::ForeignKeyMissing {
                target_type: NodeType::Game,
                target_id: 9,
                foreign_key_field: ForeignKeyField::GameId,
                source: AnyModel::Level(db_level(22, 9, "lost")),
            },
            IntegrityError::NonUniqueSlug {
                target_type: NodeType::User,
                slug: "ann".to_string(),
                sources: AnyModelVec::Users(vec![db_user(50, "ann"), db_user(52, "ann")]),
            },
            IntegrityError::MissingPrimaryTiming(untimed),
        ]
    );
}

#[test]
fn checking_reports_what_building_reports() {
    let mut tables = sound_tables();
    tables.runs.push(db_run(104, 1, 99, None, 50));
    tables.users.push(db_user(52, "ann"));
    let checked = match validate(&tables) {
        Ok(()) => panic!("the tables were accepted"),
        Err(report) => report.errors,
    };
    assert_eq!(checked, report_on(tables));
}

#[test]
fn reports_know_whether_pruning_can_mend_them() {
    let mut tables = sound_tables();
    tables.runs.push(db_run(104, 1, 99, None, 50));
    let mendable = validate(&tables).unwrap_err();
    assert!(!mendable.is_fatal());
    assert!(!mendable.errors[0].is_fatal());
    tables.games.push(db_game(1, "again", TimingMethod::RTA));
    let fatal = validate(&tables).unwrap_err();
    assert!(fatal.is_fatal());
    assert!(IntegrityError::IndexingError.is_fatal());
    let mut tables = sound_tables();
    tables.users.push(db_user(0, "zero"));
    assert!(validate(&tables).unwrap_err().is_fatal());
}
