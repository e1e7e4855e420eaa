use speedruns::data::database::{validate, Database};
use speedruns::data::integrity::IntegrityError;
use speedruns::data::models::{AnyModel, AnyModelVec};
use speedruns::data::tables::Tables;
use speedruns::data::types::{
    Category, CategoryType, Game, Level, Run, RunPlayer, RunTimesMs, Timestamp, TimingMethod, User,
};
use speedruns::precedence::{find_survivor, PrecedenceKey};
use speedruns::reconcile::{cycle, reconcile, Cycle, DeadIds, Tally};

const YEAR_2012: i64 = 1_325_376_000;
const YEAR_2014: i64 = 1_388_534_400;

fn rc_game(id: u64, slug: &str, name: &str, created: Option<i64>, timing: TimingMethod) -> Game {
    Game {
        id,
        created: created.map(|secs| Timestamp { secs, nanos: 0 }),
        slug: slug.to_string(),
        src_slug: slug.to_string(),
        name: name.to_string(),
        primary_timing: timing,
    }
}

fn rc_user(id: u64, slug: &str, name: &str, created: Option<i64>) -> User {
    User {
        created: created.map(|secs| Timestamp { secs, nanos: 0 }),
        slug: slug.to_string(),
        name: name.to_string(),
        id,
    }
}

fn rc_category(id: u64, game_id: u64, slug: &str, name: &str) -> Category {
    Category {
        game_id,
        slug: slug.to_string(),
        name: name.to_string(),
        id,
        per: CategoryType::PerGame,
        rules: String::new(),
    }
}

fn rc_level(id: u64, game_id: u64, slug: &str, name: &str) -> Level {
    Level { game_id, id, slug: slug.to_string(), name: name.to_string(), rules: String::new() }
}

fn rc_run(id: u64, game_id: u64, category_id: u64, times_ms: RunTimesMs) -> Run {
    Run {
        game_id,
        category_id,
        level_id: None,
        id,
        created: None,
        date: None,
        times_ms,
        players: vec![RunPlayer::GuestName("guest".to_string())],
    }
}

fn rta(ms: u64) -> RunTimesMs {
    RunTimesMs { igt: None, rta: Some(ms), rta_nl: None }
}

fn igt(ms: u64) -> RunTimesMs {
    RunTimesMs { igt: Some(ms), rta: None, rta_nl: None }
}

fn ids_of_games(tables: &Tables) -> Vec<u64> {
    tables.games.iter().map(|game| game.id).collect()
}

fn ids_of_runs(tables: &Tables) -> Vec<u64> {
    tables.runs.iter().map(|run| run.id).collect()
}

fn total(tables: &Tables) -> usize {
    tables.runs.len()
        + tables.users.len()
        + tables.games.len()
        + tables.categories.len()
        + tables.levels.len()
}

fn pruned_by(outcome: Result<Cycle, speedruns::data::integrity::IntegrityErrors>) -> speedruns::reconcile::Discarded {
    match outcome {
        Ok(Cycle::Pruned(discarded)) => discarded,
        Ok(Cycle::Done(_)) => panic!("the cycle found nothing to prune"),
        Err(report) => panic!("the cycle halted: {:?}", report),
    }
}

/// A raw dataset with several things wrong at once.
fn raw_tables() -> Tables {
    Tables::new(
        vec![
            rc_run(100, 1, 10, rta(5)),
            rc_run(101, 1, 99, rta(6)),
            rc_run(102, 1, 10, igt(7)),
            rc_run(103, 2, 11, rta(8)),
            rc_run(104, 3, 10, rta(9)),
        ],
        vec![
            rc_user(50, "ann", "Ann", Some(YEAR_2014)),
            rc_user(51, "ann", "Ann", Some(YEAR_2012)),
        ],
        vec![
            rc_game(1, "doom", "Doom (2016)", Some(YEAR_2014), TimingMethod::RTA),
            rc_game(2, "doom", "Doom", Some(YEAR_2012), TimingMethod::RTA),
        ],
        vec![rc_category(10, 1, "any", "Any%"), rc_category(11, 2, "any", "Any")],
        vec![rc_level(20, 1, "e1m1", "Hangar"), rc_level(21, 9, "e1m2", "Nuclear Plant")],
    )
}

#[test]
fn of_two_games_that_share_a_slug_the_older_one_survives() {
    let mut tables = Tables::new(
        vec![],
        vec![],
        vec![
            rc_game(1, "doom", "Doom (2016)", Some(YEAR_2014), TimingMethod::RTA),
            rc_game(2, "doom", "Doom", Some(YEAR_2012), TimingMethod::RTA),
        ],
        vec![],
        vec![],
    );
    let discarded = pruned_by(cycle(&mut tables));
    assert_eq!(
        tables.games,
        vec![rc_game(2, "doom", "Doom", Some(YEAR_2012), TimingMethod::RTA)]
    );
    assert_eq!(discarded.games, Tally { discarded: 1, total: 2 });
    assert!(matches!(cycle(&mut tables), Ok(Cycle::Done(_))));
}

#[test]
fn a_run_with_an_unknown_category_is_removed_and_nothing_else() {
    let mut tables = Tables::new(
        vec![rc_run(100, 1, 10, rta(5)), rc_run(101, 1, 99, rta(6)), rc_run(102, 1, 10, rta(7))],
        vec![rc_user(50, "ann", "Ann", None)],
        vec![rc_game(1, "doom", "Doom", None, TimingMethod::RTA)],
        vec![rc_category(10, 1, "any", "Any%")],
        vec![rc_level(20, 1, "e1m1", "Hangar")],
    );
    let before = tables.clone();
    let discarded = pruned_by(cycle(&mut tables));
    assert_eq!(tables.runs, vec![rc_run(100, 1, 10, rta(5)), rc_run(102, 1, 10, rta(7))]);
    assert_eq!(tables.users, before.users);
    assert_eq!(tables.games, before.games);
    assert_eq!(tables.categories, before.categories);
    assert_eq!(tables.levels, before.levels);
    assert_eq!(discarded.runs, Tally { discarded: 1, total: 3 });
    assert_eq!(discarded.users, Tally { discarded: 0, total: 1 });
    assert_eq!(discarded.games, Tally { discarded: 0, total: 1 });
    assert_eq!(discarded.categories, Tally { discarded: 0, total: 1 });
    assert_eq!(discarded.levels, Tally { discarded: 0, total: 1 });
}

#[test]
fn a_run_without_the_primary_timing_is_removed_and_its_sibling_survives() {
    let mut tables = Tables::new(
        vec![rc_run(100, 1, 10, igt(5)), rc_run(101, 1, 10, rta(6))],
        vec![],
        vec![rc_game(1, "doom", "Doom", None, TimingMethod::RTA)],
        vec![rc_category(10, 1, "any", "Any%")],
        vec![],
    );
    pruned_by(cycle(&mut tables));
    assert_eq!(tables.runs, vec![rc_run(101, 1, 10, rta(6))]);
    assert_eq!(tables.games.len(), 1);
    assert_eq!(tables.categories.len(), 1);
}

#[test]
fn consistent_tables_are_left_alone() {
    let sound = Tables::new(
        vec![rc_run(100, 1, 10, rta(5))],
        vec![rc_user(50, "ann", "Ann", None)],
        vec![rc_game(1, "doom", "Doom", None, TimingMethod::RTA)],
        vec![rc_category(10, 1, "any", "Any%")],
        vec![],
    );
    let mut tables = sound.clone();
    match cycle(&mut tables) {
        Ok(Cycle::Done(store)) => assert_eq!(*store.tables(), sound),
        _ => panic!("the cycle did not end the loop"),
    }
    assert_eq!(tables, sound);
    let done = reconcile(&mut tables);
    let store = match done.outcome {
        Ok(store) => store,
        Err(report) => panic!("the loop halted: {:?}", report),
    };
    assert_eq!(done.discarded, vec![]);
    assert_eq!(tables, sound);
    assert_eq!(*store.tables(), sound);
}

#[test]
fn the_loop_prunes_until_the_tables_are_consistent() {
    let mut tables = raw_tables();
    let done = reconcile(&mut tables);
    let store = match done.outcome {
        Ok(store) => store,
        Err(report) => panic!("the loop halted: {:?}", report),
    };
    assert_eq!(done.discarded.len(), 2);
    assert_eq!(done.discarded[0].runs, Tally { discarded: 3, total: 5 });
    assert_eq!(done.discarded[0].games, Tally { discarded: 1, total: 2 });
    assert_eq!(done.discarded[1].runs, Tally { discarded: 1, total: 2 });
    assert_eq!(done.discarded[1].games, Tally { discarded: 0, total: 1 });
    assert_eq!(done.discarded[1].levels, Tally { discarded: 1, total: 1 });
    assert_eq!(validate(&tables), Ok(()));
    assert_eq!(*store.tables(), tables);
    // game 1 lost its slug to the older game 2, and its level and the run
    // in its category went with it in the next cycle
    assert_eq!(ids_of_games(&tables), vec![2]);
    assert_eq!(ids_of_runs(&tables), vec![103]);
    assert_eq!(tables.users, vec![rc_user(51, "ann", "Ann", Some(YEAR_2012))]);
    assert_eq!(tables.categories, vec![rc_category(11, 2, "any", "Any")]);
    assert_eq!(tables.levels, vec![]);
}

#[test]
fn the_loop_gives_the_same_result_every_time() {
    let mut first = raw_tables();
    let mut second = raw_tables();
    let first_done = reconcile(&mut first);
    let second_done = reconcile(&mut second);
    let first_store = first_done.outcome.ok().expect("the loop halted");
    let second_store = second_done.outcome.ok().expect("the loop halted");
    assert_eq!(first, second);
    assert_eq!(*first_store.tables(), *second_store.tables());
    assert_eq!(first_done.discarded, second_done.discarded);
    // and leaves its own result alone
    let mut again = first.clone();
    let again_done = reconcile(&mut again);
    assert!(again_done.outcome.is_ok());
    assert_eq!(again_done.discarded.len(), 0);
    assert_eq!(again, first);
}

#[test]
fn every_cycle_that_prunes_takes_at_least_one_record() {
    let mut tables = raw_tables();
    let mut cycles = 0;
    loop {
        let before = total(&tables);
        match cycle(&mut tables) {
            Ok(Cycle::Done(_)) => {
                assert_eq!(total(&tables), before);
                break;
            }
            Ok(Cycle::Pruned(discarded)) => {
                let taken = discarded.runs.discarded
                    + discarded.users.discarded
                    + discarded.games.discarded
                    + discarded.categories.discarded
                    + discarded.levels.discarded;
                assert!(taken >= 1);
                assert_eq!(total(&tables), before - taken);
            }
            Err(report) => panic!("the loop halted: {:?}", report),
        }
        cycles += 1;
        assert!(cycles <= 11);
    }
    assert_eq!(cycles, 2);
}

#[test]
fn one_cycle_discards_for_every_violation_at_once() {
    let mut tables = raw_tables();
    let discarded = pruned_by(cycle(&mut tables));
    // run 101 has no category, run 102 no time under its game's timing,
    // run 104 no game; game 1 and user 50 lose their slugs; category 10
    // and 11 share one; level 21 has no game
    assert_eq!(ids_of_runs(&tables), vec![100, 103]);
    assert_eq!(ids_of_games(&tables), vec![2]);
    assert_eq!(tables.users, vec![rc_user(51, "ann", "Ann", Some(YEAR_2012))]);
    assert_eq!(tables.categories, vec![rc_category(11, 2, "any", "Any")]);
    assert_eq!(tables.levels, vec![rc_level(20, 1, "e1m1", "Hangar")]);
    assert_eq!(discarded.runs, Tally { discarded: 3, total: 5 });
    assert_eq!(discarded.users, Tally { discarded: 1, total: 2 });
    assert_eq!(discarded.games, Tally { discarded: 1, total: 2 });
    assert_eq!(discarded.categories, Tally { discarded: 1, total: 2 });
    assert_eq!(discarded.levels, Tally { discarded: 1, total: 2 });
}

#[test]
fn an_indexing_defect_halts_the_loop_and_changes_nothing() {
    let mut tables = raw_tables();
    tables.games.push(rc_game(1, "other", "Other", None, TimingMethod::RTA));
    let before = tables.clone();
    match cycle(&mut tables) {
        Err(report) => assert_eq!(report.errors, vec![IntegrityError::IndexingError]),
        _ => panic!("the cycle did not halt"),
    }
    assert_eq!(tables, before);
    let done = reconcile(&mut tables);
    match done.outcome {
        Err(report) => assert_eq!(report.errors, vec![IntegrityError::IndexingError]),
        Ok(_) => panic!("the loop did not halt"),
    }
    assert_eq!(done.discarded.len(), 0);
    assert_eq!(tables, before);
}

#[test]
fn a_field_defect_halts_the_loop_and_changes_nothing() {
    let mut tables = raw_tables();
    tables.users.push(rc_user(52, "", "Nobody", None));
    let before = tables.clone();
    match reconcile(&mut tables).outcome {
        Err(report) => {
            assert!(report.is_fatal());
            assert!(matches!(report.errors[0], IntegrityError::CheckFailed { .. }));
        }
        Ok(_) => panic!("the loop did not halt"),
    }
    assert_eq!(tables, before);
}

#[test]
fn a_field_defect_halts_the_loop_before_anything_is_pruned() {
    let mut tables = Tables::new(
        vec![rc_run(100, 9, 10, rta(5))],
        vec![rc_user(50, "ann", "", None)],
        vec![],
        vec![],
        vec![],
    );
    assert!(reconcile(&mut tables).outcome.is_err());
    assert_eq!(tables.runs.len(), 1);
}

#[test]
fn the_loop_may_end_with_nothing_left() {
    let mut tables = Tables::new(
        vec![rc_run(100, 1, 10, rta(5))],
        vec![],
        vec![],
        vec![rc_category(10, 1, "any", "Any%")],
        vec![rc_level(20, 1, "e1m1", "Hangar")],
    );
    let done = reconcile(&mut tables);
    assert!(done.outcome.is_ok());
    // the run first, for its game; then nothing is left to lose
    assert_eq!(done.discarded.len(), 1);
    assert_eq!(tables, Tables::new(vec![], vec![], vec![], vec![], vec![]));
}

fn survivor_of_games(games: &[Game]) -> u64 {
    let keys: Vec<PrecedenceKey> = games.iter().map(|game| game.precedence_key()).collect();
    games[find_survivor(&keys)].id
}

#[test]
fn the_earliest_creation_time_wins_and_no_time_is_earliest() {
    let late = rc_game(1, "s", "A", Some(YEAR_2014), TimingMethod::RTA);
    let early = rc_game(2, "s", "Zzzzzz", Some(YEAR_2012), TimingMethod::RTA);
    let timeless = rc_game(3, "s", "Zzzzzzzzz", None, TimingMethod::RTA);
    assert_eq!(survivor_of_games(&[late.clone(), early.clone()]), 2);
    assert_eq!(survivor_of_games(&[early.clone(), late.clone()]), 2);
    assert_eq!(survivor_of_games(&[late, early, timeless]), 3);
}

#[test]
fn nanoseconds_decide_between_equal_seconds() {
    let mut first = rc_game(1, "s", "A", Some(YEAR_2012), TimingMethod::RTA);
    let mut second = rc_game(2, "s", "A", Some(YEAR_2012), TimingMethod::RTA);
    first.created = Some(Timestamp { secs: YEAR_2012, nanos: 7 });
    second.created = Some(Timestamp { secs: YEAR_2012, nanos: 6 });
    assert_eq!(survivor_of_games(&[first, second]), 2);
    let before_epoch = rc_game(3, "s", "A", Some(-5), TimingMethod::RTA);
    let after_epoch = rc_game(4, "s", "A", Some(5), TimingMethod::RTA);
    assert_eq!(survivor_of_games(&[after_epoch, before_epoch]), 3);
}

#[test]
fn then_the_shortest_slug_then_the_shortest_name_then_the_name_then_the_id() {
    let long_slug = rc_game(1, "sluggish", "A", None, TimingMethod::RTA);
    let short_slug = rc_game(2, "slug", "Zzzz", None, TimingMethod::RTA);
    assert_eq!(survivor_of_games(&[long_slug, short_slug]), 2);
    let long_name = rc_game(1, "s", "Aaaa", None, TimingMethod::RTA);
    let short_name = rc_game(2, "s", "Zz", None, TimingMethod::RTA);
    assert_eq!(survivor_of_games(&[long_name, short_name]), 2);
    let later_name = rc_game(1, "s", "Doon", None, TimingMethod::RTA);
    let earlier_name = rc_game(2, "s", "Doom", None, TimingMethod::RTA);
    assert_eq!(survivor_of_games(&[later_name, earlier_name]), 2);
    let higher_id = rc_game(9, "s", "Doom", None, TimingMethod::RTA);
    let lower_id = rc_game(8, "s", "Doom", None, TimingMethod::RTA);
    assert_eq!(survivor_of_games(&[higher_id, lower_id]), 8);
}

#[test]
fn lengths_are_counted_in_bytes_and_names_go_by_code_point() {
    // two characters of two bytes each are longer than three of one
    let accented = rc_game(1, "s", "\u{e9}\u{e9}", None, TimingMethod::RTA);
    let plain = rc_game(2, "s", "eee", None, TimingMethod::RTA);
    assert_eq!(survivor_of_games(&[accented, plain]), 2);
    // upper case comes before lower case
    let lower = rc_game(1, "s", "doom", None, TimingMethod::RTA);
    let upper = rc_game(2, "s", "Doom", None, TimingMethod::RTA);
    assert_eq!(survivor_of_games(&[lower, upper]), 2);
}

#[test]
fn of_equal_keys_the_first_stays() {
    let keys: Vec<PrecedenceKey> = vec![
        (None, 1, 1, "b", 5),
        (None, 1, 1, "a", 5),
        (None, 1, 1, "a", 5),
    ];
    assert_eq!(find_survivor(&keys), 1);
    let single: Vec<PrecedenceKey> = vec![(Some((1, 2)), 3, 4, "name", 5)];
    assert_eq!(find_survivor(&single), 0);
}

#[test]
fn users_go_by_creation_time_then_name_and_categories_and_levels_by_name() {
    let mut tables = Tables::new(
        vec![],
        vec![
            rc_user(50, "ann", "Ann B.", Some(YEAR_2012)),
            rc_user(51, "ann", "Ann", Some(YEAR_2014)),
            rc_user(52, "ann", "Ann", Some(YEAR_2012)),
        ],
        vec![rc_game(1, "doom", "Doom", None, TimingMethod::RTA)],
        vec![
            rc_category(10, 1, "any", "Any%"),
            rc_category(11, 1, "any", "Any"),
            rc_category(12, 1, "any", "Ant"),
        ],
        vec![rc_level(21, 1, "e1", "Hangar"), rc_level(20, 1, "e1", "Hangar")],
    );
    pruned_by(cycle(&mut tables));
    assert_eq!(tables.users, vec![rc_user(52, "ann", "Ann", Some(YEAR_2012))]);
    assert_eq!(tables.categories, vec![rc_category(12, 1, "any", "Ant")]);
    assert_eq!(tables.levels, vec![rc_level(20, 1, "e1", "Hangar")]);
}

#[test]
fn keys_are_made_of_the_fields_that_decide() {
    let game = rc_game(7, "doom", "Do\u{f6}m", Some(YEAR_2012), TimingMethod::RTA);
    assert_eq!(game.precedence_key(), (Some((YEAR_2012, 0)), 4, 5, "Do\u{f6}m", 7));
    let user = rc_user(8, "ann", "Ann", None);
    assert_eq!(user.precedence_key(), (None, 3, 3, "Ann", 8));
    let category = rc_category(9, 1, "any", "Any%");
    assert_eq!(category.precedence_key(), (None, 0, 4, "Any%", 9));
    let level = rc_level(10, 1, "e1m1", "Hangar");
    assert_eq!(level.precedence_key(), (None, 0, 6, "Hangar", 10));
}

#[test]
fn violations_mark_their_sources_dead() {
    let mut dead = DeadIds::new();
    dead.mark(&IntegrityError::MissingPrimaryTiming(rc_run(100, 1, 10, igt(1))));
    dead.mark(&IntegrityError::ForeignKeyMissing {
        target_type: speedruns::data::graphql::global_id::NodeType::Game,
        target_id: 9,
        foreign_key_field: speedruns::data::integrity::ForeignKeyField::GameId,
        source: AnyModel::Level(rc_level(20, 9, "e1m1", "Hangar")),
    });
    dead.mark(&IntegrityError::NonUniqueSlug {
        target_type: speedruns::data::graphql::global_id::NodeType::User,
        slug: "ann".to_string(),
        sources: AnyModelVec::Users(vec![
            rc_user(50, "ann", "Ann", Some(YEAR_2014)),
            rc_user(51, "ann", "Ann", Some(YEAR_2012)),
            rc_user(52, "ann", "Anna", Some(YEAR_2012)),
        ]),
    });
    dead.mark(&IntegrityError::IndexingError);
    dead.mark(&IntegrityError::CheckFailed {
        errors: vec![],
        source: AnyModel::Game(rc_game(1, "doom", "Doom", None, TimingMethod::RTA)),
    });
    dead.mark(&IntegrityError::NonUniqueSlug {
        target_type: speedruns::data::graphql::global_id::NodeType::Run,
        slug: String::new(),
        sources: AnyModelVec::Runs(vec![rc_run(101, 1, 10, igt(1)), rc_run(102, 1, 10, igt(1))]),
    });
    assert_eq!(dead.runs, [100].iter().cloned().collect());
    assert_eq!(dead.levels, [20].iter().cloned().collect());
    assert_eq!(dead.users, [50, 52].iter().cloned().collect());
    assert!(dead.games.is_empty());
    assert!(dead.categories.is_empty());
}

#[test]
fn pruning_drops_the_dead_and_keeps_the_order_of_the_rest() {
    let mut tables = raw_tables();
    let mut dead = DeadIds::new();
    dead.runs.insert(100);
    dead.runs.insert(103);
    dead.runs.insert(777);
    dead.games.insert(100);
    dead.levels.insert(20);
    tables.prune(&dead);
    assert_eq!(ids_of_runs(&tables), vec![101, 102, 104]);
    assert_eq!(ids_of_games(&tables), vec![1, 2]);
    assert_eq!(tables.levels, vec![rc_level(21, 9, "e1m2", "Nuclear Plant")]);
    assert_eq!(tables.users.len(), 2);
    assert_eq!(tables.categories.len(), 2);
}

#[test]
fn a_report_marks_all_its_dead_at_once() {
    let report = validate(&raw_tables()).unwrap_err();
    let dead = DeadIds::of_report(&report.errors);
    assert_eq!(dead.runs, [101, 102, 104].iter().cloned().collect());
    assert_eq!(dead.users, [50].iter().cloned().collect());
    assert_eq!(dead.games, [1].iter().cloned().collect());
    assert_eq!(dead.categories, [10].iter().cloned().collect());
    assert_eq!(dead.levels, [21].iter().cloned().collect());
}

#[test]
fn shares_are_whole_percents_rounded_down() {
    assert_eq!(Tally { discarded: 0, total: 0 }.percent(), 0);
    assert_eq!(Tally { discarded: 0, total: 7 }.percent(), 0);
    assert_eq!(Tally { discarded: 1, total: 3 }.percent(), 33);
    assert_eq!(Tally { discarded: 2, total: 3 }.percent(), 66);
    assert_eq!(Tally { discarded: 3, total: 3 }.percent(), 100);
    assert_eq!(Tally { discarded: 1, total: 200 }.percent(), 0);
    assert_eq!(Tally { discarded: usize::MAX, total: usize::MAX }.percent(), 100);
    assert_eq!(Tally { discarded: usize::MAX / 2, total: usize::MAX }.percent(), 49);
}

#[test]
fn the_store_of_the_loop_answers_lookups() {
    let mut tables = raw_tables();
    let store: Database = reconcile(&mut tables).outcome.ok().expect("the loop halted");
    assert_eq!(store.game_by_slug("doom").map(|game| game.id), Some(2));
    assert_eq!(store.runs_by_game_id(2).map(|runs| runs.len()), Some(1));
    assert!(store.game_by_id(1).is_none());
}

#[test]
fn no_more_cycles_prune_than_there_are_records() {
    // a chain: every cycle uncovers the next dangling key
    let mut tables = Tables::new(
        vec![rc_run(100, 1, 10, rta(5))],
        vec![],
        vec![
            rc_game(1, "doom", "Doom (2016)", Some(YEAR_2014), TimingMethod::RTA),
            rc_game(2, "doom", "Doom", Some(YEAR_2012), TimingMethod::RTA),
        ],
        vec![rc_category(10, 1, "any", "Any%")],
        vec![],
    );
    let records = total(&tables);
    let done = reconcile(&mut tables);
    assert!(done.outcome.is_ok());
    assert_eq!(done.discarded.len(), 2);
    assert!(done.discarded.len() <= records);
    assert_eq!(ids_of_games(&tables), vec![2]);
    assert_eq!(total(&tables), 1);
}
