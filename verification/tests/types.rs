use speedruns::data::types::{
    Category, CategoryType, Date, FieldError, Game, Level, Run, RunPlayer, RunTimesMs, Timestamp,
    TimingMethod, User,
};
use speedruns::utils::{base36, slugify, src_slugify, u64_from_base36};

fn sample_category() -> Category {
    Category {
        game_id: 7,
        slug: "any".to_string(),
        name: "Any%".to_string(),
        id: 36,
        per: CategoryType::PerGame,
        rules: "Reach the credits.".to_string(),
    }
}

fn sample_user() -> User {
    User {
        created: Some(Timestamp { secs: 1_400_000_000, nanos: 5 }),
        slug: "bjw".to_string(),
        name: "Bjw".to_string(),
        id: 1295,
    }
}

fn sample_game() -> Game {
    Game {
        id: 1296,
        created: None,
        slug: "wc2".to_string(),
        src_slug: "wc2".to_string(),
        name: "Warcraft II".to_string(),
        primary_timing: TimingMethod::RTA,
    }
}

fn sample_level() -> Level {
    Level {
        game_id: 1296,
        id: 123_456_789,
        slug: "orc-1".to_string(),
        name: "Orc 1: Zul'dare".to_string(),
        rules: String::new(),
    }
}

fn sample_run() -> Run {
    Run {
        game_id: 1296,
        category_id: 36,
        level_id: Some(123_456_789),
        id: 35,
        created: Some(Timestamp { secs: 1_500_000_000, nanos: 0 }),
        date: Some(Date { days_from_ce: 736_000 }),
        times_ms: RunTimesMs { igt: None, rta: Some(61_000), rta_nl: None },
        players: vec![RunPlayer::UserId(1295), RunPlayer::GuestName("guest".to_string())],
    }
}

#[test]
fn a_time_is_found_under_its_timing_method() {
    let times = RunTimesMs { igt: Some(1), rta: Some(2), rta_nl: Some(3) };
    assert_eq!(times.get(&TimingMethod::IGT), Some(1));
    assert_eq!(times.get(&TimingMethod::RTA), Some(2));
    assert_eq!(times.get(&TimingMethod::RTA_NL), Some(3));
    let only_igt = RunTimesMs { igt: Some(9), rta: None, rta_nl: None };
    assert_eq!(only_igt.get(&TimingMethod::IGT), Some(9));
    assert_eq!(only_igt.get(&TimingMethod::RTA), None);
    assert_eq!(only_igt.get(&TimingMethod::RTA_NL), None);
}

#[test]
fn times_need_at_least_one_value() {
    let none = RunTimesMs { igt: None, rta: None, rta_nl: None };
    assert_eq!(none.validate(), Err(vec![FieldError::AllTimesNone]));
    assert_eq!(RunTimesMs { igt: Some(0), rta: None, rta_nl: None }.validate(), Ok(()));
    assert_eq!(RunTimesMs { igt: None, rta: Some(0), rta_nl: None }.validate(), Ok(()));
    assert_eq!(RunTimesMs { igt: None, rta: None, rta_nl: Some(0) }.validate(), Ok(()));
}

#[test]
fn a_guest_needs_a_name_and_a_user_an_id() {
    assert_eq!(RunPlayer::GuestName(String::new()).validate(), Err(vec![FieldError::EmptyGuestName]));
    assert_eq!(RunPlayer::GuestName("x".to_string()).validate(), Ok(()));
    assert_eq!(RunPlayer::UserId(0).validate(), Err(vec![FieldError::ZeroUserId]));
    assert_eq!(RunPlayer::UserId(1).validate(), Ok(()));
}

#[test]
fn sound_records_pass_their_field_checks() {
    assert_eq!(sample_category().validate(), Ok(()));
    assert_eq!(sample_user().validate(), Ok(()));
    assert_eq!(sample_game().validate(), Ok(()));
    assert_eq!(sample_level().validate(), Ok(()));
    assert_eq!(sample_run().validate(), Ok(()));
}

#[test]
fn a_category_lists_its_defects_in_field_order() {
    let mut category = sample_category();
    category.slug = String::new();
    assert_eq!(category.validate(), Err(vec![FieldError::EmptySlug]));
    category.name = String::new();
    category.game_id = 0;
    category.id = 0;
    assert_eq!(
        category.validate(),
        Err(vec![
            FieldError::ZeroGameId,
            FieldError::EmptySlug,
            FieldError::EmptyName,
            FieldError::ZeroId
        ])
    );
}

#[test]
fn a_user_lists_its_defects_in_field_order() {
    let mut user = sample_user();
    user.name = String::new();
    assert_eq!(user.validate(), Err(vec![FieldError::EmptyName]));
    user.slug = String::new();
    user.id = 0;
    assert_eq!(
        user.validate(),
        Err(vec![FieldError::EmptySlug, FieldError::EmptyName, FieldError::ZeroId])
    );
}

#[test]
fn a_game_lists_its_defects_in_field_order() {
    let mut game = sample_game();
    game.src_slug = String::new();
    assert_eq!(game.validate(), Err(vec![FieldError::EmptySrcSlug]));
    game.id = 0;
    game.slug = String::new();
    game.name = String::new();
    assert_eq!(
        game.validate(),
        Err(vec![
            FieldError::ZeroId,
            FieldError::EmptySlug,
            FieldError::EmptySrcSlug,
            FieldError::EmptyName
        ])
    );
}

#[test]
fn a_level_lists_its_defects_in_field_order() {
    let mut level = sample_level();
    level.game_id = 0;
    assert_eq!(level.validate(), Err(vec![FieldError::ZeroGameId]));
    level.id = 0;
    level.slug = String::new();
    level.name = String::new();
    assert_eq!(
        level.validate(),
        Err(vec![
            FieldError::ZeroGameId,
            FieldError::ZeroId,
            FieldError::EmptySlug,
            FieldError::EmptyName
        ])
    );
}

#[test]
fn a_run_lists_its_defects_and_those_of_its_players() {
    let mut run = sample_run();
    run.times_ms = RunTimesMs { igt: None, rta: None, rta_nl: None };
    assert_eq!(run.validate(), Err(vec![FieldError::AllTimesNone]));
    run.game_id = 0;
    run.category_id = 0;
    run.level_id = Some(0);
    run.id = 0;
    run.players = vec![
        RunPlayer::GuestName(String::new()),
        RunPlayer::UserId(3),
        RunPlayer::UserId(0),
    ];
    assert_eq!(
        run.validate(),
        Err(vec![
            FieldError::ZeroGameId,
            FieldError::ZeroCategoryId,
            FieldError::ZeroLevelId,
            FieldError::ZeroId,
            FieldError::AllTimesNone,
            FieldError::EmptyGuestName,
            FieldError::ZeroUserId
        ])
    );
}

#[test]
fn a_run_without_a_level_or_players_is_sound() {
    let mut run = sample_run();
    run.level_id = None;
    run.players = Vec::new();
    assert_eq!(run.validate(), Ok(()));
}

#[test]
fn ids_are_written_in_base_36() {
    assert_eq!(base36(0), "0");
    assert_eq!(base36(1), "1");
    assert_eq!(base36(35), "z");
    assert_eq!(base36(36), "10");
    assert_eq!(base36(1295), "zz");
    assert_eq!(base36(1296), "100");
    assert_eq!(base36(123_456_789), "21i3v9");
    assert_eq!(base36(u64::MAX), "3w5e11264sgsf");
}

#[test]
fn records_write_their_ids_in_base_36() {
    assert_eq!(sample_category().src_id(), "10");
    assert_eq!(sample_user().src_id(), "zz");
    assert_eq!(sample_game().src_id(), "100");
    assert_eq!(sample_level().src_id(), "21i3v9");
    assert_eq!(sample_run().src_id(), "z");
}

#[test]
fn slugs_keep_letters_and_digits_and_underline_spaces() {
    assert_eq!(src_slugify("Any%"), "Any");
    assert_eq!(src_slugify("100%"), "100");
    assert_eq!(src_slugify("All Bosses"), "All_Bosses");
    assert_eq!(src_slugify("Any% (No SRM)"), "Any_No_SRM");
    assert_eq!(src_slugify(""), "");
    assert_eq!(src_slugify("  "), "__");
    assert_eq!(src_slugify("Pok\u{e9}mon \u{2014} Z"), "Pokmon__Z");
}

#[test]
fn records_make_their_slug_from_their_name() {
    assert_eq!(sample_category().src_slug(), "Any");
    assert_eq!(sample_user().src_slug(), "Bjw");
    assert_eq!(sample_level().src_slug(), "Orc_1_Zuldare");
}

#[test]
fn getters_hand_out_the_fields() {
    let category = sample_category();
    assert_eq!(*category.game_id(), 7);
    assert_eq!(category.slug(), "any");
    assert_eq!(category.name(), "Any%");
    assert_eq!(*category.id(), 36);
    assert_eq!(*category.per(), CategoryType::PerGame);
    assert_eq!(category.rules(), "Reach the credits.");

    let user = sample_user();
    assert_eq!(*user.created(), Some(Timestamp { secs: 1_400_000_000, nanos: 5 }));
    assert_eq!(user.slug(), "bjw");
    assert_eq!(user.name(), "Bjw");
    assert_eq!(*user.id(), 1295);

    let game = sample_game();
    assert_eq!(*game.id(), 1296);
    assert_eq!(*game.created(), None);
    assert_eq!(game.slug(), "wc2");
    assert_eq!(game.src_slug(), "wc2");
    assert_eq!(game.name(), "Warcraft II");
    assert_eq!(*game.primary_timing(), TimingMethod::RTA);

    let level = sample_level();
    assert_eq!(*level.game_id(), 1296);
    assert_eq!(*level.id(), 123_456_789);
    assert_eq!(level.slug(), "orc-1");
    assert_eq!(level.name(), "Orc 1: Zul'dare");
    assert_eq!(level.rules(), "");

    let run = sample_run();
    assert_eq!(*run.game_id(), 1296);
    assert_eq!(*run.category_id(), 36);
    assert_eq!(*run.level_id(), Some(123_456_789));
    assert_eq!(*run.id(), 35);
    assert_eq!(*run.created(), Some(Timestamp { secs: 1_500_000_000, nanos: 0 }));
    assert_eq!(*run.date(), Some(Date { days_from_ce: 736_000 }));
    assert_eq!(*run.times_ms().rta(), Some(61_000));
    assert_eq!(*run.times_ms().igt(), None);
    assert_eq!(*run.times_ms().rta_nl(), None);
    assert_eq!(run.players().len(), 2);
}

#[test]
fn clones_equal_their_originals() {
    assert_eq!(sample_category().clone(), sample_category());
    assert_eq!(sample_user().clone(), sample_user());
    assert_eq!(sample_game().clone(), sample_game());
    assert_eq!(sample_level().clone(), sample_level());
    assert_eq!(sample_run().clone(), sample_run());
}

#[test]
fn numbers_are_read_from_base_36() {
    assert_eq!(u64_from_base36("0"), Some(0));
    assert_eq!(u64_from_base36("z"), Some(35));
    assert_eq!(u64_from_base36("10"), Some(36));
    assert_eq!(u64_from_base36("zz"), Some(1295));
    assert_eq!(u64_from_base36("21i3v9"), Some(123_456_789));
    assert_eq!(u64_from_base36("0021i3v9"), Some(123_456_789));
    assert_eq!(u64_from_base36("3w5e11264sgsf"), Some(u64::MAX));
}

#[test]
fn what_is_no_number_in_base_36_is_not_read() {
    assert_eq!(u64_from_base36(""), None);
    assert_eq!(u64_from_base36("Z"), None);
    assert_eq!(u64_from_base36("1 2"), None);
    assert_eq!(u64_from_base36("-1"), None);
    assert_eq!(u64_from_base36("12\u{e9}"), None);
    // one more than fits
    assert_eq!(u64_from_base36("3w5e11264sgsg"), None);
    assert_eq!(u64_from_base36("zzzzzzzzzzzzzz"), None);
    assert_eq!(u64_from_base36("10000000000000"), None);
}

#[test]
fn base_36_reads_back_what_it_writes() {
    for value in [0u64, 1, 35, 36, 37, 1295, 1296, 46_655, 46_656, u64::MAX - 1, u64::MAX] {
        assert_eq!(u64_from_base36(&base36(value)), Some(value));
    }
}

#[test]
fn our_slugs_are_lower_case_with_hyphens() {
    assert_eq!(slugify("Any%"), "any");
    assert_eq!(slugify("All Bosses"), "all-bosses");
    assert_eq!(slugify("War_Craft-II"), "war-craft-ii");
    assert_eq!(slugify("100% (No SRM)"), "100-no-srm");
    assert_eq!(slugify("  "), "--");
    assert_eq!(slugify(""), "");
    assert_eq!(slugify("\u{c9}clair Z"), "clair-z");
    assert_eq!(slugify("AZaz09"), "azaz09");
}
