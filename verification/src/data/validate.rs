//! The passes of the integrity validator. Each appends what it finds to the
//! report and never stops at the first violation.
use vstd::prelude::*;
use std::collections::HashMap;
use crate::data::graphql::global_id::NodeType;
use vstd::hash_map::StringHashMap;
use crate::data::index::{
    distinct, group_at, group_by_slug, indexes, lemma_indexed, lemma_positions, lemma_select_push,
    lemma_texts_push, occurs, occurs_below, select, texts,
};
use crate::data::integrity::{
    category_checks, category_collisions, category_references, domain_errors, field_check_errors,
    game_checks, game_collisions, gather, level_checks, level_collisions, level_references,
    missing_timings, player_references, referential_errors, run_checks, run_references,
    uniqueness_errors, user_checks, user_collisions, ForeignKeyField, IntegrityError,
};
use crate::data::models::{AnyModel, AnyModelVec};
use crate::data::tables::{place_of, Tables};
use crate::data::types::{lemma_views_push, views, Category, Game, Level, RunPlayer, User};

verus! {

/// Appends one violation to the report.
pub(crate) fn report(errors: &mut Vec<IntegrityError>, error: IntegrityError)
    ensures
        views(final(errors)@) == views(old(errors)@).push(error@),
{
    errors.push(error);
    assert(views(errors@) =~= views(old(errors)@).push(error@));
}

fn check_runs(tables: &Tables, errors: &mut Vec<IntegrityError>)
    ensures
        views(final(errors)@) == views(old(errors)@) + gather(
            run_checks(tables@),
            tables@.runs.len(),
        ),
{
    let mut i: usize = 0;
    while i < tables.runs.len()
        invariant
            i <= tables.runs.len(),
            views(errors@) == views(old(errors)@) + gather(run_checks(tables@), i as nat),
        decreases tables.runs.len() - i,
    {
        let ghost before = views(errors@);
        match tables.runs[i].validate() {
            Ok(_) => {},
            Err(found) => {
                report(
                    errors,
                    IntegrityError::CheckFailed {
                        errors: found,
                        source: AnyModel::Run(tables.runs[i].clone()),
                    },
                );
            },
        }
        assert(views(errors@) =~= before + run_checks(tables@)(i as int));
        i += 1;
    }
}

fn check_users(tables: &Tables, errors: &mut Vec<IntegrityError>)
    ensures
        views(final(errors)@) == views(old(errors)@) + gather(
            user_checks(tables@),
            tables@.users.len(),
        ),
{
    let mut i: usize = 0;
    while i < tables.users.len()
        invariant
            i <= tables.users.len(),
            views(errors@) == views(old(errors)@) + gather(user_checks(tables@), i as nat),
        decreases tables.users.len() - i,
    {
        let ghost before = views(errors@);
        match tables.users[i].validate() {
            Ok(_) => {},
            Err(found) => {
                report(
                    errors,
                    IntegrityError::CheckFailed {
                        errors: found,
                        source: AnyModel::User(tables.users[i].clone()),
                    },
                );
            },
        }
        assert(views(errors@) =~= before + user_checks(tables@)(i as int));
        i += 1;
    }
}

fn check_games(tables: &Tables, errors: &mut Vec<IntegrityError>)
    ensures
        views(final(errors)@) == views(old(errors)@) + gather(
            game_checks(tables@),
            tables@.games.len(),
        ),
{
    let mut i: usize = 0;
    while i < tables.games.len()
        invariant
            i <= tables.games.len(),
            views(errors@) == views(old(errors)@) + gather(game_checks(tables@), i as nat),
        decreases tables.games.len() - i,
    {
        let ghost before = views(errors@);
        match tables.games[i].validate() {
            Ok(_) => {},
            Err(found) => {
                report(
                    errors,
                    IntegrityError::CheckFailed {
                        errors: found,
                        source: AnyModel::Game(tables.games[i].clone()),
                    },
                );
            },
        }
        assert(views(errors@) =~= before + game_checks(tables@)(i as int));
        i += 1;
    }
}

fn check_categories(tables: &Tables, errors: &mut Vec<IntegrityError>)
    ensures
        views(final(errors)@) == views(old(errors)@) + gather(
            category_checks(tables@),
            tables@.categories.len(),
        ),
{
    let mut i: usize = 0;
    while i < tables.categories.len()
        invariant
            i <= tables.categories.len(),
            views(errors@) == views(old(errors)@) + gather(category_checks(tables@), i as nat),
        decreases tables.categories.len() - i,
    {
        let ghost before = views(errors@);
        match tables.categories[i].validate() {
            Ok(_) => {},
            Err(found) => {
                report(
                    errors,
                    IntegrityError::CheckFailed {
                        errors: found,
                        source: AnyModel::Category(tables.categories[i].clone()),
                    },
                );
            },
        }
        assert(views(errors@) =~= before + category_checks(tables@)(i as int));
        i += 1;
    }
}

fn check_levels(tables: &Tables, errors: &mut Vec<IntegrityError>)
    ensures
        views(final(errors)@) == views(old(errors)@) + gather(
            level_checks(tables@),
            tables@.levels.len(),
        ),
{
    let mut i: usize = 0;
    while i < tables.levels.len()
        invariant
            i <= tables.levels.len(),
            views(errors@) == views(old(errors)@) + gather(level_checks(tables@), i as nat),
        decreases tables.levels.len() - i,
    {
        let ghost before = views(errors@);
        match tables.levels[i].validate() {
            Ok(_) => {},
            Err(found) => {
                report(
                    errors,
                    IntegrityError::CheckFailed {
                        errors: found,
                        source: AnyModel::Level(tables.levels[i].clone()),
                    },
                );
            },
        }
        assert(views(errors@) =~= before + level_checks(tables@)(i as int));
        i += 1;
    }
}

/// Reports every record with a field-local defect.
pub(crate) fn check_fields(tables: &Tables, errors: &mut Vec<IntegrityError>)
    ensures
        views(final(errors)@) == views(old(errors)@) + field_check_errors(tables@),
{
    check_runs(tables, errors);
    check_users(tables, errors);
    check_games(tables, errors);
    check_categories(tables, errors);
    check_levels(tables, errors);
    assert(views(errors@) =~= views(old(errors)@) + field_check_errors(tables@));
}

/// The id indices of the four kinds that foreign keys point at.
pub(crate) struct IdIndices {
    pub users: HashMap<u64, usize>,
    pub games: HashMap<u64, usize>,
    pub categories: HashMap<u64, usize>,
    pub levels: HashMap<u64, usize>,
    pub runs: HashMap<u64, usize>,
}

impl IdIndices {
    /// Each map indexes the ids of its kind in `tables`.
    pub(crate) open spec fn describes(&self, tables: &Tables) -> bool {
        &&& indexes(self.users@, tables@.user_ids())
        &&& indexes(self.games@, tables@.game_ids())
        &&& indexes(self.categories@, tables@.category_ids())
        &&& indexes(self.levels@, tables@.level_ids())
        &&& indexes(self.runs@, tables@.run_ids())
    }
}

fn check_run_references(tables: &Tables, ids: &IdIndices, errors: &mut Vec<IntegrityError>)
    requires
        ids.describes(tables),
    ensures
        views(final(errors)@) == views(old(errors)@) + gather(
            run_references(tables@),
            tables@.runs.len(),
        ),
{
    broadcast use vstd::std_specs::hash::group_hash_axioms;

    let mut i: usize = 0;
    while i < tables.runs.len()
        invariant
            i <= tables.runs.len(),
            ids.describes(tables),
            views(errors@) == views(old(errors)@) + gather(run_references(tables@), i as nat),
        decreases tables.runs.len() - i,
    {
        let ghost before = views(errors@);
        let run = &tables.runs[i];
        proof {
            lemma_indexed(ids.games@, tables@.game_ids(), run.game_id);
            lemma_indexed(ids.categories@, tables@.category_ids(), run.category_id);
        }
        if !ids.games.contains_key(&run.game_id) {
            report(
                errors,
                IntegrityError::ForeignKeyMissing {
                    target_type: NodeType::Game,
                    target_id: run.game_id,
                    foreign_key_field: ForeignKeyField::GameId,
                    source: AnyModel::Run(run.clone()),
                },
            );
        }
        if !ids.categories.contains_key(&run.category_id) {
            report(
                errors,
                IntegrityError::ForeignKeyMissing {
                    target_type: NodeType::Category,
                    target_id: run.category_id,
                    foreign_key_field: ForeignKeyField::CategoryId,
                    source: AnyModel::Run(run.clone()),
                },
            );
        }
        match run.level_id {
            Some(level_id) => {
                proof {
                    lemma_indexed(ids.levels@, tables@.level_ids(), level_id);
                }
                if !ids.levels.contains_key(&level_id) {
                    report(
                        errors,
                        IntegrityError::ForeignKeyMissing {
                            target_type: NodeType::Level,
                            target_id: level_id,
                            foreign_key_field: ForeignKeyField::LevelId,
                            source: AnyModel::Run(run.clone()),
                        },
                    );
                }
            },
            None => {},
        }
        let ghost keyed = views(errors@);
        let mut p: usize = 0;
        while p < run.players.len()
            invariant
                p <= run.players.len(),
                ids.describes(tables),
                views(errors@) == keyed + gather(player_references(tables@, run@), p as nat),
            decreases run.players.len() - p,
        {
            let ghost so_far = views(errors@);
            match &run.players[p] {
                RunPlayer::UserId(user_id) => {
                    proof {
                        lemma_indexed(ids.users@, tables@.user_ids(), *user_id);
                    }
                    if !ids.users.contains_key(user_id) {
                        report(
                            errors,
                            IntegrityError::ForeignKeyMissing {
                                target_type: NodeType::User,
                                target_id: *user_id,
                                foreign_key_field: ForeignKeyField::PlayerUserId,
                                source: AnyModel::Run(run.clone()),
                            },
                        );
                    }
                },
                RunPlayer::GuestName(_) => {},
            }
            assert(views(errors@) =~= so_far + player_references(tables@, run@)(p as int));
            p += 1;
        }
        assert(views(errors@) =~= before + run_references(tables@)(i as int));
        i += 1;
    }
}

fn check_category_references(tables: &Tables, ids: &IdIndices, errors: &mut Vec<IntegrityError>)
    requires
        ids.describes(tables),
    ensures
        views(final(errors)@) == views(old(errors)@) + gather(
            category_references(tables@),
            tables@.categories.len(),
        ),
{
    broadcast use vstd::std_specs::hash::group_hash_axioms;

    let mut i: usize = 0;
    while i < tables.categories.len()
        invariant
            i <= tables.categories.len(),
            ids.describes(tables),
            views(errors@) == views(old(errors)@) + gather(category_references(tables@), i as nat),
        decreases tables.categories.len() - i,
    {
        let ghost before = views(errors@);
        let category = &tables.categories[i];
        proof {
            lemma_indexed(ids.games@, tables@.game_ids(), category.game_id);
        }
        if !ids.games.contains_key(&category.game_id) {
            report(
                errors,
                IntegrityError::ForeignKeyMissing {
                    target_type: NodeType::Game,
                    target_id: category.game_id,
                    foreign_key_field: ForeignKeyField::GameId,
                    source: AnyModel::Category(category.clone()),
                },
            );
        }
        assert(views(errors@) =~= before + category_references(tables@)(i as int));
        i += 1;
    }
}

fn check_level_references(tables: &Tables, ids: &IdIndices, errors: &mut Vec<IntegrityError>)
    requires
        ids.describes(tables),
    ensures
        views(final(errors)@) == views(old(errors)@) + gather(
            level_references(tables@),
            tables@.levels.len(),
        ),
{
    broadcast use vstd::std_specs::hash::group_hash_axioms;

    let mut i: usize = 0;
    while i < tables.levels.len()
        invariant
            i <= tables.levels.len(),
            ids.describes(tables),
            views(errors@) == views(old(errors)@) + gather(level_references(tables@), i as nat),
        decreases tables.levels.len() - i,
    {
        let ghost before = views(errors@);
        let level = &tables.levels[i];
        proof {
            lemma_indexed(ids.games@, tables@.game_ids(), level.game_id);
        }
        if !ids.games.contains_key(&level.game_id) {
            report(
                errors,
                IntegrityError::ForeignKeyMissing {
                    target_type: NodeType::Game,
                    target_id: level.game_id,
                    foreign_key_field: ForeignKeyField::GameId,
                    source: AnyModel::Level(level.clone()),
                },
            );
        }
        assert(views(errors@) =~= before + level_references(tables@)(i as int));
        i += 1;
    }
}

/// Reports every foreign key without a target, against the record that
/// holds it.
pub(crate) fn check_references(tables: &Tables, ids: &IdIndices, errors: &mut Vec<IntegrityError>)
    requires
        ids.describes(tables),
    ensures
        views(final(errors)@) == views(old(errors)@) + referential_errors(tables@),
{
    check_run_references(tables, ids, errors);
    check_category_references(tables, ids, errors);
    check_level_references(tables, ids, errors);
    assert(views(errors@) =~= views(old(errors)@) + referential_errors(tables@));
}

/// Reports every run whose game is known and whose durations lack the
/// game's primary timing method.
pub(crate) fn check_primary_timings(
    tables: &Tables,
    ids: &IdIndices,
    errors: &mut Vec<IntegrityError>,
)
    requires
        ids.describes(tables),
        tables@.ids_distinct(),
    ensures
        views(final(errors)@) == views(old(errors)@) + domain_errors(tables@),
{
    broadcast use vstd::std_specs::hash::group_hash_axioms;

    let mut i: usize = 0;
    while i < tables.runs.len()
        invariant
            i <= tables.runs.len(),
            ids.describes(tables),
            tables@.ids_distinct(),
            views(errors@) == views(old(errors)@) + gather(missing_timings(tables@), i as nat),
        decreases tables.runs.len() - i,
    {
        let ghost before = views(errors@);
        let run = &tables.runs[i];
        proof {
            lemma_indexed(ids.games@, tables@.game_ids(), run.game_id);
        }
        match ids.games.get(&run.game_id) {
            Some(at) => {
                let game = &tables.games[*at];
                proof {
                    let place = place_of(tables@.game_ids(), run.game_id);
                    assert(tables@.game_ids()[*at as int] == run.game_id);
                    assert(0 <= place < tables@.game_ids().len() && tables@.game_ids()[place]
                        == run.game_id);
                    assert(place == *at);
                    assert(tables@.game(run.game_id) == game@);
                }
                if run.times_ms.get(&game.primary_timing).is_none() {
                    report(errors, IntegrityError::MissingPrimaryTiming(run.clone()));
                }
            },
            None => {},
        }
        assert(views(errors@) =~= before + missing_timings(tables@)(i as int));
        i += 1;
    }
}

/// What a slug index built over `slugs` holds: every slug that occurs,
/// with its first position.
pub(crate) open spec fn names_first(firsts: Map<Seq<char>, usize>, slugs: Seq<Seq<char>>) -> bool {
    &&& forall|slug: Seq<char>| #[trigger] firsts.contains_key(slug) <==> occurs(slugs, slug)
    &&& forall|slug: Seq<char>| #[trigger]
        firsts.contains_key(slug) ==> firsts[slug] < slugs.len() && slugs[firsts[slug] as int]
            == slug && !occurs_below(slugs, slug, firsts[slug] as int)
}

/// Where no slug stands twice, an index of first positions is an index of
/// positions.
pub(crate) proof fn lemma_firsts_index(firsts: Map<Seq<char>, usize>, slugs: Seq<Seq<char>>)
    requires
        names_first(firsts, slugs),
        distinct(slugs),
    ensures
        indexes(firsts, slugs),
{
    assert forall|i: int| 0 <= i < slugs.len() implies firsts.contains_key(#[trigger] slugs[i])
        && firsts[slugs[i]] == i by {
        assert(occurs(slugs, slugs[i]));
        assert(firsts.contains_key(slugs[i]));
        let named = firsts[slugs[i]] as int;
        if named < i {
            assert(slugs[named] != slugs[i]);
        } else if i < named {
            assert(slugs[i] != slugs[named]);
        }
    }
}

fn check_game_slugs(tables: &Tables, errors: &mut Vec<IntegrityError>) -> (firsts: StringHashMap<
    usize,
>)
    ensures
        views(final(errors)@) == views(old(errors)@) + gather(
            game_collisions(tables@),
            tables@.games.len(),
        ),
        names_first(firsts@, tables@.game_slugs()),
{
    let mut slugs: Vec<&str> = Vec::new();
    let mut i: usize = 0;
    while i < tables.games.len()
        invariant
            i <= tables.games.len(),
            slugs@.len() == i,
            texts(slugs@) == tables@.game_slugs().take(i as int),
        decreases tables.games.len() - i,
    {
        let ghost listed = slugs@;
        slugs.push(tables.games[i].slug.as_str());
        proof {
            lemma_texts_push(listed, slugs@[i as int]);
            assert(tables@.game_slugs()[i as int] == tables.games@[i as int]@.slug);
            assert(texts(slugs@) =~= tables@.game_slugs().take(i + 1));
        }
        i += 1;
    }
    assert(texts(slugs@) =~= tables@.game_slugs());
    let (firsts, members) = group_by_slug(&slugs);
    let mut first: usize = 0;
    while first < members.len()
        invariant
            first <= members.len(),
            members@.len() == tables.games@.len(),
            forall|f: int|
                0 <= f < members@.len() ==> (#[trigger] members@[f])@ == group_at(
                    tables@.game_slugs(),
                    f,
                ),
            views(errors@) == views(old(errors)@) + gather(game_collisions(tables@), first as nat),
        decreases members.len() - first,
    {
        let ghost before = views(errors@);
        let group = &members[first];
        if group.len() > 1 {
            proof {
                lemma_positions(
                    tables@.game_slugs(),
                    tables@.game_slugs()[first as int],
                    tables@.game_slugs().len(),
                );
            }
            let mut sources: Vec<Game> = Vec::new();
            let mut k: usize = 0;
            while k < group.len()
                invariant
                    k <= group.len(),
                    forall|a: int| 0 <= a < group@.len() ==> (#[trigger] group@[a]) < tables.games@.len(),
                    sources@.len() == k,
                    views(sources@) == select(tables@.games, group@.take(k as int)),
                decreases group.len() - k,
            {
                let ghost copied = sources@;
                sources.push(tables.games[group[k]].clone());
                proof {
                    lemma_views_push(copied, sources@[k as int]);
                    lemma_select_push(tables@.games, group@, k as int);
                    assert(tables@.games[group@[k as int] as int] == tables.games@[group@[k as int] as int]@);
                }
                k += 1;
            }
            assert(group@.take(k as int) =~= group@);
            report(
                errors,
                IntegrityError::NonUniqueSlug {
                    target_type: NodeType::Game,
                    slug: tables.games[first].slug.clone(),
                    sources: AnyModelVec::Games(sources),
                },
            );
        }
        assert(views(errors@) =~= before + game_collisions(tables@)(first as int));
        first += 1;
    }
    firsts
}

fn check_user_slugs(tables: &Tables, errors: &mut Vec<IntegrityError>) -> (firsts: StringHashMap<
    usize,
>)
    ensures
        views(final(errors)@) == views(old(errors)@) + gather(
            user_collisions(tables@),
            tables@.users.len(),
        ),
        names_first(firsts@, tables@.user_slugs()),
{
    let mut slugs: Vec<&str> = Vec::new();
    let mut i: usize = 0;
    while i < tables.users.len()
        invariant
            i <= tables.users.len(),
            slugs@.len() == i,
            texts(slugs@) == tables@.user_slugs().take(i as int),
        decreases tables.users.len() - i,
    {
        let ghost listed = slugs@;
        slugs.push(tables.users[i].slug.as_str());
        proof {
            lemma_texts_push(listed, slugs@[i as int]);
            assert(tables@.user_slugs()[i as int] == tables.users@[i as int]@.slug);
            assert(texts(slugs@) =~= tables@.user_slugs().take(i + 1));
        }
        i += 1;
    }
    assert(texts(slugs@) =~= tables@.user_slugs());
    let (firsts, members) = group_by_slug(&slugs);
    let mut first: usize = 0;
    while first < members.len()
        invariant
            first <= members.len(),
            members@.len() == tables.users@.len(),
            forall|f: int|
                0 <= f < members@.len() ==> (#[trigger] members@[f])@ == group_at(
                    tables@.user_slugs(),
                    f,
                ),
            views(errors@) == views(old(errors)@) + gather(user_collisions(tables@), first as nat),
        decreases members.len() - first,
    {
        let ghost before = views(errors@);
        let group = &members[first];
        if group.len() > 1 {
            proof {
                lemma_positions(
                    tables@.user_slugs(),
                    tables@.user_slugs()[first as int],
                    tables@.user_slugs().len(),
                );
            }
            let mut sources: Vec<User> = Vec::new();
            let mut k: usize = 0;
            while k < group.len()
                invariant
                    k <= group.len(),
                    forall|a: int| 0 <= a < group@.len() ==> (#[trigger] group@[a]) < tables.users@.len(),
                    sources@.len() == k,
                    views(sources@) == select(tables@.users, group@.take(k as int)),
                decreases group.len() - k,
            {
                let ghost copied = sources@;
                sources.push(tables.users[group[k]].clone());
                proof {
                    lemma_views_push(copied, sources@[k as int]);
                    lemma_select_push(tables@.users, group@, k as int);
                    assert(tables@.users[group@[k as int] as int] == tables.users@[group@[k as int] as int]@);
                }
                k += 1;
            }
            assert(group@.take(k as int) =~= group@);
            report(
                errors,
                IntegrityError::NonUniqueSlug {
                    target_type: NodeType::User,
                    slug: tables.users[first].slug.clone(),
                    sources: AnyModelVec::Users(sources),
                },
            );
        }
        assert(views(errors@) =~= before + user_collisions(tables@)(first as int));
        first += 1;
    }
    firsts
}

fn check_category_slugs(tables: &Tables, errors: &mut Vec<IntegrityError>) -> (firsts: StringHashMap<
    usize,
>)
    ensures
        views(final(errors)@) == views(old(errors)@) + gather(
            category_collisions(tables@),
            tables@.categories.len(),
        ),
        names_first(firsts@, tables@.category_slugs()),
{
    let mut slugs: Vec<&str> = Vec::new();
    let mut i: usize = 0;
    while i < tables.categories.len()
        invariant
            i <= tables.categories.len(),
            slugs@.len() == i,
            texts(slugs@) == tables@.category_slugs().take(i as int),
        decreases tables.categories.len() - i,
    {
        let ghost listed = slugs@;
        slugs.push(tables.categories[i].slug.as_str());
        proof {
            lemma_texts_push(listed, slugs@[i as int]);
            assert(tables@.category_slugs()[i as int] == tables.categories@[i as int]@.slug);
            assert(texts(slugs@) =~= tables@.category_slugs().take(i + 1));
        }
        i += 1;
    }
    assert(texts(slugs@) =~= tables@.category_slugs());
    let (firsts, members) = group_by_slug(&slugs);
    let mut first: usize = 0;
    while first < members.len()
        invariant
            first <= members.len(),
            members@.len() == tables.categories@.len(),
            forall|f: int|
                0 <= f < members@.len() ==> (#[trigger] members@[f])@ == group_at(
                    tables@.category_slugs(),
                    f,
                ),
            views(errors@) == views(old(errors)@) + gather(category_collisions(tables@), first as nat),
        decreases members.len() - first,
    {
        let ghost before = views(errors@);
        let group = &members[first];
        if group.len() > 1 {
            proof {
                lemma_positions(
                    tables@.category_slugs(),
                    tables@.category_slugs()[first as int],
                    tables@.category_slugs().len(),
                );
            }
            let mut sources: Vec<Category> = Vec::new();
            let mut k: usize = 0;
            while k < group.len()
                invariant
                    k <= group.len(),
                    forall|a: int| 0 <= a < group@.len() ==> (#[trigger] group@[a]) < tables.categories@.len(),
                    sources@.len() == k,
                    views(sources@) == select(tables@.categories, group@.take(k as int)),
                decreases group.len() - k,
            {
                let ghost copied = sources@;
                sources.push(tables.categories[group[k]].clone());
                proof {
                    lemma_views_push(copied, sources@[k as int]);
                    lemma_select_push(tables@.categories, group@, k as int);
                    assert(tables@.categories[group@[k as int] as int] == tables.categories@[group@[k as int] as int]@);
                }
                k += 1;
            }
            assert(group@.take(k as int) =~= group@);
            report(
                errors,
                IntegrityError::NonUniqueSlug {
                    target_type: NodeType::Category,
                    slug: tables.categories[first].slug.clone(),
                    sources: AnyModelVec::Categories(sources),
                },
            );
        }
        assert(views(errors@) =~= before + category_collisions(tables@)(first as int));
        first += 1;
    }
    firsts
}

fn check_level_slugs(tables: &Tables, errors: &mut Vec<IntegrityError>) -> (firsts: StringHashMap<
    usize,
>)
    ensures
        views(final(errors)@) == views(old(errors)@) + gather(
            level_collisions(tables@),
            tables@.levels.len(),
        ),
        names_first(firsts@, tables@.level_slugs()),
{
    let mut slugs: Vec<&str> = Vec::new();
    let mut i: usize = 0;
    while i < tables.levels.len()
        invariant
            i <= tables.levels.len(),
            slugs@.len() == i,
            texts(slugs@) == tables@.level_slugs().take(i as int),
        decreases tables.levels.len() - i,
    {
        let ghost listed = slugs@;
        slugs.push(tables.levels[i].slug.as_str());
        proof {
            lemma_texts_push(listed, slugs@[i as int]);
            assert(tables@.level_slugs()[i as int] == tables.levels@[i as int]@.slug);
            assert(texts(slugs@) =~= tables@.level_slugs().take(i + 1));
        }
        i += 1;
    }
    assert(texts(slugs@) =~= tables@.level_slugs());
    let (firsts, members) = group_by_slug(&slugs);
    let mut first: usize = 0;
    while first < members.len()
        invariant
            first <= members.len(),
            members@.len() == tables.levels@.len(),
            forall|f: int|
                0 <= f < members@.len() ==> (#[trigger] members@[f])@ == group_at(
                    tables@.level_slugs(),
                    f,
                ),
            views(errors@) == views(old(errors)@) + gather(level_collisions(tables@), first as nat),
        decreases members.len() - first,
    {
        let ghost before = views(errors@);
        let group = &members[first];
        if group.len() > 1 {
            proof {
                lemma_positions(
                    tables@.level_slugs(),
                    tables@.level_slugs()[first as int],
                    tables@.level_slugs().len(),
                );
            }
            let mut sources: Vec<Level> = Vec::new();
            let mut k: usize = 0;
            while k < group.len()
                invariant
                    k <= group.len(),
                    forall|a: int| 0 <= a < group@.len() ==> (#[trigger] group@[a]) < tables.levels@.len(),
                    sources@.len() == k,
                    views(sources@) == select(tables@.levels, group@.take(k as int)),
                decreases group.len() - k,
            {
                let ghost copied = sources@;
                sources.push(tables.levels[group[k]].clone());
                proof {
                    lemma_views_push(copied, sources@[k as int]);
                    lemma_select_push(tables@.levels, group@, k as int);
                    assert(tables@.levels[group@[k as int] as int] == tables.levels@[group@[k as int] as int]@);
                }
                k += 1;
            }
            assert(group@.take(k as int) =~= group@);
            report(
                errors,
                IntegrityError::NonUniqueSlug {
                    target_type: NodeType::Level,
                    slug: tables.levels[first].slug.clone(),
                    sources: AnyModelVec::Levels(sources),
                },
            );
        }
        assert(views(errors@) =~= before + level_collisions(tables@)(first as int));
        first += 1;
    }
    firsts
}

/// The slug indices of the four kinds that have slugs.
pub(crate) struct SlugIndices {
    pub users: StringHashMap<usize>,
    pub games: StringHashMap<usize>,
    pub categories: StringHashMap<usize>,
    pub levels: StringHashMap<usize>,
}

impl SlugIndices {
    /// Each map names the first position of every slug of its kind.
    pub(crate) open spec fn names_first(&self, tables: &Tables) -> bool {
        &&& names_first(self.users@, tables@.user_slugs())
        &&& names_first(self.games@, tables@.game_slugs())
        &&& names_first(self.categories@, tables@.category_slugs())
        &&& names_first(self.levels@, tables@.level_slugs())
    }

    /// Each map indexes the slugs of its kind in `tables`.
    pub(crate) open spec fn describes(&self, tables: &Tables) -> bool {
        &&& indexes(self.users@, tables@.user_slugs())
        &&& indexes(self.games@, tables@.game_slugs())
        &&& indexes(self.categories@, tables@.category_slugs())
        &&& indexes(self.levels@, tables@.level_slugs())
    }
}

/// Reports every slug that several records of a kind share, with all the
/// records that share it, and hands back the slug indices.
pub(crate) fn check_slugs(tables: &Tables, errors: &mut Vec<IntegrityError>) -> (slugs: SlugIndices)
    ensures
        views(final(errors)@) == views(old(errors)@) + uniqueness_errors(tables@),
        slugs.names_first(tables),
{
    let games = check_game_slugs(tables, errors);
    let users = check_user_slugs(tables, errors);
    let categories = check_category_slugs(tables, errors);
    let levels = check_level_slugs(tables, errors);
    assert(views(errors@) =~= views(old(errors)@) + uniqueness_errors(tables@));
    SlugIndices { users, games, categories, levels }
}

} // verus!
