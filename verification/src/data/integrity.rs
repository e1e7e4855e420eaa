//! The integrity report: every violation that a set of tables holds, never
//! only the first.
//!
//! Tables in which a kind holds an id twice cannot be indexed, and the
//! report is then the indexing defect alone. Otherwise it lists, in this
//! order, the records with field-local defects, the foreign keys without a
//! target, the slugs that several records of a kind share, and the runs
//! without a duration under their game's primary timing method.
use vstd::prelude::*;
use crate::data::graphql::global_id::NodeType;
use crate::data::index::{group_at, lemma_distinct_groups, select};
use crate::data::models::{AnyModel, AnyModelVec, AnyModelVecView, AnyModelView};
use crate::data::tables::TablesView;
use crate::data::types::{views, FieldError, Id64, Run, RunPlayerView, RunView};

verus! {

/// The field of a record that holds a foreign key.
#[derive(Debug, Clone, Copy, PartialEq, Eq, Structural, Hash, PartialOrd, Ord)]
pub enum ForeignKeyField {
    /// `game_id` of a run, a category or a level.
    GameId,
    /// `category_id` of a run.
    CategoryId,
    /// `level_id` of a run.
    LevelId,
    /// The user id of one of a run's players.
    PlayerUserId,
}

/// One violation found in a set of tables.
#[derive(Debug, PartialEq, Eq)]
pub enum IntegrityError {
    /// A kind holds an id twice, so its records cannot be indexed.
    IndexingError,
    /// A foreign key of `source` names no record of the target kind.
    ForeignKeyMissing {
        target_type: NodeType,
        target_id: Id64,
        foreign_key_field: ForeignKeyField,
        source: AnyModel,
    },
    /// `source` has field-local defects.
    CheckFailed { errors: Vec<FieldError>, source: AnyModel },
    /// Two or more records of a kind share `slug`: `sources` holds them all.
    NonUniqueSlug { target_type: NodeType, slug: String, sources: AnyModelVec },
    /// The run has no duration under its game's primary timing method.
    MissingPrimaryTiming(Run),
}

/// What an `IntegrityError` stands for.
pub enum IntegrityErrorView {
    IndexingError,
    ForeignKeyMissing {
        target_type: NodeType,
        target_id: u64,
        foreign_key_field: ForeignKeyField,
        source: AnyModelView,
    },
    CheckFailed { errors: Seq<FieldError>, source: AnyModelView },
    NonUniqueSlug { target_type: NodeType, slug: Seq<char>, sources: AnyModelVecView },
    MissingPrimaryTiming(RunView),
}

impl View for IntegrityError {
    type V = IntegrityErrorView;

    open spec fn view(&self) -> IntegrityErrorView {
        match self {
            IntegrityError::IndexingError => IntegrityErrorView::IndexingError,
            IntegrityError::ForeignKeyMissing {
                target_type,
                target_id,
                foreign_key_field,
                source,
            } => IntegrityErrorView::ForeignKeyMissing {
                target_type: *target_type,
                target_id: *target_id,
                foreign_key_field: *foreign_key_field,
                source: source@,
            },
            IntegrityError::CheckFailed { errors, source } => IntegrityErrorView::CheckFailed {
                errors: errors@,
                source: source@,
            },
            IntegrityError::NonUniqueSlug {
                target_type,
                slug,
                sources,
            } => IntegrityErrorView::NonUniqueSlug {
                target_type: *target_type,
                slug: slug@,
                sources: sources@,
            },
            IntegrityError::MissingPrimaryTiming(run) => IntegrityErrorView::MissingPrimaryTiming(
                run@,
            ),
        }
    }
}

impl IntegrityErrorView {
    /// A violation that no pruning can mend: the indexing defect, and a
    /// field-local defect that should have been caught before.
    pub open spec fn is_fatal(self) -> bool {
        self is IndexingError || self is CheckFailed
    }
}

/// A complete, non-empty integrity report.
#[derive(Debug, PartialEq, Eq)]
pub struct IntegrityErrors {
    pub errors: Vec<IntegrityError>,
}

impl View for IntegrityErrors {
    type V = Seq<IntegrityErrorView>;

    open spec fn view(&self) -> Seq<IntegrityErrorView> {
        views(self.errors@)
    }
}

/// A report with a violation that no pruning can mend.
pub open spec fn is_fatal(errors: Seq<IntegrityErrorView>) -> bool {
    exists|k: int| 0 <= k < errors.len() && (#[trigger] errors[k]).is_fatal()
}

impl IntegrityError {
    /// Whether no pruning can mend this violation.
    pub fn is_fatal(&self) -> (fatal: bool)
        ensures
            fatal == self@.is_fatal(),
    {
        match self {
            IntegrityError::IndexingError => true,
            IntegrityError::CheckFailed { .. } => true,
            _ => false,
        }
    }
}

impl IntegrityErrors {
    /// Whether the report holds a violation that no pruning can mend.
    pub fn is_fatal(&self) -> (fatal: bool)
        ensures
            fatal == is_fatal(self@),
    {
        let mut k: usize = 0;
        while k < self.errors.len()
            invariant
                k <= self.errors.len(),
                forall|j: int| 0 <= j < k ==> !(#[trigger] self@[j]).is_fatal(),
            decreases self.errors.len() - k,
        {
            if self.errors[k].is_fatal() {
                assert(self@[k as int].is_fatal());
                return true;
            }
            k += 1;
        }
        false
    }
}

/// What `each` yields at the positions below `n`, joined in order.
pub open spec fn gather<B>(each: spec_fn(int) -> Seq<B>, n: nat) -> Seq<B>
    decreases n,
{
    if n == 0 {
        Seq::empty()
    } else {
        gather(each, (n - 1) as nat) + each(n - 1)
    }
}

/// Nothing is gathered exactly where `each` yields nothing at any position.
pub proof fn lemma_gather_empty<B>(each: spec_fn(int) -> Seq<B>, n: nat)
    ensures
        gather(each, n).len() == 0 <==> forall|i: int| 0 <= i < n ==> (#[trigger] each(i)).len() == 0,
    decreases n,
{
    if n > 0 {
        lemma_gather_empty(each, (n - 1) as nat);
        if gather(each, n).len() == 0 {
            assert forall|i: int| 0 <= i < n implies (#[trigger] each(i)).len() == 0 by {
                if i < n - 1 {
                }
            }
        }
    }
}

/// Where something is gathered, some position yields something, and what
/// it yields first is among what is gathered.
pub proof fn lemma_gather_witness<B>(each: spec_fn(int) -> Seq<B>, n: nat) -> (at: int)
    requires
        gather(each, n).len() > 0,
    ensures
        0 <= at < n,
        each(at).len() > 0,
        gather(each, n).contains(each(at)[0]),
    decreases n,
{
    let earlier = gather(each, (n - 1) as nat);
    if earlier.len() > 0 {
        let at = lemma_gather_witness(each, (n - 1) as nat);
        let k = choose|k: int| 0 <= k < earlier.len() && earlier[k] == each(at)[0];
        assert(gather(each, n)[k] == each(at)[0]);
        at
    } else {
        assert(gather(each, n)[earlier.len() as int] == each(n - 1)[0]);
        n - 1
    }
}

/// The report on a record whose field-local defects are `errors`.
pub open spec fn check_failure(errors: Seq<FieldError>, source: AnyModelView) -> Seq<
    IntegrityErrorView,
> {
    if errors.len() > 0 {
        seq![IntegrityErrorView::CheckFailed { errors, source }]
    } else {
        Seq::empty()
    }
}

/// The report on the field-local defects of the run at each position.
pub open spec fn run_checks(t: TablesView) -> spec_fn(int) -> Seq<IntegrityErrorView> {
    |i: int| check_failure(t.runs[i].field_errors(), AnyModelView::Run(t.runs[i]))
}

/// The report on the field-local defects of the user at each position.
pub open spec fn user_checks(t: TablesView) -> spec_fn(int) -> Seq<IntegrityErrorView> {
    |i: int| check_failure(t.users[i].field_errors(), AnyModelView::User(t.users[i]))
}

/// The report on the field-local defects of the game at each position.
pub open spec fn game_checks(t: TablesView) -> spec_fn(int) -> Seq<IntegrityErrorView> {
    |i: int| check_failure(t.games[i].field_errors(), AnyModelView::Game(t.games[i]))
}

/// The report on the field-local defects of the category at each position.
pub open spec fn category_checks(t: TablesView) -> spec_fn(int) -> Seq<IntegrityErrorView> {
    |i: int|
        check_failure(t.categories[i].field_errors(), AnyModelView::Category(t.categories[i]))
}

/// The report on the field-local defects of the level at each position.
pub open spec fn level_checks(t: TablesView) -> spec_fn(int) -> Seq<IntegrityErrorView> {
    |i: int| check_failure(t.levels[i].field_errors(), AnyModelView::Level(t.levels[i]))
}

/// The records with field-local defects: runs, users, games, categories and
/// levels, each kind in table order.
pub open spec fn field_check_errors(t: TablesView) -> Seq<IntegrityErrorView> {
    gather(run_checks(t), t.runs.len()) + gather(user_checks(t), t.users.len()) + gather(
        game_checks(t),
        t.games.len(),
    ) + gather(category_checks(t), t.categories.len()) + gather(level_checks(t), t.levels.len())
}

/// The report on a foreign key of `source`, where its target is `absent`.
pub open spec fn missing(
    absent: bool,
    target_type: NodeType,
    target_id: u64,
    foreign_key_field: ForeignKeyField,
    source: AnyModelView,
) -> Seq<IntegrityErrorView> {
    if absent {
        seq![
            IntegrityErrorView::ForeignKeyMissing {
                target_type,
                target_id,
                foreign_key_field,
                source,
            },
        ]
    } else {
        Seq::empty()
    }
}

/// The report on the user of the player at each position of a run: a
/// guest refers to nobody.
pub open spec fn player_references(t: TablesView, run: RunView) -> spec_fn(int) -> Seq<
    IntegrityErrorView,
> {
    |p: int|
        match run.players[p] {
            RunPlayerView::UserId(id) => missing(
                !t.has_user(id),
                NodeType::User,
                id,
                ForeignKeyField::PlayerUserId,
                AnyModelView::Run(run),
            ),
            RunPlayerView::GuestName(_) => Seq::empty(),
        }
}

/// The dangling foreign keys of one run: game, category, level, then the
/// players in order. Each is reported against the run itself.
pub open spec fn run_reference_errors(t: TablesView, run: RunView) -> Seq<IntegrityErrorView> {
    missing(
        !t.has_game(run.game_id),
        NodeType::Game,
        run.game_id,
        ForeignKeyField::GameId,
        AnyModelView::Run(run),
    ) + missing(
        !t.has_category(run.category_id),
        NodeType::Category,
        run.category_id,
        ForeignKeyField::CategoryId,
        AnyModelView::Run(run),
    ) + (match run.level_id {
        Some(level_id) => missing(
            !t.has_level(level_id),
            NodeType::Level,
            level_id,
            ForeignKeyField::LevelId,
            AnyModelView::Run(run),
        ),
        None => Seq::empty(),
    }) + gather(player_references(t, run), run.players.len())
}

/// The report on the foreign keys of the run at each position.
pub open spec fn run_references(t: TablesView) -> spec_fn(int) -> Seq<IntegrityErrorView> {
    |i: int| run_reference_errors(t, t.runs[i])
}

/// The report on the game of the category at each position.
pub open spec fn category_references(t: TablesView) -> spec_fn(int) -> Seq<IntegrityErrorView> {
    |i: int|
        missing(
            !t.has_game(t.categories[i].game_id),
            NodeType::Game,
            t.categories[i].game_id,
            ForeignKeyField::GameId,
            AnyModelView::Category(t.categories[i]),
        )
}

/// The report on the game of the level at each position.
pub open spec fn level_references(t: TablesView) -> spec_fn(int) -> Seq<IntegrityErrorView> {
    |i: int|
        missing(
            !t.has_game(t.levels[i].game_id),
            NodeType::Game,
            t.levels[i].game_id,
            ForeignKeyField::GameId,
            AnyModelView::Level(t.levels[i]),
        )
}

/// The dangling foreign keys: of the runs, of the categories and of the
/// levels, each kind in table order.
pub open spec fn referential_errors(t: TablesView) -> Seq<IntegrityErrorView> {
    gather(run_references(t), t.runs.len()) + gather(category_references(t), t.categories.len())
        + gather(level_references(t), t.levels.len())
}

/// The report on the slug at position `first` of `slugs`: a collision where
/// `first` is the slug's first position and it has others.
pub open spec fn collision(
    slugs: Seq<Seq<char>>,
    first: int,
    target_type: NodeType,
    sources: AnyModelVecView,
) -> Seq<IntegrityErrorView> {
    if group_at(slugs, first).len() > 1 {
        seq![IntegrityErrorView::NonUniqueSlug { target_type, slug: slugs[first], sources }]
    } else {
        Seq::empty()
    }
}

/// The report on the slug of the game at each position.
pub open spec fn game_collisions(t: TablesView) -> spec_fn(int) -> Seq<IntegrityErrorView> {
    |first: int|
        collision(
            t.game_slugs(),
            first,
            NodeType::Game,
            AnyModelVecView::Games(select(t.games, group_at(t.game_slugs(), first))),
        )
}

/// The report on the slug of the user at each position.
pub open spec fn user_collisions(t: TablesView) -> spec_fn(int) -> Seq<IntegrityErrorView> {
    |first: int|
        collision(
            t.user_slugs(),
            first,
            NodeType::User,
            AnyModelVecView::Users(select(t.users, group_at(t.user_slugs(), first))),
        )
}

/// The report on the slug of the category at each position.
pub open spec fn category_collisions(t: TablesView) -> spec_fn(int) -> Seq<IntegrityErrorView> {
    |first: int|
        collision(
            t.category_slugs(),
            first,
            NodeType::Category,
            AnyModelVecView::Categories(select(t.categories, group_at(t.category_slugs(), first))),
        )
}

/// The report on the slug of the level at each position.
pub open spec fn level_collisions(t: TablesView) -> spec_fn(int) -> Seq<IntegrityErrorView> {
    |first: int|
        collision(
            t.level_slugs(),
            first,
            NodeType::Level,
            AnyModelVecView::Levels(select(t.levels, group_at(t.level_slugs(), first))),
        )
}

/// The shared slugs: of the games, users, categories and levels. Within a
/// kind, collisions come in the order of each slug's first record, and each
/// lists all records with the slug in table order.
pub open spec fn uniqueness_errors(t: TablesView) -> Seq<IntegrityErrorView> {
    gather(game_collisions(t), t.games.len()) + gather(user_collisions(t), t.users.len()) + gather(
        category_collisions(t),
        t.categories.len(),
    ) + gather(level_collisions(t), t.levels.len())
}

/// The report on the primary timing of the run at each position.
pub open spec fn missing_timings(t: TablesView) -> spec_fn(int) -> Seq<IntegrityErrorView> {
    |i: int|
        if t.run_has_primary_timing(t.runs[i]) {
            Seq::empty()
        } else {
            seq![IntegrityErrorView::MissingPrimaryTiming(t.runs[i])]
        }
}

/// The runs, in table order, whose game is known and whose durations lack
/// the game's primary timing method.
pub open spec fn domain_errors(t: TablesView) -> Seq<IntegrityErrorView> {
    gather(missing_timings(t), t.runs.len())
}

/// The complete integrity report on `t`.
pub open spec fn integrity_errors(t: TablesView) -> Seq<IntegrityErrorView> {
    if !t.ids_distinct() {
        seq![IntegrityErrorView::IndexingError]
    } else {
        field_check_errors(t) + referential_errors(t) + uniqueness_errors(t) + domain_errors(t)
    }
}

/// No record is reported for a field-local defect exactly where no record
/// has one.
pub proof fn lemma_field_checks(t: TablesView)
    ensures
        field_check_errors(t).len() == 0 <==> t.fields_valid(),
{
    lemma_gather_empty(run_checks(t), t.runs.len());
    lemma_gather_empty(user_checks(t), t.users.len());
    lemma_gather_empty(game_checks(t), t.games.len());
    lemma_gather_empty(category_checks(t), t.categories.len());
    lemma_gather_empty(level_checks(t), t.levels.len());
    if t.fields_valid() {
        assert forall|i: int| 0 <= i < t.runs.len() implies (#[trigger] run_checks(t)(i)).len()
            == 0 by {
            assert(t.runs[i].field_errors().len() == 0);
        }
        assert forall|i: int| 0 <= i < t.users.len() implies (#[trigger] user_checks(t)(i)).len()
            == 0 by {
            assert(t.users[i].field_errors().len() == 0);
        }
        assert forall|i: int| 0 <= i < t.games.len() implies (#[trigger] game_checks(t)(i)).len()
            == 0 by {
            assert(t.games[i].field_errors().len() == 0);
        }
        assert forall|i: int| 0 <= i < t.categories.len() implies (#[trigger] category_checks(t)(
            i,
        )).len() == 0 by {
            assert(t.categories[i].field_errors().len() == 0);
        }
        assert forall|i: int| 0 <= i < t.levels.len() implies (#[trigger] level_checks(t)(i)).len()
            == 0 by {
            assert(t.levels[i].field_errors().len() == 0);
        }
    }
    if field_check_errors(t).len() == 0 {
        assert forall|i: int| 0 <= i < t.runs.len() implies (#[trigger] t.runs[i]).field_errors().len()
            == 0 by {
            assert(run_checks(t)(i).len() == 0);
        }
        assert forall|i: int| 0 <= i < t.users.len() implies (
        #[trigger] t.users[i]).field_errors().len() == 0 by {
            assert(user_checks(t)(i).len() == 0);
        }
        assert forall|i: int| 0 <= i < t.games.len() implies (
        #[trigger] t.games[i]).field_errors().len() == 0 by {
            assert(game_checks(t)(i).len() == 0);
        }
        assert forall|i: int| 0 <= i < t.categories.len() implies (
        #[trigger] t.categories[i]).field_errors().len() == 0 by {
            assert(category_checks(t)(i).len() == 0);
        }
        assert forall|i: int| 0 <= i < t.levels.len() implies (
        #[trigger] t.levels[i]).field_errors().len() == 0 by {
            assert(level_checks(t)(i).len() == 0);
        }
    }
}

/// A run is reported for no dangling key exactly where all its keys resolve.
pub proof fn lemma_run_references(t: TablesView, run: RunView)
    ensures
        run_reference_errors(t, run).len() == 0 <==> t.run_resolves(run),
{
    lemma_gather_empty(player_references(t, run), run.players.len());
    if t.run_resolves(run) {
        assert forall|p: int| 0 <= p < run.players.len() implies (#[trigger] player_references(
            t,
            run,
        )(p)).len() == 0 by {
            assert(t.player_resolves(run.players[p]));
        }
    }
    if run_reference_errors(t, run).len() == 0 {
        assert forall|p: int| 0 <= p < run.players.len() implies t.player_resolves(
            #[trigger] run.players[p],
        ) by {
            assert(player_references(t, run)(p).len() == 0);
        }
    }
}

/// No dangling key is reported exactly where every foreign key resolves.
pub proof fn lemma_references(t: TablesView)
    ensures
        referential_errors(t).len() == 0 <==> t.references_resolve(),
{
    lemma_gather_empty(run_references(t), t.runs.len());
    lemma_gather_empty(category_references(t), t.categories.len());
    lemma_gather_empty(level_references(t), t.levels.len());
    if t.references_resolve() {
        assert forall|i: int| 0 <= i < t.runs.len() implies (#[trigger] run_references(t)(i)).len()
            == 0 by {
            assert(t.run_resolves(t.runs[i]));
            lemma_run_references(t, t.runs[i]);
        }
        assert forall|i: int| 0 <= i < t.categories.len() implies (#[trigger] category_references(
            t,
        )(i)).len() == 0 by {
            assert(t.has_game(t.categories[i].game_id));
        }
        assert forall|i: int| 0 <= i < t.levels.len() implies (#[trigger] level_references(t)(
            i,
        )).len() == 0 by {
            assert(t.has_game(t.levels[i].game_id));
        }
    }
    if referential_errors(t).len() == 0 {
        assert forall|i: int| 0 <= i < t.runs.len() implies t.run_resolves(
            #[trigger] t.runs[i],
        ) by {
            assert(run_references(t)(i).len() == 0);
            lemma_run_references(t, t.runs[i]);
        }
        assert forall|i: int| 0 <= i < t.categories.len() implies t.has_game(
            (#[trigger] t.categories[i]).game_id,
        ) by {
            assert(category_references(t)(i).len() == 0);
        }
        assert forall|i: int| 0 <= i < t.levels.len() implies t.has_game(
            (#[trigger] t.levels[i]).game_id,
        ) by {
            assert(level_references(t)(i).len() == 0);
        }
    }
}

/// No collision is reported for a column of slugs exactly where no slug
/// stands twice in it.
pub proof fn lemma_collisions(
    slugs: Seq<Seq<char>>,
    each: spec_fn(int) -> Seq<IntegrityErrorView>,
)
    requires
        slugs.len() <= usize::MAX,
        forall|first: int|
            0 <= first < slugs.len() ==> ((#[trigger] each(first)).len() == 0 <==> group_at(
                slugs,
                first,
            ).len() <= 1),
    ensures
        gather(each, slugs.len()).len() == 0 <==> crate::data::index::distinct(slugs),
{
    lemma_gather_empty(each, slugs.len());
    lemma_distinct_groups(slugs);
    if gather(each, slugs.len()).len() == 0 {
        assert forall|first: int| 0 <= first < slugs.len() implies (#[trigger] group_at(
            slugs,
            first,
        )).len() <= 1 by {
            assert(each(first).len() == 0);
        }
    }
}

/// No collision is reported exactly where, within each kind, no two records
/// share a slug.
pub proof fn lemma_uniqueness(t: TablesView)
    requires
        t.bounded(),
    ensures
        uniqueness_errors(t).len() == 0 <==> t.slugs_distinct(),
{
    lemma_collisions(t.game_slugs(), game_collisions(t));
    lemma_collisions(t.user_slugs(), user_collisions(t));
    lemma_collisions(t.category_slugs(), category_collisions(t));
    lemma_collisions(t.level_slugs(), level_collisions(t));
}

/// No run is reported for its timing exactly where every run has a duration
/// under its game's primary timing method.
pub proof fn lemma_domain(t: TablesView)
    ensures
        domain_errors(t).len() == 0 <==> t.primary_timings_present(),
{
    lemma_gather_empty(missing_timings(t), t.runs.len());
    if t.primary_timings_present() {
        assert forall|i: int| 0 <= i < t.runs.len() implies (#[trigger] missing_timings(t)(i)).len()
            == 0 by {
            assert(t.run_has_primary_timing(t.runs[i]));
        }
    }
    if domain_errors(t).len() == 0 {
        assert forall|i: int| 0 <= i < t.runs.len() implies t.run_has_primary_timing(
            #[trigger] t.runs[i],
        ) by {
            assert(missing_timings(t)(i).len() == 0);
        }
    }
}

/// The report is empty exactly for consistent tables.
pub proof fn lemma_clean_report(t: TablesView)
    requires
        t.bounded(),
    ensures
        integrity_errors(t).len() == 0 <==> t.consistent(),
{
    lemma_field_checks(t);
    lemma_references(t);
    lemma_uniqueness(t);
    lemma_domain(t);
}

} // verus!
