//! The five record kinds, with shared data referenced by id.
//!
//! Ids are 64-bit and never zero. Creation times and dates are held as plain
//! integers, so that records order and compare without a calendar.
use vstd::prelude::*;
use crate::utils::{base36, base36_text, src_slug_text, src_slugify};

verus! {

/// Every id is a 64-bit integer other than zero.
pub type Id64 = u64;

/// An instant: whole seconds since the Unix epoch and the nanoseconds past
/// them. Instants order by seconds, then by nanoseconds.
#[derive(Debug, Clone, Copy, PartialEq, Eq, Structural, Hash, PartialOrd, Ord)]
pub struct Timestamp {
    pub secs: i64,
    pub nanos: u32,
}

/// A calendar day, counted in days from the first day of year 1.
#[derive(Debug, Clone, Copy, PartialEq, Eq, Structural, Hash, PartialOrd, Ord)]
pub struct Date {
    pub days_from_ce: i32,
}

/// A field-local defect of one record.
#[derive(Debug, Clone, Copy, PartialEq, Eq, Structural, Hash, PartialOrd, Ord)]
pub enum FieldError {
    /// The record's own id is zero.
    ZeroId,
    /// The id of the game referred to is zero.
    ZeroGameId,
    /// The id of the category referred to is zero.
    ZeroCategoryId,
    /// The id of the level referred to is zero.
    ZeroLevelId,
    /// The id of a player's user is zero.
    ZeroUserId,
    /// The slug is empty.
    EmptySlug,
    /// A game's slug on the upstream site is empty.
    EmptySrcSlug,
    /// The name is empty.
    EmptyName,
    /// A run holds no time under any timing method.
    AllTimesNone,
    /// A guest player's name is empty.
    EmptyGuestName,
}

/// What `validate` owes for a record whose defects are `errors`: `Ok` exactly
/// when there are none, and otherwise all of them, in order.
pub open spec fn validation_outcome(
    errors: Seq<FieldError>,
    outcome: Result<(), Vec<FieldError>>,
) -> bool {
    match outcome {
        Ok(_) => errors.len() == 0,
        Err(found) => found@ == errors && errors.len() > 0,
    }
}

/// `seq![error]` where `defect` holds, and nothing where it does not.
pub open spec fn error_if(defect: bool, error: FieldError) -> Seq<FieldError> {
    if defect {
        seq![error]
    } else {
        Seq::empty()
    }
}

fn finish_validation(found: Vec<FieldError>) -> (outcome: Result<(), Vec<FieldError>>)
    ensures
        validation_outcome(found@, outcome),
{
    if found.len() == 0 {
        Ok(())
    } else {
        Err(found)
    }
}

fn note_if(found: &mut Vec<FieldError>, defect: bool, error: FieldError)
    ensures
        final(found)@ == old(found)@ + error_if(defect, error),
{
    if defect {
        found.push(error);
    }
    assert(found@ =~= old(found)@ + error_if(defect, error));
}

/// Whether a category's runs cover a whole game or a single level.
#[derive(Debug, Clone, Copy, PartialEq, Eq, Structural, Hash, PartialOrd, Ord)]
pub enum CategoryType {
    PerGame,
    PerLevel,
}

/// How a run's duration was measured.
#[derive(Debug, Clone, Copy, PartialEq, Eq, Structural, Hash, PartialOrd, Ord)]
#[allow(non_camel_case_types)]
pub enum TimingMethod {
    IGT,
    RTA,
    RTA_NL,
}

/// A run's durations in milliseconds, one per timing method, each optional.
#[derive(Debug, Clone, Copy, PartialEq, Eq, Structural, Hash, PartialOrd, Ord)]
pub struct RunTimesMs {
    pub igt: Option<u64>,
    pub rta: Option<u64>,
    pub rta_nl: Option<u64>,
}

impl RunTimesMs {
    /// The duration under `timing`, if the run has one.
    pub open spec fn spec_get(&self, timing: TimingMethod) -> Option<u64> {
        match timing {
            TimingMethod::IGT => self.igt,
            TimingMethod::RTA => self.rta,
            TimingMethod::RTA_NL => self.rta_nl,
        }
    }

    pub fn get(&self, timing: &TimingMethod) -> (time: Option<u64>)
        ensures
            time == self.spec_get(*timing),
    {
        match timing {
            TimingMethod::IGT => self.igt,
            TimingMethod::RTA => self.rta,
            TimingMethod::RTA_NL => self.rta_nl,
        }
    }

    /// The record's defect: all three durations are absent.
    pub open spec fn field_errors(&self) -> Seq<FieldError> {
        error_if(self.igt is None && self.rta is None && self.rta_nl is None, FieldError::AllTimesNone)
    }

    /// Checks that at least one duration is present.
    pub fn validate(&self) -> (outcome: Result<(), Vec<FieldError>>)
        ensures
            validation_outcome(self.field_errors(), outcome),
    {
        let mut found: Vec<FieldError> = Vec::new();
        note_if(
            &mut found,
            self.igt.is_none() && self.rta.is_none() && self.rta_nl.is_none(),
            FieldError::AllTimesNone,
        );
        finish_validation(found)
    }

    pub fn igt(&self) -> (igt: &Option<u64>)
        ensures
            *igt == self.igt,
    {
        &self.igt
    }

    pub fn rta(&self) -> (rta: &Option<u64>)
        ensures
            *rta == self.rta,
    {
        &self.rta
    }

    pub fn rta_nl(&self) -> (rta_nl: &Option<u64>)
        ensures
            *rta_nl == self.rta_nl,
    {
        &self.rta_nl
    }
}

/// One player of a run: a registered user, or a guest known only by name.
#[derive(Debug, PartialEq, Eq, Hash, PartialOrd, Ord)]
pub enum RunPlayer {
    UserId(Id64),
    GuestName(String),
}

/// What a `RunPlayer` stands for.
pub enum RunPlayerView {
    UserId(u64),
    GuestName(Seq<char>),
}

impl View for RunPlayer {
    type V = RunPlayerView;

    open spec fn view(&self) -> RunPlayerView {
        match self {
            RunPlayer::UserId(id) => RunPlayerView::UserId(*id),
            RunPlayer::GuestName(name) => RunPlayerView::GuestName(name@),
        }
    }
}

impl Clone for RunPlayer {
    fn clone(&self) -> (copy: Self)
        ensures
            copy@ == self@,
    {
        match self {
            RunPlayer::UserId(id) => RunPlayer::UserId(*id),
            RunPlayer::GuestName(name) => RunPlayer::GuestName(name.clone()),
        }
    }
}

impl RunPlayerView {
    /// The player's defects: a user id of zero, or an empty guest name.
    pub open spec fn field_errors(self) -> Seq<FieldError> {
        match self {
            RunPlayerView::UserId(id) => error_if(id == 0, FieldError::ZeroUserId),
            RunPlayerView::GuestName(name) => error_if(name.len() == 0, FieldError::EmptyGuestName),
        }
    }
}

impl RunPlayer {
    /// Checks that a user id is not zero and a guest name is not empty.
    pub fn validate(&self) -> (outcome: Result<(), Vec<FieldError>>)
        ensures
            validation_outcome(self@.field_errors(), outcome),
    {
        let mut found: Vec<FieldError> = Vec::new();
        match self {
            RunPlayer::UserId(id) => {
                note_if(&mut found, *id == 0, FieldError::ZeroUserId);
            },
            RunPlayer::GuestName(name) => {
                note_if(&mut found, name.as_str().is_empty(), FieldError::EmptyGuestName);
            },
        }
        finish_validation(found)
    }
}

/// A category of runs of one game.
#[derive(Debug, PartialEq, Eq, Hash, PartialOrd, Ord)]
pub struct Category {
    pub game_id: Id64,
    pub slug: String,
    pub name: String,
    pub id: Id64,
    pub per: CategoryType,
    pub rules: String,
}

/// What a `Category` stands for.
pub struct CategoryView {
    pub game_id: u64,
    pub slug: Seq<char>,
    pub name: Seq<char>,
    pub id: u64,
    pub per: CategoryType,
    pub rules: Seq<char>,
}

impl View for Category {
    type V = CategoryView;

    open spec fn view(&self) -> CategoryView {
        CategoryView {
            game_id: self.game_id,
            slug: self.slug@,
            name: self.name@,
            id: self.id,
            per: self.per,
            rules: self.rules@,
        }
    }
}

impl Clone for Category {
    fn clone(&self) -> (copy: Self)
        ensures
            copy@ == self@,
    {
        Category {
            game_id: self.game_id,
            slug: self.slug.clone(),
            name: self.name.clone(),
            id: self.id,
            per: self.per,
            rules: self.rules.clone(),
        }
    }
}

impl CategoryView {
    /// The category's defects, in the order of its fields.
    pub open spec fn field_errors(self) -> Seq<FieldError> {
        error_if(self.game_id == 0, FieldError::ZeroGameId) + error_if(
            self.slug.len() == 0,
            FieldError::EmptySlug,
        ) + error_if(self.name.len() == 0, FieldError::EmptyName) + error_if(
            self.id == 0,
            FieldError::ZeroId,
        )
    }
}

impl Category {
    /// Checks the ids for zero and the slug and name for emptiness.
    pub fn validate(&self) -> (outcome: Result<(), Vec<FieldError>>)
        ensures
            validation_outcome(self@.field_errors(), outcome),
    {
        let mut found: Vec<FieldError> = Vec::new();
        note_if(&mut found, self.game_id == 0, FieldError::ZeroGameId);
        note_if(&mut found, self.slug.as_str().is_empty(), FieldError::EmptySlug);
        note_if(&mut found, self.name.as_str().is_empty(), FieldError::EmptyName);
        note_if(&mut found, self.id == 0, FieldError::ZeroId);
        finish_validation(found)
    }

    /// This record's id as the upstream site writes it.
    pub fn src_id(&self) -> (text: String)
        ensures
            text@ == base36_text(self.id as nat),
    {
        base36(self.id)
    }

    /// This record's slug as the upstream site writes it.
    pub fn src_slug(&self) -> (slug: String)
        ensures
            slug@ == src_slug_text(self@.name, self@.name.len()),
    {
        src_slugify(self.name.as_str())
    }

    pub fn game_id(&self) -> (game_id: &Id64)
        ensures
            *game_id == self.game_id,
    {
        &self.game_id
    }

    pub fn slug(&self) -> (slug: &String)
        ensures
            *slug == self.slug,
    {
        &self.slug
    }

    pub fn name(&self) -> (name: &String)
        ensures
            *name == self.name,
    {
        &self.name
    }

    pub fn id(&self) -> (id: &Id64)
        ensures
            *id == self.id,
    {
        &self.id
    }

    pub fn per(&self) -> (per: &CategoryType)
        ensures
            *per == self.per,
    {
        &self.per
    }

    pub fn rules(&self) -> (rules: &String)
        ensures
            *rules == self.rules,
    {
        &self.rules
    }
}

/// A registered user.
#[derive(Debug, PartialEq, Eq, Hash, PartialOrd, Ord)]
pub struct User {
    pub created: Option<Timestamp>,
    pub slug: String,
    pub name: String,
    pub id: Id64,
}

/// What a `User` stands for.
pub struct UserView {
    pub created: Option<Timestamp>,
    pub slug: Seq<char>,
    pub name: Seq<char>,
    pub id: u64,
}

impl View for User {
    type V = UserView;

    open spec fn view(&self) -> UserView {
        UserView { created: self.created, slug: self.slug@, name: self.name@, id: self.id }
    }
}

impl Clone for User {
    fn clone(&self) -> (copy: Self)
        ensures
            copy@ == self@,
    {
        User {
            created: self.created,
            slug: self.slug.clone(),
            name: self.name.clone(),
            id: self.id,
        }
    }
}

impl UserView {
    /// The user's defects, in the order of its fields.
    pub open spec fn field_errors(self) -> Seq<FieldError> {
        error_if(self.slug.len() == 0, FieldError::EmptySlug) + error_if(
            self.name.len() == 0,
            FieldError::EmptyName,
        ) + error_if(self.id == 0, FieldError::ZeroId)
    }
}

impl User {
    /// Checks the id for zero and the slug and name for emptiness.
    pub fn validate(&self) -> (outcome: Result<(), Vec<FieldError>>)
        ensures
            validation_outcome(self@.field_errors(), outcome),
    {
        let mut found: Vec<FieldError> = Vec::new();
        note_if(&mut found, self.slug.as_str().is_empty(), FieldError::EmptySlug);
        note_if(&mut found, self.name.as_str().is_empty(), FieldError::EmptyName);
        note_if(&mut found, self.id == 0, FieldError::ZeroId);
        finish_validation(found)
    }

    /// This record's id as the upstream site writes it.
    pub fn src_id(&self) -> (text: String)
        ensures
            text@ == base36_text(self.id as nat),
    {
        base36(self.id)
    }

    /// This record's slug as the upstream site writes it.
    pub fn src_slug(&self) -> (slug: String)
        ensures
            slug@ == src_slug_text(self@.name, self@.name.len()),
    {
        src_slugify(self.name.as_str())
    }

    pub fn created(&self) -> (created: &Option<Timestamp>)
        ensures
            *created == self.created,
    {
        &self.created
    }

    pub fn slug(&self) -> (slug: &String)
        ensures
            *slug == self.slug,
    {
        &self.slug
    }

    pub fn name(&self) -> (name: &String)
        ensures
            *name == self.name,
    {
        &self.name
    }

    pub fn id(&self) -> (id: &Id64)
        ensures
            *id == self.id,
    {
        &self.id
    }
}

/// A game.
#[derive(Debug, PartialEq, Eq, Hash, PartialOrd, Ord)]
pub struct Game {
    pub id: Id64,
    pub created: Option<Timestamp>,
    pub slug: String,
    pub src_slug: String,
    pub name: String,
    pub primary_timing: TimingMethod,
}

/// What a `Game` stands for.
pub struct GameView {
    pub id: u64,
    pub created: Option<Timestamp>,
    pub slug: Seq<char>,
    pub src_slug: Seq<char>,
    pub name: Seq<char>,
    pub primary_timing: TimingMethod,
}

impl View for Game {
    type V = GameView;

    open spec fn view(&self) -> GameView {
        GameView {
            id: self.id,
            created: self.created,
            slug: self.slug@,
            src_slug: self.src_slug@,
            name: self.name@,
            primary_timing: self.primary_timing,
        }
    }
}

impl Clone for Game {
    fn clone(&self) -> (copy: Self)
        ensures
            copy@ == self@,
    {
        Game {
            id: self.id,
            created: self.created,
            slug: self.slug.clone(),
            src_slug: self.src_slug.clone(),
            name: self.name.clone(),
            primary_timing: self.primary_timing,
        }
    }
}

impl GameView {
    /// The game's defects, in the order of its fields.
    pub open spec fn field_errors(self) -> Seq<FieldError> {
        error_if(self.id == 0, FieldError::ZeroId) + error_if(
            self.slug.len() == 0,
            FieldError::EmptySlug,
        ) + error_if(self.src_slug.len() == 0, FieldError::EmptySrcSlug) + error_if(
            self.name.len() == 0,
            FieldError::EmptyName,
        )
    }
}

impl Game {
    /// Checks the id for zero and the slugs and name for emptiness.
    pub fn validate(&self) -> (outcome: Result<(), Vec<FieldError>>)
        ensures
            validation_outcome(self@.field_errors(), outcome),
    {
        let mut found: Vec<FieldError> = Vec::new();
        note_if(&mut found, self.id == 0, FieldError::ZeroId);
        note_if(&mut found, self.slug.as_str().is_empty(), FieldError::EmptySlug);
        note_if(&mut found, self.src_slug.as_str().is_empty(), FieldError::EmptySrcSlug);
        note_if(&mut found, self.name.as_str().is_empty(), FieldError::EmptyName);
        finish_validation(found)
    }

    /// This record's id as the upstream site writes it.
    pub fn src_id(&self) -> (text: String)
        ensures
            text@ == base36_text(self.id as nat),
    {
        base36(self.id)
    }

    pub fn id(&self) -> (id: &Id64)
        ensures
            *id == self.id,
    {
        &self.id
    }

    pub fn created(&self) -> (created: &Option<Timestamp>)
        ensures
            *created == self.created,
    {
        &self.created
    }

    pub fn slug(&self) -> (slug: &String)
        ensures
            *slug == self.slug,
    {
        &self.slug
    }

    pub fn src_slug(&self) -> (src_slug: &String)
        ensures
            *src_slug == self.src_slug,
    {
        &self.src_slug
    }

    pub fn name(&self) -> (name: &String)
        ensures
            *name == self.name,
    {
        &self.name
    }

    pub fn primary_timing(&self) -> (primary_timing: &TimingMethod)
        ensures
            *primary_timing == self.primary_timing,
    {
        &self.primary_timing
    }
}

/// A level of one game.
#[derive(Debug, PartialEq, Eq, Hash, PartialOrd, Ord)]
pub struct Level {
    pub game_id: Id64,
    pub id: Id64,
    pub slug: String,
    pub name: String,
    pub rules: String,
}

/// What a `Level` stands for.
pub struct LevelView {
    pub game_id: u64,
    pub id: u64,
    pub slug: Seq<char>,
    pub name: Seq<char>,
    pub rules: Seq<char>,
}

impl View for Level {
    type V = LevelView;

    open spec fn view(&self) -> LevelView {
        LevelView {
            game_id: self.game_id,
            id: self.id,
            slug: self.slug@,
            name: self.name@,
            rules: self.rules@,
        }
    }
}

impl Clone for Level {
    fn clone(&self) -> (copy: Self)
        ensures
            copy@ == self@,
    {
        Level {
            game_id: self.game_id,
            id: self.id,
            slug: self.slug.clone(),
            name: self.name.clone(),
            rules: self.rules.clone(),
        }
    }
}

impl LevelView {
    /// The level's defects, in the order of its fields.
    pub open spec fn field_errors(self) -> Seq<FieldError> {
        error_if(self.game_id == 0, FieldError::ZeroGameId) + error_if(
            self.id == 0,
            FieldError::ZeroId,
        ) + error_if(self.slug.len() == 0, FieldError::EmptySlug) + error_if(
            self.name.len() == 0,
            FieldError::EmptyName,
        )
    }
}

impl Level {
    /// Checks the ids for zero and the slug and name for emptiness.
    pub fn validate(&self) -> (outcome: Result<(), Vec<FieldError>>)
        ensures
            validation_outcome(self@.field_errors(), outcome),
    {
        let mut found: Vec<FieldError> = Vec::new();
        note_if(&mut found, self.game_id == 0, FieldError::ZeroGameId);
        note_if(&mut found, self.id == 0, FieldError::ZeroId);
        note_if(&mut found, self.slug.as_str().is_empty(), FieldError::EmptySlug);
        note_if(&mut found, self.name.as_str().is_empty(), FieldError::EmptyName);
        finish_validation(found)
    }

    /// This record's id as the upstream site writes it.
    pub fn src_id(&self) -> (text: String)
        ensures
            text@ == base36_text(self.id as nat),
    {
        base36(self.id)
    }

    /// This record's slug as the upstream site writes it.
    pub fn src_slug(&self) -> (slug: String)
        ensures
            slug@ == src_slug_text(self@.name, self@.name.len()),
    {
        src_slugify(self.name.as_str())
    }

    pub fn game_id(&self) -> (game_id: &Id64)
        ensures
            *game_id == self.game_id,
    {
        &self.game_id
    }

    pub fn id(&self) -> (id: &Id64)
        ensures
            *id == self.id,
    {
        &self.id
    }

    pub fn slug(&self) -> (slug: &String)
        ensures
            *slug == self.slug,
    {
        &self.slug
    }

    pub fn name(&self) -> (name: &String)
        ensures
            *name == self.name,
    {
        &self.name
    }

    pub fn rules(&self) -> (rules: &String)
        ensures
            *rules == self.rules,
    {
        &self.rules
    }
}

/// The views of a batch of records, in order.
pub open spec fn views<T: View>(items: Seq<T>) -> Seq<T::V> {
    items.map_values(|item: T| item@)
}

/// The views of a batch with one record more.
pub proof fn lemma_views_push<T: View>(items: Seq<T>, item: T)
    ensures
        views(items.push(item)) == views(items).push(item@),
{
    assert(views(items.push(item)) =~= views(items).push(item@));
}

/// The defects of the first `n` players, in order.
pub open spec fn player_errors(players: Seq<RunPlayerView>, n: nat) -> Seq<FieldError>
    decreases n,
{
    if n == 0 || n > players.len() {
        Seq::empty()
    } else {
        player_errors(players, (n - 1) as nat) + players[n - 1].field_errors()
    }
}

/// A run of a game in one of its categories, and on one of its levels where
/// the category is per level.
#[derive(Debug, PartialEq, Eq, Hash, PartialOrd, Ord)]
pub struct Run {
    pub game_id: Id64,
    pub category_id: Id64,
    pub level_id: Option<Id64>,
    pub id: Id64,
    pub created: Option<Timestamp>,
    pub date: Option<Date>,
    pub times_ms: RunTimesMs,
    pub players: Vec<RunPlayer>,
}

/// What a `Run` stands for.
pub struct RunView {
    pub game_id: u64,
    pub category_id: u64,
    pub level_id: Option<u64>,
    pub id: u64,
    pub created: Option<Timestamp>,
    pub date: Option<Date>,
    pub times_ms: RunTimesMs,
    pub players: Seq<RunPlayerView>,
}

impl View for Run {
    type V = RunView;

    open spec fn view(&self) -> RunView {
        RunView {
            game_id: self.game_id,
            category_id: self.category_id,
            level_id: self.level_id,
            id: self.id,
            created: self.created,
            date: self.date,
            times_ms: self.times_ms,
            players: views(self.players@),
        }
    }
}

impl Clone for Run {
    fn clone(&self) -> (copy: Self)
        ensures
            copy@ == self@,
    {
        let players = self.players.clone();
        assert(views(players@) =~= views(self.players@));
        Run {
            game_id: self.game_id,
            category_id: self.category_id,
            level_id: self.level_id,
            id: self.id,
            created: self.created,
            date: self.date,
            times_ms: self.times_ms,
            players,
        }
    }
}

impl RunView {
    /// The run's defects, in the order of its fields; those of its players
    /// come last, player by player.
    pub open spec fn field_errors(self) -> Seq<FieldError> {
        error_if(self.game_id == 0, FieldError::ZeroGameId) + error_if(
            self.category_id == 0,
            FieldError::ZeroCategoryId,
        ) + error_if(self.level_id == Some(0u64), FieldError::ZeroLevelId) + error_if(
            self.id == 0,
            FieldError::ZeroId,
        ) + self.times_ms.field_errors() + player_errors(self.players, self.players.len())
    }
}

impl Run {
    /// Checks the ids for zero, the durations for at least one value, and
    /// every player.
    pub fn validate(&self) -> (outcome: Result<(), Vec<FieldError>>)
        ensures
            validation_outcome(self@.field_errors(), outcome),
    {
        let mut found: Vec<FieldError> = Vec::new();
        note_if(&mut found, self.game_id == 0, FieldError::ZeroGameId);
        note_if(&mut found, self.category_id == 0, FieldError::ZeroCategoryId);
        let level_is_zero = match self.level_id {
            Some(level_id) => level_id == 0,
            None => false,
        };
        note_if(&mut found, level_is_zero, FieldError::ZeroLevelId);
        note_if(&mut found, self.id == 0, FieldError::ZeroId);
        note_if(
            &mut found,
            self.times_ms.igt.is_none() && self.times_ms.rta.is_none()
                && self.times_ms.rta_nl.is_none(),
            FieldError::AllTimesNone,
        );
        let ghost fields = found@;
        let mut i: usize = 0;
        while i < self.players.len()
            invariant
                i <= self.players.len(),
                found@ == fields + player_errors(self@.players, i as nat),
            decreases self.players.len() - i,
        {
            match &self.players[i] {
                RunPlayer::UserId(id) => {
                    note_if(&mut found, *id == 0, FieldError::ZeroUserId);
                },
                RunPlayer::GuestName(name) => {
                    note_if(&mut found, name.as_str().is_empty(), FieldError::EmptyGuestName);
                },
            }
            i += 1;
        }
        finish_validation(found)
    }

    /// This record's id as the upstream site writes it.
    pub fn src_id(&self) -> (text: String)
        ensures
            text@ == base36_text(self.id as nat),
    {
        base36(self.id)
    }

    pub fn game_id(&self) -> (game_id: &Id64)
        ensures
            *game_id == self.game_id,
    {
        &self.game_id
    }

    pub fn category_id(&self) -> (category_id: &Id64)
        ensures
            *category_id == self.category_id,
    {
        &self.category_id
    }

    pub fn level_id(&self) -> (level_id: &Option<Id64>)
        ensures
            *level_id == self.level_id,
    {
        &self.level_id
    }

    pub fn id(&self) -> (id: &Id64)
        ensures
            *id == self.id,
    {
        &self.id
    }

    pub fn created(&self) -> (created: &Option<Timestamp>)
        ensures
            *created == self.created,
    {
        &self.created
    }

    pub fn date(&self) -> (date: &Option<Date>)
        ensures
            *date == self.date,
    {
        &self.date
    }

    pub fn times_ms(&self) -> (times_ms: &RunTimesMs)
        ensures
            *times_ms == self.times_ms,
    {
        &self.times_ms
    }

    pub fn players(&self) -> (players: &Vec<RunPlayer>)
        ensures
            *players == self.players,
    {
        &self.players
    }
}

} // verus!
