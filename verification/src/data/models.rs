//! One type for a record of any kind, and one for a batch of records of one
//! kind, so that code can report on "some record" without naming its kind.
use vstd::prelude::*;
use crate::data::graphql::global_id::NodeType;
use crate::data::types::{
    views, Category, CategoryView, Game, GameView, Id64, Level, LevelView, Run, RunView,
    Timestamp, User, UserView,
};

verus! {

/// A record that the store holds: it has an id, and may have a creation
/// time.
pub trait Model: Sized {
    spec fn spec_id(&self) -> u64;

    spec fn spec_created(&self) -> Option<Timestamp>;

    fn id(&self) -> (id: Id64)
        ensures
            id == self.spec_id(),
    ;

    fn created(&self) -> (created: Option<Timestamp>)
        ensures
            created == self.spec_created(),
    ;
}

impl Model for Run {
    open spec fn spec_id(&self) -> u64 {
        self.id
    }

    open spec fn spec_created(&self) -> Option<Timestamp> {
        self.created
    }

    fn id(&self) -> (id: Id64) {
        self.id
    }

    fn created(&self) -> (created: Option<Timestamp>) {
        self.created
    }
}

impl Model for User {
    open spec fn spec_id(&self) -> u64 {
        self.id
    }

    open spec fn spec_created(&self) -> Option<Timestamp> {
        self.created
    }

    fn id(&self) -> (id: Id64) {
        self.id
    }

    fn created(&self) -> (created: Option<Timestamp>) {
        self.created
    }
}

impl Model for Game {
    open spec fn spec_id(&self) -> u64 {
        self.id
    }

    open spec fn spec_created(&self) -> Option<Timestamp> {
        self.created
    }

    fn id(&self) -> (id: Id64) {
        self.id
    }

    fn created(&self) -> (created: Option<Timestamp>) {
        self.created
    }
}

impl Model for Category {
    open spec fn spec_id(&self) -> u64 {
        self.id
    }

    open spec fn spec_created(&self) -> Option<Timestamp> {
        None
    }

    fn id(&self) -> (id: Id64) {
        self.id
    }

    fn created(&self) -> (created: Option<Timestamp>) {
        None
    }
}

impl Model for Level {
    open spec fn spec_id(&self) -> u64 {
        self.id
    }

    open spec fn spec_created(&self) -> Option<Timestamp> {
        None
    }

    fn id(&self) -> (id: Id64) {
        self.id
    }

    fn created(&self) -> (created: Option<Timestamp>) {
        None
    }
}

/// A record of any kind.
#[derive(Debug, PartialEq, Eq, Hash, PartialOrd, Ord)]
pub enum AnyModel {
    Run(Run),
    User(User),
    Game(Game),
    Category(Category),
    Level(Level),
}

/// What an `AnyModel` stands for.
pub enum AnyModelView {
    Run(RunView),
    User(UserView),
    Game(GameView),
    Category(CategoryView),
    Level(LevelView),
}

impl AnyModelView {
    /// The record's kind.
    pub open spec fn kind(self) -> NodeType {
        match self {
            AnyModelView::Run(_) => NodeType::Run,
            AnyModelView::User(_) => NodeType::User,
            AnyModelView::Game(_) => NodeType::Game,
            AnyModelView::Category(_) => NodeType::Category,
            AnyModelView::Level(_) => NodeType::Level,
        }
    }

    /// The record's id.
    pub open spec fn id(self) -> u64 {
        match self {
            AnyModelView::Run(run) => run.id,
            AnyModelView::User(user) => user.id,
            AnyModelView::Game(game) => game.id,
            AnyModelView::Category(category) => category.id,
            AnyModelView::Level(level) => level.id,
        }
    }

    /// The record's creation time; categories and levels have none.
    pub open spec fn created(self) -> Option<Timestamp> {
        match self {
            AnyModelView::Run(run) => run.created,
            AnyModelView::User(user) => user.created,
            AnyModelView::Game(game) => game.created,
            AnyModelView::Category(_) => None,
            AnyModelView::Level(_) => None,
        }
    }
}

impl View for AnyModel {
    type V = AnyModelView;

    open spec fn view(&self) -> AnyModelView {
        match self {
            AnyModel::Run(run) => AnyModelView::Run(run@),
            AnyModel::User(user) => AnyModelView::User(user@),
            AnyModel::Game(game) => AnyModelView::Game(game@),
            AnyModel::Category(category) => AnyModelView::Category(category@),
            AnyModel::Level(level) => AnyModelView::Level(level@),
        }
    }
}

impl Clone for AnyModel {
    fn clone(&self) -> (copy: Self)
        ensures
            copy@ == self@,
    {
        match self {
            AnyModel::Run(run) => AnyModel::Run(run.clone()),
            AnyModel::User(user) => AnyModel::User(user.clone()),
            AnyModel::Game(game) => AnyModel::Game(game.clone()),
            AnyModel::Category(category) => AnyModel::Category(category.clone()),
            AnyModel::Level(level) => AnyModel::Level(level.clone()),
        }
    }
}

impl Model for AnyModel {
    open spec fn spec_id(&self) -> u64 {
        self@.id()
    }

    open spec fn spec_created(&self) -> Option<Timestamp> {
        self@.created()
    }

    fn id(&self) -> (id: Id64) {
        match self {
            AnyModel::Run(run) => run.id,
            AnyModel::User(user) => user.id,
            AnyModel::Game(game) => game.id,
            AnyModel::Category(category) => category.id,
            AnyModel::Level(level) => level.id,
        }
    }

    fn created(&self) -> (created: Option<Timestamp>) {
        match self {
            AnyModel::Run(run) => run.created,
            AnyModel::User(user) => user.created,
            AnyModel::Game(game) => game.created,
            AnyModel::Category(_) => None,
            AnyModel::Level(_) => None,
        }
    }
}

impl AnyModel {
    /// The record's kind.
    pub fn kind(&self) -> (kind: NodeType)
        ensures
            kind == self@.kind(),
    {
        match self {
            AnyModel::Run(_) => NodeType::Run,
            AnyModel::User(_) => NodeType::User,
            AnyModel::Game(_) => NodeType::Game,
            AnyModel::Category(_) => NodeType::Category,
            AnyModel::Level(_) => NodeType::Level,
        }
    }
}

/// A batch of records of one kind.
#[derive(Debug, PartialEq, Eq, Hash, PartialOrd, Ord)]
pub enum AnyModelVec {
    Runs(Vec<Run>),
    Users(Vec<User>),
    Games(Vec<Game>),
    Categories(Vec<Category>),
    Levels(Vec<Level>),
}

/// What an `AnyModelVec` stands for.
pub enum AnyModelVecView {
    Runs(Seq<RunView>),
    Users(Seq<UserView>),
    Games(Seq<GameView>),
    Categories(Seq<CategoryView>),
    Levels(Seq<LevelView>),
}

impl AnyModelVecView {
    /// The kind of the batch's records.
    pub open spec fn kind(self) -> NodeType {
        match self {
            AnyModelVecView::Runs(_) => NodeType::Run,
            AnyModelVecView::Users(_) => NodeType::User,
            AnyModelVecView::Games(_) => NodeType::Game,
            AnyModelVecView::Categories(_) => NodeType::Category,
            AnyModelVecView::Levels(_) => NodeType::Level,
        }
    }

    /// The number of records in the batch.
    pub open spec fn len(self) -> nat {
        match self {
            AnyModelVecView::Runs(runs) => runs.len(),
            AnyModelVecView::Users(users) => users.len(),
            AnyModelVecView::Games(games) => games.len(),
            AnyModelVecView::Categories(categories) => categories.len(),
            AnyModelVecView::Levels(levels) => levels.len(),
        }
    }
}

impl View for AnyModelVec {
    type V = AnyModelVecView;

    open spec fn view(&self) -> AnyModelVecView {
        match self {
            AnyModelVec::Runs(runs) => AnyModelVecView::Runs(views(runs@)),
            AnyModelVec::Users(users) => AnyModelVecView::Users(views(users@)),
            AnyModelVec::Games(games) => AnyModelVecView::Games(views(games@)),
            AnyModelVec::Categories(categories) => AnyModelVecView::Categories(views(categories@)),
            AnyModelVec::Levels(levels) => AnyModelVecView::Levels(views(levels@)),
        }
    }
}

impl AnyModelVec {
    /// The kind of the batch's records.
    pub fn kind(&self) -> (kind: NodeType)
        ensures
            kind == self@.kind(),
    {
        match self {
            AnyModelVec::Runs(_) => NodeType::Run,
            AnyModelVec::Users(_) => NodeType::User,
            AnyModelVec::Games(_) => NodeType::Game,
            AnyModelVec::Categories(_) => NodeType::Category,
            AnyModelVec::Levels(_) => NodeType::Level,
        }
    }

    /// The number of records in the batch.
    pub fn len(&self) -> (len: usize)
        ensures
            len == self@.len(),
    {
        match self {
            AnyModelVec::Runs(runs) => runs.len(),
            AnyModelVec::Users(users) => users.len(),
            AnyModelVec::Games(games) => games.len(),
            AnyModelVec::Categories(categories) => categories.len(),
            AnyModelVec::Levels(levels) => levels.len(),
        }
    }
}

/// Why a record, or a batch, is not of the kind asked for.
#[derive(Debug, Clone, Copy, PartialEq, Eq, Structural)]
pub struct WrongKind {
    /// The kind that it has.
    pub found: NodeType,
}

impl From<Run> for AnyModel {
    fn from(run: Run) -> (any: AnyModel) {
        AnyModel::Run(run)
    }
}

impl vstd::std_specs::convert::FromSpecImpl<Run> for AnyModel {
    open spec fn obeys_from_spec() -> bool {
        true
    }

    open spec fn from_spec(run: Run) -> AnyModel {
        AnyModel::Run(run)
    }
}

impl TryFrom<AnyModel> for Run {
    type Error = WrongKind;

    fn try_from(any: AnyModel) -> (run: Result<Run, WrongKind>) {
        match any {
            AnyModel::Run(run) => Ok(run),
            other => Err(WrongKind { found: other.kind() }),
        }
    }
}

impl vstd::std_specs::convert::TryFromSpecImpl<AnyModel> for Run {
    open spec fn obeys_try_from_spec() -> bool {
        true
    }

    open spec fn try_from_spec(any: AnyModel) -> Result<Run, WrongKind> {
        match any {
            AnyModel::Run(run) => Ok(run),
            other => Err(WrongKind { found: other@.kind() }),
        }
    }
}

impl From<Vec<Run>> for AnyModelVec {
    fn from(runs: Vec<Run>) -> (any: AnyModelVec) {
        AnyModelVec::Runs(runs)
    }
}

impl vstd::std_specs::convert::FromSpecImpl<Vec<Run>> for AnyModelVec {
    open spec fn obeys_from_spec() -> bool {
        true
    }

    open spec fn from_spec(runs: Vec<Run>) -> AnyModelVec {
        AnyModelVec::Runs(runs)
    }
}

impl TryFrom<AnyModelVec> for Vec<Run> {
    type Error = WrongKind;

    fn try_from(any: AnyModelVec) -> (runs: Result<Vec<Run>, WrongKind>) {
        match any {
            AnyModelVec::Runs(runs) => Ok(runs),
            other => Err(WrongKind { found: other.kind() }),
        }
    }
}

impl vstd::std_specs::convert::TryFromSpecImpl<AnyModelVec> for Vec<Run> {
    open spec fn obeys_try_from_spec() -> bool {
        true
    }

    open spec fn try_from_spec(any: AnyModelVec) -> Result<Vec<Run>, WrongKind> {
        match any {
            AnyModelVec::Runs(runs) => Ok(runs),
            other => Err(WrongKind { found: other@.kind() }),
        }
    }
}

impl From<User> for AnyModel {
    fn from(user: User) -> (any: AnyModel) {
        AnyModel::User(user)
    }
}

impl vstd::std_specs::convert::FromSpecImpl<User> for AnyModel {
    open spec fn obeys_from_spec() -> bool {
        true
    }

    open spec fn from_spec(user: User) -> AnyModel {
        AnyModel::User(user)
    }
}

impl TryFrom<AnyModel> for User {
    type Error = WrongKind;

    fn try_from(any: AnyModel) -> (user: Result<User, WrongKind>) {
        match any {
            AnyModel::User(user) => Ok(user),
            other => Err(WrongKind { found: other.kind() }),
        }
    }
}

impl vstd::std_specs::convert::TryFromSpecImpl<AnyModel> for User {
    open spec fn obeys_try_from_spec() -> bool {
        true
    }

    open spec fn try_from_spec(any: AnyModel) -> Result<User, WrongKind> {
        match any {
            AnyModel::User(user) => Ok(user),
            other => Err(WrongKind { found: other@.kind() }),
        }
    }
}

impl From<Vec<User>> for AnyModelVec {
    fn from(users: Vec<User>) -> (any: AnyModelVec) {
        AnyModelVec::Users(users)
    }
}

impl vstd::std_specs::convert::FromSpecImpl<Vec<User>> for AnyModelVec {
    open spec fn obeys_from_spec() -> bool {
        true
    }

    open spec fn from_spec(users: Vec<User>) -> AnyModelVec {
        AnyModelVec::Users(users)
    }
}

impl TryFrom<AnyModelVec> for Vec<User> {
    type Error = WrongKind;

    fn try_from(any: AnyModelVec) -> (users: Result<Vec<User>, WrongKind>) {
        match any {
            AnyModelVec::Users(users) => Ok(users),
            other => Err(WrongKind { found: other.kind() }),
        }
    }
}

impl vstd::std_specs::convert::TryFromSpecImpl<AnyModelVec> for Vec<User> {
    open spec fn obeys_try_from_spec() -> bool {
        true
    }

    open spec fn try_from_spec(any: AnyModelVec) -> Result<Vec<User>, WrongKind> {
        match any {
            AnyModelVec::Users(users) => Ok(users),
            other => Err(WrongKind { found: other@.kind() }),
        }
    }
}

impl From<Game> for AnyModel {
    fn from(game: Game) -> (any: AnyModel) {
        AnyModel::Game(game)
    }
}

impl vstd::std_specs::convert::FromSpecImpl<Game> for AnyModel {
    open spec fn obeys_from_spec() -> bool {
        true
    }

    open spec fn from_spec(game: Game) -> AnyModel {
        AnyModel::Game(game)
    }
}

impl TryFrom<AnyModel> for Game {
    type Error = WrongKind;

    fn try_from(any: AnyModel) -> (game: Result<Game, WrongKind>) {
        match any {
            AnyModel::Game(game) => Ok(game),
            other => Err(WrongKind { found: other.kind() }),
        }
    }
}

impl vstd::std_specs::convert::TryFromSpecImpl<AnyModel> for Game {
    open spec fn obeys_try_from_spec() -> bool {
        true
    }

    open spec fn try_from_spec(any: AnyModel) -> Result<Game, WrongKind> {
        match any {
            AnyModel::Game(game) => Ok(game),
            other => Err(WrongKind { found: other@.kind() }),
        }
    }
}

impl From<Vec<Game>> for AnyModelVec {
    fn from(games: Vec<Game>) -> (any: AnyModelVec) {
        AnyModelVec::Games(games)
    }
}

impl vstd::std_specs::convert::FromSpecImpl<Vec<Game>> for AnyModelVec {
    open spec fn obeys_from_spec() -> bool {
        true
    }

    open spec fn from_spec(games: Vec<Game>) -> AnyModelVec {
        AnyModelVec::Games(games)
    }
}

impl TryFrom<AnyModelVec> for Vec<Game> {
    type Error = WrongKind;

    fn try_from(any: AnyModelVec) -> (games: Result<Vec<Game>, WrongKind>) {
        match any {
            AnyModelVec::Games(games) => Ok(games),
            other => Err(WrongKind { found: other.kind() }),
        }
    }
}

impl vstd::std_specs::convert::TryFromSpecImpl<AnyModelVec> for Vec<Game> {
    open spec fn obeys_try_from_spec() -> bool {
        true
    }

    open spec fn try_from_spec(any: AnyModelVec) -> Result<Vec<Game>, WrongKind> {
        match any {
            AnyModelVec::Games(games) => Ok(games),
            other => Err(WrongKind { found: other@.kind() }),
        }
    }
}

impl From<Category> for AnyModel {
    fn from(category: Category) -> (any: AnyModel) {
        AnyModel::Category(category)
    }
}

impl vstd::std_specs::convert::FromSpecImpl<Category> for AnyModel {
    open spec fn obeys_from_spec() -> bool {
        true
    }

    open spec fn from_spec(category: Category) -> AnyModel {
        AnyModel::Category(category)
    }
}

impl TryFrom<AnyModel> for Category {
    type Error = WrongKind;

    fn try_from(any: AnyModel) -> (category: Result<Category, WrongKind>) {
        match any {
            AnyModel::Category(category) => Ok(category),
            other => Err(WrongKind { found: other.kind() }),
        }
    }
}

impl vstd::std_specs::convert::TryFromSpecImpl<AnyModel> for Category {
    open spec fn obeys_try_from_spec() -> bool {
        true
    }

    open spec fn try_from_spec(any: AnyModel) -> Result<Category, WrongKind> {
        match any {
            AnyModel::Category(category) => Ok(category),
            other => Err(WrongKind { found: other@.kind() }),
        }
    }
}

impl From<Vec<Category>> for AnyModelVec {
    fn from(categories: Vec<Category>) -> (any: AnyModelVec) {
        AnyModelVec::Categories(categories)
    }
}

impl vstd::std_specs::convert::FromSpecImpl<Vec<Category>> for AnyModelVec {
    open spec fn obeys_from_spec() -> bool {
        true
    }

    open spec fn from_spec(categories: Vec<Category>) -> AnyModelVec {
        AnyModelVec::Categories(categories)
    }
}

impl TryFrom<AnyModelVec> for Vec<Category> {
    type Error = WrongKind;

    fn try_from(any: AnyModelVec) -> (categories: Result<Vec<Category>, WrongKind>) {
        match any {
            AnyModelVec::Categories(categories) => Ok(categories),
            other => Err(WrongKind { found: other.kind() }),
        }
    }
}

impl vstd::std_specs::convert::TryFromSpecImpl<AnyModelVec> for Vec<Category> {
    open spec fn obeys_try_from_spec() -> bool {
        true
    }

    open spec fn try_from_spec(any: AnyModelVec) -> Result<Vec<Category>, WrongKind> {
        match any {
            AnyModelVec::Categories(categories) => Ok(categories),
            other => Err(WrongKind { found: other@.kind() }),
        }
    }
}

impl From<Level> for AnyModel {
    fn from(level: Level) -> (any: AnyModel) {
        AnyModel::Level(level)
    }
}

impl vstd::std_specs::convert::FromSpecImpl<Level> for AnyModel {
    open spec fn obeys_from_spec() -> bool {
        true
    }

    open spec fn from_spec(level: Level) -> AnyModel {
        AnyModel::Level(level)
    }
}

impl TryFrom<AnyModel> for Level {
    type Error = WrongKind;

    fn try_from(any: AnyModel) -> (level: Result<Level, WrongKind>) {
        match any {
            AnyModel::Level(level) => Ok(level),
            other => Err(WrongKind { found: other.kind() }),
        }
    }
}

impl vstd::std_specs::convert::TryFromSpecImpl<AnyModel> for Level {
    open spec fn obeys_try_from_spec() -> bool {
        true
    }

    open spec fn try_from_spec(any: AnyModel) -> Result<Level, WrongKind> {
        match any {
            AnyModel::Level(level) => Ok(level),
            other => Err(WrongKind { found: other@.kind() }),
        }
    }
}

impl From<Vec<Level>> for AnyModelVec {
    fn from(levels: Vec<Level>) -> (any: AnyModelVec) {
        AnyModelVec::Levels(levels)
    }
}

impl vstd::std_specs::convert::FromSpecImpl<Vec<Level>> for AnyModelVec {
    open spec fn obeys_from_spec() -> bool {
        true
    }

    open spec fn from_spec(levels: Vec<Level>) -> AnyModelVec {
        AnyModelVec::Levels(levels)
    }
}

impl TryFrom<AnyModelVec> for Vec<Level> {
    type Error = WrongKind;

    fn try_from(any: AnyModelVec) -> (levels: Result<Vec<Level>, WrongKind>) {
        match any {
            AnyModelVec::Levels(levels) => Ok(levels),
            other => Err(WrongKind { found: other.kind() }),
        }
    }
}

impl vstd::std_specs::convert::TryFromSpecImpl<AnyModelVec> for Vec<Level> {
    open spec fn obeys_try_from_spec() -> bool {
        true
    }

    open spec fn try_from_spec(any: AnyModelVec) -> Result<Vec<Level>, WrongKind> {
        match any {
            AnyModelVec::Levels(levels) => Ok(levels),
            other => Err(WrongKind { found: other@.kind() }),
        }
    }
}

} // verus!
