//! The reconciliation loop: prunes a raw set of tables, cycle by cycle,
//! until a store can be built from what is left.
//!
//! Each cycle surveys the tables. Consistent tables end the loop with their
//! store. A report with a defect that pruning cannot mend ends it with the
//! report. Any other report marks ids dead: the source of every dangling
//! key, every run without its primary timing, and all but one of the records
//! that share a slug. The dead records leave the tables and the next cycle
//! begins.
use vstd::prelude::*;
use std::collections::HashSet;
use crate::data::database::{survey, Database};
use crate::data::index::{group_at, lemma_positions, select};
use crate::data::integrity::{
    category_checks, category_collisions, category_references, domain_errors, field_check_errors,
    game_checks, game_collisions, gather, integrity_errors, is_fatal, lemma_gather_witness,
    level_checks, level_collisions, level_references, missing_timings, player_references,
    referential_errors, run_checks, run_reference_errors, run_references, uniqueness_errors,
    user_checks, user_collisions, IntegrityError, IntegrityErrorView, IntegrityErrors,
};
use crate::data::models::{AnyModel, AnyModelVec, AnyModelVecView, AnyModelView, Model};
use crate::data::tables::{Tables, TablesView};
use crate::data::types::{views, RunView};
use crate::precedence::{
    category_keys, find_survivor, game_keys, key_views, level_keys, survivor, user_keys,
    PrecedenceKey, PrecedenceKeyView,
};

verus! {

/// The ids of the records that leave a group: all but the survivor's.
pub open spec fn duplicates(keys: Seq<PrecedenceKeyView>) -> Set<u64> {
    Set::new(
        |id: u64|
            exists|j: int| 0 <= j < keys.len() && j != survivor(keys) && (#[trigger] keys[j]).4 == id,
    )
}

/// Marks dead every record of a group but the one that stays.
fn mark_duplicates(dead: &mut HashSet<u64>, keys: &Vec<PrecedenceKey>)
    ensures
        final(dead)@ == old(dead)@.union(duplicates(key_views(keys@))),
{
    broadcast use vstd::std_specs::hash::group_hash_axioms;

    let ghost described = key_views(keys@);
    if keys.len() == 0 {
        assert(dead@ =~= old(dead)@.union(duplicates(described)));
        return ;
    }
    let stays = find_survivor(keys);
    let mut j: usize = 0;
    while j < keys.len()
        invariant
            j <= keys.len(),
            described == key_views(keys@),
            stays as int == survivor(described),
            forall|id: u64|
                dead@.contains(id) <==> old(dead)@.contains(id) || exists|a: int|
                    0 <= a < j && a != stays && (#[trigger] described[a]).4 == id,
        decreases keys.len() - j,
    {
        if j != stays {
            let ghost before = dead@;
            dead.insert(keys[j].4);
            proof {
                assert(described[j as int].4 == keys@[j as int].4);
                assert forall|id: u64|
                    dead@.contains(id) <==> old(dead)@.contains(id) || exists|a: int|
                        0 <= a < j + 1 && a != stays && (#[trigger] described[a]).4 == id by {
                    if before.contains(id) && !old(dead)@.contains(id) {
                        let a = choose|a: int|
                            0 <= a < j && a != stays && (#[trigger] described[a]).4 == id;
                        assert(0 <= a < j + 1 && a != stays && described[a].4 == id);
                    }
                }
            }
        }
        j += 1;
    }
    assert(dead@ =~= old(dead)@.union(duplicates(described)));
}

/// The ids marked dead, kind by kind.
pub struct DeadIds {
    pub runs: HashSet<u64>,
    pub users: HashSet<u64>,
    pub games: HashSet<u64>,
    pub categories: HashSet<u64>,
    pub levels: HashSet<u64>,
}

/// What `DeadIds` stand for.
pub struct DeadIdsView {
    pub runs: Set<u64>,
    pub users: Set<u64>,
    pub games: Set<u64>,
    pub categories: Set<u64>,
    pub levels: Set<u64>,
}

impl View for DeadIds {
    type V = DeadIdsView;

    open spec fn view(&self) -> DeadIdsView {
        DeadIdsView {
            runs: self.runs@,
            users: self.users@,
            games: self.games@,
            categories: self.categories@,
            levels: self.levels@,
        }
    }
}

impl DeadIdsView {
    /// No id at all.
    pub open spec fn none() -> DeadIdsView {
        DeadIdsView {
            runs: Set::empty(),
            users: Set::empty(),
            games: Set::empty(),
            categories: Set::empty(),
            levels: Set::empty(),
        }
    }

    /// The ids of either, kind by kind.
    pub open spec fn union(self, other: DeadIdsView) -> DeadIdsView {
        DeadIdsView {
            runs: self.runs.union(other.runs),
            users: self.users.union(other.users),
            games: self.games.union(other.games),
            categories: self.categories.union(other.categories),
            levels: self.levels.union(other.levels),
        }
    }

    /// The id of one record, under its kind.
    pub open spec fn only(record: AnyModelView) -> DeadIdsView {
        match record {
            AnyModelView::Run(run) => DeadIdsView { runs: set![run.id], ..Self::none() },
            AnyModelView::User(user) => DeadIdsView { users: set![user.id], ..Self::none() },
            AnyModelView::Game(game) => DeadIdsView { games: set![game.id], ..Self::none() },
            AnyModelView::Category(category) => DeadIdsView {
                categories: set![category.id],
                ..Self::none()
            },
            AnyModelView::Level(level) => DeadIdsView { levels: set![level.id], ..Self::none() },
        }
    }

    /// All of a group that shares a slug but the one that stays. Runs have
    /// no slugs, and a group of runs marks nothing.
    pub open spec fn all_but_one(group: AnyModelVecView) -> DeadIdsView {
        match group {
            AnyModelVecView::Runs(_) => Self::none(),
            AnyModelVecView::Users(users) => DeadIdsView {
                users: duplicates(user_keys(users)),
                ..Self::none()
            },
            AnyModelVecView::Games(games) => DeadIdsView {
                games: duplicates(game_keys(games)),
                ..Self::none()
            },
            AnyModelVecView::Categories(categories) => DeadIdsView {
                categories: duplicates(category_keys(categories)),
                ..Self::none()
            },
            AnyModelVecView::Levels(levels) => DeadIdsView {
                levels: duplicates(level_keys(levels)),
                ..Self::none()
            },
        }
    }
}

/// What one violation marks dead: the source of a dangling key, the run
/// without its primary timing, all but one of the records that share a
/// slug. The defects that pruning cannot mend mark nothing.
pub open spec fn dead_of(error: IntegrityErrorView) -> DeadIdsView {
    match error {
        IntegrityErrorView::IndexingError => DeadIdsView::none(),
        IntegrityErrorView::CheckFailed { .. } => DeadIdsView::none(),
        IntegrityErrorView::ForeignKeyMissing { source, .. } => DeadIdsView::only(source),
        IntegrityErrorView::NonUniqueSlug { sources, .. } => DeadIdsView::all_but_one(sources),
        IntegrityErrorView::MissingPrimaryTiming(run) => DeadIdsView::only(AnyModelView::Run(run)),
    }
}

/// What the first `n` violations of a report mark dead.
pub open spec fn dead_ids(errors: Seq<IntegrityErrorView>, n: nat) -> DeadIdsView
    decreases n,
{
    if n == 0 || n > errors.len() {
        DeadIdsView::none()
    } else {
        dead_ids(errors, (n - 1) as nat).union(dead_of(errors[n - 1]))
    }
}

/// Marking nothing changes nothing.
proof fn lemma_nothing_marked(dead: DeadIdsView)
    ensures
        dead == dead.union(DeadIdsView::none()),
{
    let marked = dead.union(DeadIdsView::none());
    assert(dead.runs =~= marked.runs);
    assert(dead.users =~= marked.users);
    assert(dead.games =~= marked.games);
    assert(dead.categories =~= marked.categories);
    assert(dead.levels =~= marked.levels);
}

impl DeadIds {
    /// No id at all.
    pub fn new() -> (dead: Self)
        ensures
            dead@ == DeadIdsView::none(),
    {
        DeadIds {
            runs: HashSet::new(),
            users: HashSet::new(),
            games: HashSet::new(),
            categories: HashSet::new(),
            levels: HashSet::new(),
        }
    }

    /// Marks one record dead.
    fn mark_record(&mut self, record: &AnyModel)
        ensures
            final(self)@ == old(self)@.union(DeadIdsView::only(record@)),
    {
        broadcast use vstd::std_specs::hash::group_hash_axioms;

        match record {
            AnyModel::Run(run) => {
                self.runs.insert(run.id);
                assert(self.runs@ =~= old(self).runs@.union(set![run.id]));
            },
            AnyModel::User(user) => {
                self.users.insert(user.id);
                assert(self.users@ =~= old(self).users@.union(set![user.id]));
            },
            AnyModel::Game(game) => {
                self.games.insert(game.id);
                assert(self.games@ =~= old(self).games@.union(set![game.id]));
            },
            AnyModel::Category(category) => {
                self.categories.insert(category.id);
                assert(self.categories@ =~= old(self).categories@.union(set![category.id]));
            },
            AnyModel::Level(level) => {
                self.levels.insert(level.id);
                assert(self.levels@ =~= old(self).levels@.union(set![level.id]));
            },
        }
        proof {
            let marked = old(self)@.union(DeadIdsView::only(record@));
            assert(self@.runs =~= marked.runs);
            assert(self@.users =~= marked.users);
            assert(self@.games =~= marked.games);
            assert(self@.categories =~= marked.categories);
            assert(self@.levels =~= marked.levels);
        }
    }

    /// Marks dead all of a group that shares a slug but the one that stays.
    fn mark_group(&mut self, group: &AnyModelVec)
        ensures
            final(self)@ == old(self)@.union(DeadIdsView::all_but_one(group@)),
    {
        match group {
            AnyModelVec::Runs(_) => {},
            AnyModelVec::Users(users) => {
                let mut keys: Vec<PrecedenceKey> = Vec::new();
                let mut i: usize = 0;
                while i < users.len()
                    invariant
                        i <= users.len(),
                        keys@.len() == i,
                        key_views(keys@) == user_keys(views(users@)).take(i as int),
                    decreases users.len() - i,
                {
                    keys.push(users[i].precedence_key());
                    assert(key_views(keys@) =~= user_keys(views(users@)).take(i + 1));
                    i += 1;
                }
                assert(key_views(keys@) =~= user_keys(views(users@)));
                mark_duplicates(&mut self.users, &keys);
            },
            AnyModelVec::Games(games) => {
                let mut keys: Vec<PrecedenceKey> = Vec::new();
                let mut i: usize = 0;
                while i < games.len()
                    invariant
                        i <= games.len(),
                        keys@.len() == i,
                        key_views(keys@) == game_keys(views(games@)).take(i as int),
                    decreases games.len() - i,
                {
                    keys.push(games[i].precedence_key());
                    assert(key_views(keys@) =~= game_keys(views(games@)).take(i + 1));
                    i += 1;
                }
                assert(key_views(keys@) =~= game_keys(views(games@)));
                mark_duplicates(&mut self.games, &keys);
            },
            AnyModelVec::Categories(categories) => {
                let mut keys: Vec<PrecedenceKey> = Vec::new();
                let mut i: usize = 0;
                while i < categories.len()
                    invariant
                        i <= categories.len(),
                        keys@.len() == i,
                        key_views(keys@) == category_keys(views(categories@)).take(i as int),
                    decreases categories.len() - i,
                {
                    keys.push(categories[i].precedence_key());
                    assert(key_views(keys@) =~= category_keys(views(categories@)).take(i + 1));
                    i += 1;
                }
                assert(key_views(keys@) =~= category_keys(views(categories@)));
                mark_duplicates(&mut self.categories, &keys);
            },
            AnyModelVec::Levels(levels) => {
                let mut keys: Vec<PrecedenceKey> = Vec::new();
                let mut i: usize = 0;
                while i < levels.len()
                    invariant
                        i <= levels.len(),
                        keys@.len() == i,
                        key_views(keys@) == level_keys(views(levels@)).take(i as int),
                    decreases levels.len() - i,
                {
                    keys.push(levels[i].precedence_key());
                    assert(key_views(keys@) =~= level_keys(views(levels@)).take(i + 1));
                    i += 1;
                }
                assert(key_views(keys@) =~= level_keys(views(levels@)));
                mark_duplicates(&mut self.levels, &keys);
            },
        }
        proof {
            let marked = old(self)@.union(DeadIdsView::all_but_one(group@));
            assert(self@.runs =~= marked.runs);
            assert(self@.users =~= marked.users);
            assert(self@.games =~= marked.games);
            assert(self@.categories =~= marked.categories);
            assert(self@.levels =~= marked.levels);
        }
    }

    /// Marks what one violation marks dead.
    pub fn mark(&mut self, error: &IntegrityError)
        ensures
            final(self)@ == old(self)@.union(dead_of(error@)),
    {
        match error {
            IntegrityError::IndexingError => {
                proof {
                    lemma_nothing_marked(self@);
                }
            },
            IntegrityError::CheckFailed { .. } => {
                proof {
                    lemma_nothing_marked(self@);
                }
            },
            IntegrityError::ForeignKeyMissing { source, .. } => {
                self.mark_record(source);
            },
            IntegrityError::NonUniqueSlug { sources, .. } => {
                self.mark_group(sources);
            },
            IntegrityError::MissingPrimaryTiming(run) => {
                broadcast use vstd::std_specs::hash::group_hash_axioms;

                self.runs.insert(run.id);
                proof {
                    let marked = old(self)@.union(dead_of(error@));
                    assert(self@.runs =~= marked.runs);
                    assert(self@.users =~= marked.users);
                    assert(self@.games =~= marked.games);
                    assert(self@.categories =~= marked.categories);
                    assert(self@.levels =~= marked.levels);
                }
            },
        }
    }

    /// Marks what a whole report marks dead.
    pub fn of_report(errors: &Vec<IntegrityError>) -> (dead: DeadIds)
        ensures
            dead@ == dead_ids(views(errors@), errors@.len()),
    {
        let mut dead = DeadIds::new();
        let mut i: usize = 0;
        while i < errors.len()
            invariant
                i <= errors.len(),
                dead@ == dead_ids(views(errors@), i as nat),
            decreases errors.len() - i,
        {
            dead.mark(&errors[i]);
            i += 1;
        }
        dead
    }
}

/// The positions below `n`, ascending, whose id is not in `dead`.
pub open spec fn alive(ids: Seq<u64>, dead: Set<u64>, n: nat) -> Seq<usize>
    decreases n,
{
    if n == 0 || n > ids.len() {
        Seq::empty()
    } else if dead.contains(ids[n - 1]) {
        alive(ids, dead, (n - 1) as nat)
    } else {
        alive(ids, dead, (n - 1) as nat).push((n - 1) as usize)
    }
}

/// The tables without the records whose ids are dead; the others keep their
/// order.
pub open spec fn pruned(t: TablesView, dead: DeadIdsView) -> TablesView {
    TablesView {
        runs: select(t.runs, alive(t.run_ids(), dead.runs, t.runs.len())),
        users: select(t.users, alive(t.user_ids(), dead.users, t.users.len())),
        games: select(t.games, alive(t.game_ids(), dead.games, t.games.len())),
        categories: select(
            t.categories,
            alive(t.category_ids(), dead.categories, t.categories.len()),
        ),
        levels: select(t.levels, alive(t.level_ids(), dead.levels, t.levels.len())),
    }
}

/// The ids of a batch of records, in order.
pub open spec fn ids_of<T: Model>(items: Seq<T>) -> Seq<u64> {
    items.map_values(|item: T| item.spec_id())
}

/// Every position that is alive lies below `n`, and no more than `n` are.
pub proof fn lemma_alive(ids: Seq<u64>, dead: Set<u64>, n: nat)
    requires
        n <= ids.len(),
        ids.len() <= usize::MAX,
    ensures
        alive(ids, dead, n).len() <= n,
        forall|a: int| 0 <= a < alive(ids, dead, n).len() ==> (#[trigger] alive(ids, dead, n)[a]) < n,
        (exists|at: int| 0 <= at < n && dead.contains(ids[at])) ==> alive(ids, dead, n).len() < n,
    decreases n,
{
    if n > 0 {
        lemma_alive(ids, dead, (n - 1) as nat);
        if exists|at: int| 0 <= at < n && dead.contains(ids[at]) {
            let at = choose|at: int| 0 <= at < n && dead.contains(ids[at]);
            if at < n - 1 {
                assert(0 <= at < n - 1 && dead.contains(ids[at]));
            }
        }
    }
}

/// Drops the records whose id is dead; the others keep their order.
fn retain_alive<T: Model>(items: &mut Vec<T>, dead: &HashSet<u64>)
    ensures
        final(items)@ == select(
            old(items)@,
            alive(ids_of(old(items)@), dead@, old(items)@.len()),
        ),
{
    broadcast use vstd::std_specs::hash::group_hash_axioms;

    let mut taken: Vec<T> = Vec::new();
    std::mem::swap(items, &mut taken);
    let ghost all = taken@;
    let ghost ids = ids_of(all);
    assert(all.len() == taken.len());
    for item in given: taken
        invariant
            all == old(items)@,
            all.len() <= usize::MAX,
            ids == ids_of(all),
            given.seq() == all,
            items@ == select(all, alive(ids, dead@, given.index() as nat)),
    {
        let id = item.id();
        if !dead.contains(&id) {
            items.push(item);
        }
        assert(items@ =~= select(all, alive(ids, dead@, (given.index() + 1) as nat)));
    }
}

/// The views of the records at some places are the views at those places.
proof fn lemma_views_select<T: View>(items: Seq<T>, places: Seq<usize>)
    requires
        forall|a: int| 0 <= a < places.len() ==> (#[trigger] places[a]) < items.len(),
    ensures
        views(select(items, places)) == select(views(items), places),
{
    assert(views(select(items, places)) =~= select(views(items), places));
}

impl Tables {
    /// Drops every record whose id is dead.
    pub fn prune(&mut self, dead: &DeadIds)
        ensures
            final(self)@ == pruned(old(self)@, dead@),
    {
        let ghost t = self@;
        proof {
            crate::data::tables::lemma_tables_bounded(self);
            assert(ids_of(self.runs@) =~= t.run_ids());
            assert(ids_of(self.users@) =~= t.user_ids());
            assert(ids_of(self.games@) =~= t.game_ids());
            assert(ids_of(self.categories@) =~= t.category_ids());
            assert(ids_of(self.levels@) =~= t.level_ids());
            lemma_alive(t.run_ids(), dead@.runs, t.runs.len());
            lemma_alive(t.user_ids(), dead@.users, t.users.len());
            lemma_alive(t.game_ids(), dead@.games, t.games.len());
            lemma_alive(t.category_ids(), dead@.categories, t.categories.len());
            lemma_alive(t.level_ids(), dead@.levels, t.levels.len());
            lemma_views_select(self.runs@, alive(t.run_ids(), dead@.runs, t.runs.len()));
            lemma_views_select(self.users@, alive(t.user_ids(), dead@.users, t.users.len()));
            lemma_views_select(self.games@, alive(t.game_ids(), dead@.games, t.games.len()));
            lemma_views_select(
                self.categories@,
                alive(t.category_ids(), dead@.categories, t.categories.len()),
            );
            lemma_views_select(self.levels@, alive(t.level_ids(), dead@.levels, t.levels.len()));
        }
        retain_alive(&mut self.runs, &dead.runs);
        retain_alive(&mut self.users, &dead.users);
        retain_alive(&mut self.games, &dead.games);
        retain_alive(&mut self.categories, &dead.categories);
        retain_alive(&mut self.levels, &dead.levels);
    }
}

/// What one cycle leaves of the tables: they lose what their report marks
/// dead.
pub open spec fn step(t: TablesView) -> TablesView {
    pruned(t, dead_ids(integrity_errors(t), integrity_errors(t).len()))
}

/// The tables are not consistent, and pruning can mend what is wrong.
pub open spec fn mendable(t: TablesView) -> bool {
    integrity_errors(t).len() > 0 && !is_fatal(integrity_errors(t))
}

/// What the loop leaves of the tables: it prunes for as long as pruning can
/// mend them.
pub open spec fn reconciled(t: TablesView) -> TablesView
    decreases t.total(),
{
    if mendable(t) && step(t).total() < t.total() {
        reconciled(step(t))
    } else {
        t
    }
}

/// `whole` marks every id that `part` marks.
pub open spec fn covers(whole: DeadIdsView, part: DeadIdsView) -> bool {
    &&& part.runs.subset_of(whole.runs)
    &&& part.users.subset_of(whole.users)
    &&& part.games.subset_of(whole.games)
    &&& part.categories.subset_of(whole.categories)
    &&& part.levels.subset_of(whole.levels)
}

/// Some record of the tables has its id marked under its kind.
pub open spec fn hits(t: TablesView, dead: DeadIdsView) -> bool {
    ||| exists|p: int| 0 <= p < t.runs.len() && dead.runs.contains((#[trigger] t.runs[p]).id)
    ||| exists|p: int| 0 <= p < t.users.len() && dead.users.contains((#[trigger] t.users[p]).id)
    ||| exists|p: int| 0 <= p < t.games.len() && dead.games.contains((#[trigger] t.games[p]).id)
    ||| exists|p: int|
        0 <= p < t.categories.len() && dead.categories.contains((#[trigger] t.categories[p]).id)
    ||| exists|p: int| 0 <= p < t.levels.len() && dead.levels.contains((#[trigger] t.levels[p]).id)
}

/// What a report marks covers what each of its violations marks.
pub proof fn lemma_dead_ids_cover(errors: Seq<IntegrityErrorView>, n: nat, k: int)
    requires
        0 <= k < n <= errors.len(),
    ensures
        covers(dead_ids(errors, n), dead_of(errors[k])),
    decreases n,
{
    if k < n - 1 {
        lemma_dead_ids_cover(errors, (n - 1) as nat, k);
    }
}

/// Pruning never adds a record, and takes at least one where a record's id
/// is marked.
pub proof fn lemma_pruning_shrinks(t: TablesView, dead: DeadIdsView)
    requires
        t.bounded(),
    ensures
        pruned(t, dead).runs.len() <= t.runs.len(),
        pruned(t, dead).users.len() <= t.users.len(),
        pruned(t, dead).games.len() <= t.games.len(),
        pruned(t, dead).categories.len() <= t.categories.len(),
        pruned(t, dead).levels.len() <= t.levels.len(),
        pruned(t, dead).bounded(),
        hits(t, dead) ==> pruned(t, dead).total() < t.total(),
{
    lemma_alive(t.run_ids(), dead.runs, t.runs.len());
    lemma_alive(t.user_ids(), dead.users, t.users.len());
    lemma_alive(t.game_ids(), dead.games, t.games.len());
    lemma_alive(t.category_ids(), dead.categories, t.categories.len());
    lemma_alive(t.level_ids(), dead.levels, t.levels.len());
    if exists|p: int| 0 <= p < t.runs.len() && dead.runs.contains((#[trigger] t.runs[p]).id) {
        let p = choose|p: int| 0 <= p < t.runs.len() && dead.runs.contains((#[trigger] t.runs[p]).id);
        assert(dead.runs.contains(t.run_ids()[p]));
    }
    if exists|p: int| 0 <= p < t.users.len() && dead.users.contains((#[trigger] t.users[p]).id) {
        let p = choose|p: int|
            0 <= p < t.users.len() && dead.users.contains((#[trigger] t.users[p]).id);
        assert(dead.users.contains(t.user_ids()[p]));
    }
    if exists|p: int| 0 <= p < t.games.len() && dead.games.contains((#[trigger] t.games[p]).id) {
        let p = choose|p: int|
            0 <= p < t.games.len() && dead.games.contains((#[trigger] t.games[p]).id);
        assert(dead.games.contains(t.game_ids()[p]));
    }
    if exists|p: int|
        0 <= p < t.categories.len() && dead.categories.contains((#[trigger] t.categories[p]).id) {
        let p = choose|p: int|
            0 <= p < t.categories.len() && dead.categories.contains(
                (#[trigger] t.categories[p]).id,
            );
        assert(dead.categories.contains(t.category_ids()[p]));
    }
    if exists|p: int| 0 <= p < t.levels.len() && dead.levels.contains((#[trigger] t.levels[p]).id) {
        let p = choose|p: int|
            0 <= p < t.levels.len() && dead.levels.contains((#[trigger] t.levels[p]).id);
        assert(dead.levels.contains(t.level_ids()[p]));
    }
}

/// A violation that blames `source` for a dangling key.
pub open spec fn blames(error: IntegrityErrorView, source: AnyModelView) -> bool {
    error matches IntegrityErrorView::ForeignKeyMissing { source: blamed, .. } && blamed == source
}

/// Every dangling key of a run's players is reported against the run.
proof fn lemma_player_references_blame(t: TablesView, run: RunView, n: nat, a: int)
    requires
        0 <= a < gather(player_references(t, run), n).len(),
    ensures
        blames(gather(player_references(t, run), n)[a], AnyModelView::Run(run)),
    decreases n,
{
    if n > 0 {
        let earlier = gather(player_references(t, run), (n - 1) as nat);
        if a < earlier.len() {
            lemma_player_references_blame(t, run, (n - 1) as nat, a);
        }
    }
}

/// Every dangling key of a run is reported against the run.
proof fn lemma_run_references_blame(t: TablesView, run: RunView, a: int)
    requires
        0 <= a < run_reference_errors(t, run).len(),
    ensures
        blames(run_reference_errors(t, run)[a], AnyModelView::Run(run)),
{
    let players = gather(player_references(t, run), run.players.len());
    let keys = run_reference_errors(t, run).len() - players.len();
    if a >= keys {
        lemma_player_references_blame(t, run, run.players.len(), a - keys);
    }
}

/// What a report marks covers what any violation in one of its parts marks.
proof fn lemma_part_marked(
    errors: Seq<IntegrityErrorView>,
    before: Seq<IntegrityErrorView>,
    part: Seq<IntegrityErrorView>,
    after: Seq<IntegrityErrorView>,
    error: IntegrityErrorView,
)
    requires
        errors == before + part + after,
        part.contains(error),
    ensures
        covers(dead_ids(errors, errors.len()), dead_of(error)),
{
    let k = choose|k: int| 0 <= k < part.len() && part[k] == error;
    assert(errors[before.len() + k] == error);
    lemma_dead_ids_cover(errors, errors.len(), before.len() + k);
}

/// Of a group of two or more records, one that is not the survivor leaves.
proof fn lemma_group_loses_one(keys: Seq<PrecedenceKeyView>) -> (j: int)
    requires
        keys.len() > 1,
    ensures
        0 <= j < keys.len(),
        duplicates(keys).contains(keys[j].4),
{
    let j: int = if survivor(keys) == 0 {
        1
    } else {
        0
    };
    assert(j != survivor(keys) && keys[j].4 == keys[j].4);
    j
}

/// A report with a record that failed its field checks is fatal.
proof fn lemma_checks_fatal(
    t: TablesView,
    errors: Seq<IntegrityErrorView>,
    after: Seq<IntegrityErrorView>,
)
    requires
        errors == field_check_errors(t) + after,
        field_check_errors(t).len() > 0,
    ensures
        is_fatal(errors),
{
    let a1 = gather(run_checks(t), t.runs.len());
    let a2 = gather(user_checks(t), t.users.len());
    let a3 = gather(game_checks(t), t.games.len());
    let a4 = gather(category_checks(t), t.categories.len());
    let a5 = gather(level_checks(t), t.levels.len());
    let checks = field_check_errors(t);
    if a1.len() > 0 {
        let i = lemma_gather_witness(run_checks(t), t.runs.len());
        let k = choose|k: int| 0 <= k < a1.len() && a1[k] == run_checks(t)(i)[0];
        assert(checks[k] == a1[k]);
        assert(errors[k].is_fatal());
    } else if a2.len() > 0 {
        let i = lemma_gather_witness(user_checks(t), t.users.len());
        let k = choose|k: int| 0 <= k < a2.len() && a2[k] == user_checks(t)(i)[0];
        assert(checks[k] == a2[k]);
        assert(errors[k].is_fatal());
    } else if a3.len() > 0 {
        let i = lemma_gather_witness(game_checks(t), t.games.len());
        let k = choose|k: int| 0 <= k < a3.len() && a3[k] == game_checks(t)(i)[0];
        assert(checks[k] == a3[k]);
        assert(errors[k].is_fatal());
    } else if a4.len() > 0 {
        let i = lemma_gather_witness(category_checks(t), t.categories.len());
        let k = choose|k: int| 0 <= k < a4.len() && a4[k] == category_checks(t)(i)[0];
        assert(checks[k] == a4[k]);
        assert(errors[k].is_fatal());
    } else {
        let i = lemma_gather_witness(level_checks(t), t.levels.len());
        let k = choose|k: int| 0 <= k < a5.len() && a5[k] == level_checks(t)(i)[0];
        assert(checks[k] == a5[k]);
        assert(errors[k].is_fatal());
    }
}

/// A report with a dangling key marks the record that holds the key.
proof fn lemma_references_hit(
    t: TablesView,
    errors: Seq<IntegrityErrorView>,
    before: Seq<IntegrityErrorView>,
    after: Seq<IntegrityErrorView>,
)
    requires
        errors == before + referential_errors(t) + after,
        referential_errors(t).len() > 0,
    ensures
        hits(t, dead_ids(errors, errors.len())),
{
    let dead = dead_ids(errors, errors.len());
    let b1 = gather(run_references(t), t.runs.len());
    let b2 = gather(category_references(t), t.categories.len());
    let b3 = gather(level_references(t), t.levels.len());
    if b1.len() > 0 {
        let i = lemma_gather_witness(run_references(t), t.runs.len());
        let error = run_references(t)(i)[0];
        lemma_run_references_blame(t, t.runs[i], 0);
        assert(errors =~= before + b1 + (b2 + b3 + after));
        lemma_part_marked(errors, before, b1, b2 + b3 + after, error);
        assert(dead_of(error).runs.contains(t.runs[i].id));
        assert(dead.runs.contains(t.runs[i].id));
    } else if b2.len() > 0 {
        let i = lemma_gather_witness(category_references(t), t.categories.len());
        let error = category_references(t)(i)[0];
        assert(errors =~= before + b2 + (b3 + after));
        lemma_part_marked(errors, before, b2, b3 + after, error);
        assert(dead_of(error).categories.contains(t.categories[i].id));
        assert(dead.categories.contains(t.categories[i].id));
    } else {
        let i = lemma_gather_witness(level_references(t), t.levels.len());
        let error = level_references(t)(i)[0];
        assert(errors =~= before + b3 + after);
        lemma_part_marked(errors, before, b3, after, error);
        assert(dead_of(error).levels.contains(t.levels[i].id));
        assert(dead.levels.contains(t.levels[i].id));
    }
}

/// A report with a shared slug marks one of the records that share it.
proof fn lemma_collisions_hit(
    t: TablesView,
    errors: Seq<IntegrityErrorView>,
    before: Seq<IntegrityErrorView>,
    after: Seq<IntegrityErrorView>,
)
    requires
        t.bounded(),
        errors == before + uniqueness_errors(t) + after,
        uniqueness_errors(t).len() > 0,
    ensures
        hits(t, dead_ids(errors, errors.len())),
{
    let dead = dead_ids(errors, errors.len());
    let c1 = gather(game_collisions(t), t.games.len());
    let c2 = gather(user_collisions(t), t.users.len());
    let c3 = gather(category_collisions(t), t.categories.len());
    let c4 = gather(level_collisions(t), t.levels.len());
    if c1.len() > 0 {
        let first = lemma_gather_witness(game_collisions(t), t.games.len());
        let error = game_collisions(t)(first)[0];
        let group = group_at(t.game_slugs(), first);
        let sources = select(t.games, group);
        lemma_positions(t.game_slugs(), t.game_slugs()[first], t.game_slugs().len());
        let j = lemma_group_loses_one(game_keys(sources));
        assert(errors =~= before + c1 + (c2 + c3 + c4 + after));
        lemma_part_marked(errors, before, c1, c2 + c3 + c4 + after, error);
        assert(dead_of(error).games.contains(t.games[group[j] as int].id));
        assert(dead.games.contains(t.games[group[j] as int].id));
    } else if c2.len() > 0 {
        let first = lemma_gather_witness(user_collisions(t), t.users.len());
        let error = user_collisions(t)(first)[0];
        let group = group_at(t.user_slugs(), first);
        let sources = select(t.users, group);
        lemma_positions(t.user_slugs(), t.user_slugs()[first], t.user_slugs().len());
        let j = lemma_group_loses_one(user_keys(sources));
        assert(errors =~= before + c2 + (c3 + c4 + after));
        lemma_part_marked(errors, before, c2, c3 + c4 + after, error);
        assert(dead_of(error).users.contains(t.users[group[j] as int].id));
        assert(dead.users.contains(t.users[group[j] as int].id));
    } else if c3.len() > 0 {
        let first = lemma_gather_witness(category_collisions(t), t.categories.len());
        let error = category_collisions(t)(first)[0];
        let group = group_at(t.category_slugs(), first);
        let sources = select(t.categories, group);
        lemma_positions(t.category_slugs(), t.category_slugs()[first], t.category_slugs().len());
        let j = lemma_group_loses_one(category_keys(sources));
        assert(errors =~= before + c3 + (c4 + after));
        lemma_part_marked(errors, before, c3, c4 + after, error);
        assert(dead_of(error).categories.contains(t.categories[group[j] as int].id));
        assert(dead.categories.contains(t.categories[group[j] as int].id));
    } else {
        let first = lemma_gather_witness(level_collisions(t), t.levels.len());
        let error = level_collisions(t)(first)[0];
        let group = group_at(t.level_slugs(), first);
        let sources = select(t.levels, group);
        lemma_positions(t.level_slugs(), t.level_slugs()[first], t.level_slugs().len());
        let j = lemma_group_loses_one(level_keys(sources));
        assert(errors =~= before + c4 + after);
        lemma_part_marked(errors, before, c4, after, error);
        assert(dead_of(error).levels.contains(t.levels[group[j] as int].id));
        assert(dead.levels.contains(t.levels[group[j] as int].id));
    }
}

/// A report with a run that lacks its primary timing marks the run.
proof fn lemma_timings_hit(
    t: TablesView,
    errors: Seq<IntegrityErrorView>,
    before: Seq<IntegrityErrorView>,
)
    requires
        errors == before + domain_errors(t),
        domain_errors(t).len() > 0,
    ensures
        hits(t, dead_ids(errors, errors.len())),
{
    let dead = dead_ids(errors, errors.len());
    let none = Seq::<IntegrityErrorView>::empty();
    let i = lemma_gather_witness(missing_timings(t), t.runs.len());
    let error = missing_timings(t)(i)[0];
    assert(errors =~= before + domain_errors(t) + none);
    lemma_part_marked(errors, before, domain_errors(t), none, error);
    assert(dead_of(error).runs.contains(t.runs[i].id));
    assert(dead.runs.contains(t.runs[i].id));
}

/// A report that pruning can mend marks the id of at least one record of
/// the tables.
pub proof fn lemma_mendable_report_hits(t: TablesView)
    requires
        t.bounded(),
        mendable(t),
    ensures
        hits(t, dead_ids(integrity_errors(t), integrity_errors(t).len())),
{
    let errors = integrity_errors(t);
    let none = Seq::<IntegrityErrorView>::empty();
    if !t.ids_distinct() {
        assert(errors[0].is_fatal());
    }
    let checks = field_check_errors(t);
    let references = referential_errors(t);
    let collisions = uniqueness_errors(t);
    let timings = domain_errors(t);
    if checks.len() > 0 {
        assert(errors =~= checks + (references + collisions + timings));
        lemma_checks_fatal(t, errors, references + collisions + timings);
    } else if references.len() > 0 {
        assert(errors =~= checks + references + (collisions + timings));
        lemma_references_hit(t, errors, checks, collisions + timings);
    } else if collisions.len() > 0 {
        assert(errors =~= checks + references + collisions + timings);
        lemma_collisions_hit(t, errors, checks + references, timings);
    } else {
        lemma_timings_hit(t, errors, checks + references + collisions);
    }
}

/// Each cycle that prunes takes at least one record: the tables that it
/// leaves hold fewer records, all kinds together, than the tables it found.
pub proof fn lemma_step_shrinks(t: TablesView)
    requires
        t.bounded(),
        mendable(t),
    ensures
        step(t).total() < t.total(),
        step(t).bounded(),
{
    lemma_mendable_report_hits(t);
    lemma_pruning_shrinks(t, dead_ids(integrity_errors(t), integrity_errors(t).len()));
}

/// The loop ends in tables that are consistent, or that hold a defect that
/// pruning cannot mend.
pub proof fn lemma_reconciled_settles(t: TablesView)
    requires
        t.bounded(),
    ensures
        !mendable(reconciled(t)),
        reconciled(t).bounded(),
        reconciled(t).total() <= t.total(),
    decreases t.total(),
{
    if mendable(t) {
        lemma_step_shrinks(t);
        lemma_reconciled_settles(step(t));
    }
}

/// Running the loop on what the loop left changes nothing more.
pub proof fn lemma_reconciled_twice(t: TablesView)
    requires
        t.bounded(),
    ensures
        reconciled(reconciled(t)) == reconciled(t),
{
    lemma_reconciled_settles(t);
}

/// How many records of one kind a cycle discarded, and out of how many.
#[derive(Debug, Clone, Copy, PartialEq, Eq, Structural)]
pub struct Tally {
    pub discarded: usize,
    pub total: usize,
}

impl Tally {
    /// The share that was discarded, in whole percent, rounded down; zero
    /// of nothing is zero percent.
    pub open spec fn spec_percent(&self) -> int {
        if self.total == 0 {
            0
        } else {
            self.discarded * 100 / (self.total as int)
        }
    }

    pub fn percent(&self) -> (percent: usize)
        requires
            self.discarded <= self.total,
        ensures
            percent == self.spec_percent(),
            percent <= 100,
    {
        if self.total == 0 {
            0
        } else {
            let discarded = self.discarded as u128;
            let total = self.total as u128;
            assert(discarded * 100 / (total as int) <= 100) by (nonlinear_arith)
                requires
                    discarded <= total,
                    total > 0,
            ;
            (discarded * 100 / total) as usize
        }
    }
}

/// What one cycle discarded, kind by kind.
#[derive(Debug, Clone, Copy, PartialEq, Eq, Structural)]
pub struct Discarded {
    pub runs: Tally,
    pub users: Tally,
    pub games: Tally,
    pub categories: Tally,
    pub levels: Tally,
}

impl Discarded {
    /// The tallies of a cycle that found `before` and left `after`.
    pub open spec fn counts(&self, before: TablesView, after: TablesView) -> bool {
        &&& self.runs.total == before.runs.len()
        &&& self.runs.discarded == before.runs.len() - after.runs.len()
        &&& self.users.total == before.users.len()
        &&& self.users.discarded == before.users.len() - after.users.len()
        &&& self.games.total == before.games.len()
        &&& self.games.discarded == before.games.len() - after.games.len()
        &&& self.categories.total == before.categories.len()
        &&& self.categories.discarded == before.categories.len() - after.categories.len()
        &&& self.levels.total == before.levels.len()
        &&& self.levels.discarded == before.levels.len() - after.levels.len()
    }
}

/// How one cycle ended, where it did not end the whole loop in failure.
pub enum Cycle {
    /// The tables were consistent: this is their store.
    Done(Database),
    /// The tables were pruned and the loop goes on.
    Pruned(Discarded),
}

/// Runs one cycle. Consistent tables are left as they are and their store
/// is built. Tables with a defect that pruning cannot mend are left as they
/// are and their report is handed back. All other tables lose the records
/// that their report marks dead, which is at least one.
pub fn cycle(tables: &mut Tables) -> (outcome: Result<Cycle, IntegrityErrors>)
    ensures
        match outcome {
            Ok(Cycle::Done(database)) => {
                &&& old(tables)@.consistent()
                &&& final(tables)@ == old(tables)@
                &&& database@ == old(tables)@
            },
            Ok(Cycle::Pruned(discarded)) => {
                &&& mendable(old(tables)@)
                &&& final(tables)@ == step(old(tables)@)
                &&& final(tables)@.total() < old(tables)@.total()
                &&& discarded.counts(old(tables)@, final(tables)@)
            },
            Err(report) => {
                &&& report@ == integrity_errors(old(tables)@)
                &&& is_fatal(report@)
                &&& final(tables)@ == old(tables)@
            },
        },
{
    let ghost found = tables@;
    proof {
        crate::data::tables::lemma_tables_bounded(tables);
    }
    match survey(tables) {
        Ok((ids, slugs)) => {
            let database = Database::assemble(tables.clone(), ids, slugs);
            Ok(Cycle::Done(database))
        },
        Err(errors) => {
            let report = IntegrityErrors { errors };
            if report.is_fatal() {
                return Err(report);
            }
            let dead = DeadIds::of_report(&report.errors);
            let runs = tables.runs.len();
            let users = tables.users.len();
            let games = tables.games.len();
            let categories = tables.categories.len();
            let levels = tables.levels.len();
            tables.prune(&dead);
            proof {
                lemma_step_shrinks(found);
                lemma_pruning_shrinks(found, dead@);
                crate::data::tables::lemma_tables_bounded(tables);
            }
            Ok(
                Cycle::Pruned(
                    Discarded {
                        runs: Tally { discarded: runs - tables.runs.len(), total: runs },
                        users: Tally { discarded: users - tables.users.len(), total: users },
                        games: Tally { discarded: games - tables.games.len(), total: games },
                        categories: Tally {
                            discarded: categories - tables.categories.len(),
                            total: categories,
                        },
                        levels: Tally { discarded: levels - tables.levels.len(), total: levels },
                    },
                ),
            )
        },
    }
}

/// The number of cycles that prune before the loop ends.
pub open spec fn pruning_cycles(t: TablesView) -> nat
    decreases t.total(),
{
    if mendable(t) && step(t).total() < t.total() {
        1 + pruning_cycles(step(t))
    } else {
        0
    }
}

/// What `n` cycles that prune leave of the tables.
pub open spec fn after_cycles(t: TablesView, n: nat) -> TablesView
    decreases n,
{
    if n == 0 {
        t
    } else {
        step(after_cycles(t, (n - 1) as nat))
    }
}

/// The loop takes a bounded number of cycles: no more cycles prune than
/// there are records, all kinds together.
pub proof fn lemma_cycles_bounded(t: TablesView)
    ensures
        pruning_cycles(t) <= t.total(),
    decreases t.total(),
{
    if mendable(t) && step(t).total() < t.total() {
        lemma_cycles_bounded(step(t));
    }
}

/// How the loop ended, and what each of its cycles discarded.
pub struct Reconciliation {
    /// The store of the tables that are left, or the report that halted the
    /// loop.
    pub outcome: Result<Database, IntegrityErrors>,
    /// What each cycle that pruned discarded, cycle by cycle.
    pub discarded: Vec<Discarded>,
}

/// Runs cycles until one ends the loop. What is left of the tables depends
/// on nothing but the tables that were given. It is either consistent, and
/// then its store is handed back, or holds a defect that pruning cannot
/// mend, and then its report is. No more cycles prune than there were
/// records.
pub fn reconcile(tables: &mut Tables) -> (done: Reconciliation)
    ensures
        final(tables)@ == reconciled(old(tables)@),
        match done.outcome {
            Ok(database) => database@ == final(tables)@ && final(tables)@.consistent(),
            Err(report) => report@ == integrity_errors(final(tables)@) && is_fatal(report@),
        },
        done.discarded@.len() == pruning_cycles(old(tables)@),
        done.discarded@.len() <= old(tables)@.total(),
        forall|k: int|
            0 <= k < done.discarded@.len() ==> (#[trigger] done.discarded@[k]).counts(
                after_cycles(old(tables)@, k as nat),
                after_cycles(old(tables)@, (k + 1) as nat),
            ),
{
    let mut discarded: Vec<Discarded> = Vec::new();
    proof {
        lemma_cycles_bounded(tables@);
    }
    loop
        invariant
            reconciled(tables@) == reconciled(old(tables)@),
            tables@ == after_cycles(old(tables)@, discarded@.len()),
            discarded@.len() + pruning_cycles(tables@) == pruning_cycles(old(tables)@),
            pruning_cycles(old(tables)@) <= old(tables)@.total(),
            forall|k: int|
                0 <= k < discarded@.len() ==> (#[trigger] discarded@[k]).counts(
                    after_cycles(old(tables)@, k as nat),
                    after_cycles(old(tables)@, (k + 1) as nat),
                ),
        decreases tables@.total(),
    {
        proof {
            crate::data::tables::lemma_tables_bounded(tables);
            crate::data::integrity::lemma_clean_report(tables@);
        }
        match cycle(tables) {
            Ok(Cycle::Done(database)) => {
                return Reconciliation { outcome: Ok(database), discarded };
            },
            Ok(Cycle::Pruned(counts)) => {
                discarded.push(counts);
            },
            Err(report) => {
                return Reconciliation { outcome: Err(report), discarded };
            },
        }
    }
}

} // verus!
