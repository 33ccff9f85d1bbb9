//! Moving what is kept in the legacy directory to where it belongs, without ever
//! replacing anything.

use vstd::prelude::*;
#[allow(unused_imports)]
use vstd::string::*;

use crate::bytes;
use crate::bytes::{copy_bytes, lossy_text};
use crate::error;
use crate::error::{message3, ToolError};
use crate::layout::{DavidPaths, PathsModel};
use crate::path;
use crate::path::join;

verus! {

/// What is found in the legacy directory.
#[derive(Clone, Copy, Debug, PartialEq, Eq, Structural)]
pub enum Kind {
    Config,
    /// The worktrees of a repository.
    Repository,
    /// The record of a session.
    Session,
}

/// Something to be moved.
#[derive(Debug)]
pub struct Item {
    pub kind: Kind,
    /// The name of the directory or file; of no interest for a configuration.
    pub name: Vec<u8>,
    /// There is something where it would go.
    pub taken: bool,
}

#[verifier::ext_equal]
pub struct ItemModel {
    pub kind: Kind,
    pub name: Seq<u8>,
    pub taken: bool,
}

impl View for Item {
    type V = ItemModel;

    open spec fn view(&self) -> ItemModel {
        ItemModel { kind: self.kind, name: self.name@, taken: self.taken }
    }
}

/// A move from one place to another.
#[derive(Debug)]
pub struct Move {
    pub from: Vec<u8>,
    pub to: Vec<u8>,
}

impl View for Move {
    type V = (Seq<u8>, Seq<u8>);

    open spec fn view(&self) -> (Seq<u8>, Seq<u8>) {
        (self.from@, self.to@)
    }
}

pub open spec fn item_views(items: Seq<Item>) -> Seq<ItemModel> {
    items.map_values(|item: Item| item@)
}

pub open spec fn move_views(moves: Seq<Move>) -> Seq<(Seq<u8>, Seq<u8>)> {
    moves.map_values(|one: Move| one@)
}

/// Where something is kept in a layout.
pub open spec fn place(paths: PathsModel, kind: Kind, name: Seq<u8>) -> Seq<u8> {
    match kind {
        Kind::Config => paths.config,
        Kind::Repository => path::joined(paths.worktrees, name),
        Kind::Session => path::joined(paths.sessions, name),
    }
}

impl DavidPaths {
    /// Where something is kept.
    pub fn place_of(&self, kind: Kind, name: &[u8]) -> (out: Vec<u8>)
        ensures
            out@ == place(self@, kind, name@),
    {
        match kind {
            Kind::Config => copy_bytes(self.config.as_slice()),
            Kind::Repository => join(self.worktrees.as_slice(), name),
            Kind::Session => join(self.sessions.as_slice(), name),
        }
    }
}

/// The move for something.
pub open spec fn move_of(legacy: PathsModel, paths: PathsModel, item: ItemModel) -> (
    Seq<u8>,
    Seq<u8>,
) {
    (place(legacy, item.kind, item.name), place(paths, item.kind, item.name))
}

/// The first thing that cannot be moved because its place is taken.
pub open spec fn first_conflict(items: Seq<ItemModel>) -> Option<ItemModel>
    decreases items.len(),
{
    if items.len() == 0 {
        None
    } else if items[0].taken {
        Some(items[0])
    } else {
        first_conflict(items.skip(1))
    }
}

/// The moves that bring everything to its place, if all places are free;
/// otherwise nothing is moved.
pub fn plan_migration(legacy: &DavidPaths, paths: &DavidPaths, items: &Vec<Item>) -> (out: Result<
    Vec<Move>,
    ToolError,
>)
    ensures
        match out {
            Ok(moves) => first_conflict(item_views(items@)) is None && move_views(moves@)
                == item_views(items@).map_values(
                |item: ItemModel| move_of(legacy@, paths@, item),
            ),
            Err(e) => first_conflict(item_views(items@)) matches Some(item) && error::is_message(
                e,
                "migration would overwrite "@ + bytes::utf8_lossy(
                    place(paths@, item.kind, item.name),
                ) + "; resolve the conflict and retry"@,
            ),
        },
{
    let ghost all = item_views(items@);
    let ghost to_move = |item: ItemModel| move_of(legacy@, paths@, item);
    let mut moves: Vec<Move> = Vec::new();
    let mut i: usize = 0;
    assert(all.skip(0) =~= all);
    assert(move_views(moves@) =~= all.map_values(to_move).take(0));
    while i < items.len()
        invariant
            all == item_views(items@),
            to_move == (|item: ItemModel| move_of(legacy@, paths@, item)),
            i <= items@.len(),
            first_conflict(all.skip(i as int)) == first_conflict(all),
            move_views(moves@) == all.map_values(to_move).take(i as int),
        decreases items@.len() - i,
    {
        assert(all.skip(i as int)[0] == items@[i as int]@);
        let kind: Kind = items[i].kind;
        let to: Vec<u8> = paths.place_of(kind, items[i].name.as_slice());
        if items[i].taken {
            return Err(
                message3(
                    "migration would overwrite ",
                    lossy_text(to.as_slice()).as_str(),
                    "; resolve the conflict and retry",
                ),
            );
        }
        let from: Vec<u8> = legacy.place_of(kind, items[i].name.as_slice());
        let ghost before = move_views(moves@);
        moves.push(Move { from, to });
        assert(move_views(moves@) =~= before.push(move_of(legacy@, paths@, all[i as int])));
        assert(move_views(moves@) =~= all.map_values(to_move).take(i + 1));
        assert(all.skip(i as int).skip(1) =~= all.skip(i + 1));
        i = i + 1;
    }
    assert(all.map_values(to_move).take(i as int) =~= all.map_values(to_move));
    Ok(moves)
}

/// The line that reports a move, done or only planned.
pub open spec fn move_text(one: (Seq<u8>, Seq<u8>), dry_run: bool) -> Seq<char> {
    (if dry_run {
        "would move "@
    } else {
        "moved "@
    }) + bytes::utf8_lossy(one.0) + " to "@ + bytes::utf8_lossy(one.1) + "\n"@
}

pub fn describe_move(one: &Move, dry_run: bool) -> (out: String)
    ensures
        out@ == move_text(one@, dry_run),
{
    let mut out: String = if dry_run {
        "would move ".to_owned()
    } else {
        "moved ".to_owned()
    };
    out.append(lossy_text(one.from.as_slice()).as_str());
    out.append(" to ");
    out.append(lossy_text(one.to.as_slice()).as_str());
    out.append("\n");
    out
}

/// What comes next in a migration, given how many moves are done and whether one
/// has failed.
#[derive(Clone, Copy, Debug, PartialEq, Eq, Structural)]
pub enum MigrationStep {
    /// Make the move with this number.
    Move(usize),
    /// Remove the directories of the legacy layout that are empty.
    RemoveEmpty,
    /// Stop; whatever has not been moved stays where it is.
    Stop,
}

pub open spec fn migration_step(moves: nat, done: nat, failed: bool, dry_run: bool) -> MigrationStep {
    if dry_run || failed {
        MigrationStep::Stop
    } else if done < moves {
        MigrationStep::Move(done as usize)
    } else {
        MigrationStep::RemoveEmpty
    }
}

pub fn next_migration_step(moves: usize, done: usize, failed: bool, dry_run: bool) -> (step:
    MigrationStep)
    ensures
        step == migration_step(moves as nat, done as nat, failed, dry_run),
{
    if dry_run || failed {
        MigrationStep::Stop
    } else if done < moves {
        MigrationStep::Move(done)
    } else {
        MigrationStep::RemoveEmpty
    }
}

/// Nothing is moved to a place that is taken.
pub proof fn nothing_is_overwritten(items: Seq<ItemModel>)
    requires
        first_conflict(items) is None,
    ensures
        forall|i: int| 0 <= i < items.len() ==> !(#[trigger] items[i]).taken,
    decreases items.len(),
{
    if items.len() > 0 {
        let rest = items.skip(1);
        nothing_is_overwritten(rest);
        assert forall|i: int| 0 <= i < items.len() implies !(#[trigger] items[i]).taken by {
            if i > 0 {
                assert(items[i] == rest[i - 1]);
            }
        }
    }
}

/// After a failure nothing of the legacy directory is removed, and a dry run
/// changes nothing at all.
pub proof fn failed_migrations_keep_the_source(
    moves: nat,
    done: nat,
    failed: bool,
    dry_run: bool,
)
    requires
        moves <= usize::MAX,
    ensures
        migration_step(moves, done, failed, dry_run) == MigrationStep::RemoveEmpty ==> !failed
            && !dry_run && done >= moves,
        migration_step(moves, done, failed, dry_run) is Move ==> !failed && !dry_run && done
            < moves,
{
}

/// As long as nothing fails, a migration makes the move that is due, and once all are
/// made, it removes what is empty: all moves are made, each once and in their order.
pub proof fn migrations_make_every_move(moves: nat, done: nat)
    requires
        moves <= usize::MAX,
        done <= moves,
    ensures
        done < moves ==> migration_step(moves, done, false, false) == MigrationStep::Move(
            done as usize,
        ),
        done == moves ==> migration_step(moves, done, false, false) == MigrationStep::RemoveEmpty,
{
}

/// A migration that fails, or that is only tried, makes no further move and removes
/// nothing.
pub proof fn stopped_migrations_make_no_move(moves: nat, done: nat, failed: bool, dry_run: bool)
    requires
        failed || dry_run,
    ensures
        migration_step(moves, done, failed, dry_run) == MigrationStep::Stop,
{
}

/// A conflict is the first thing whose place is taken, and there is none only if all
/// places are free.
pub proof fn conflicts_are_the_first_taken_places(items: Seq<ItemModel>, at: int)
    requires
        0 <= at <= items.len(),
        forall|i: int| 0 <= i < at ==> !(#[trigger] items[i]).taken,
        at < items.len() ==> items[at].taken,
    ensures
        first_conflict(items) == (if at < items.len() {
            Some(items[at])
        } else {
            None::<ItemModel>
        }),
    decreases items.len(),
{
    if at > 0 {
        let rest = items.skip(1);
        assert(!items[0].taken);
        assert forall|i: int| 0 <= i < at - 1 implies !(#[trigger] rest[i]).taken by {
            assert(rest[i] == items[i + 1]);
        }
        conflicts_are_the_first_taken_places(rest, at - 1);
    }
}

/// A configuration is moved to the place of the configuration, and whatever has a
/// name keeps it: repositories among the worktrees, records among the sessions.
pub proof fn moves_keep_kind_and_name(legacy: PathsModel, paths: PathsModel, name: Seq<u8>, taken: bool)
    ensures
        move_of(legacy, paths, ItemModel { kind: Kind::Config, name, taken }) == (
            legacy.config,
            paths.config,
        ),
        move_of(legacy, paths, ItemModel { kind: Kind::Repository, name, taken }) == (
            path::joined(legacy.worktrees, name),
            path::joined(paths.worktrees, name),
        ),
        move_of(legacy, paths, ItemModel { kind: Kind::Session, name, taken }) == (
            path::joined(legacy.sessions, name),
            path::joined(paths.sessions, name),
        ),
{
}

/// The report of a move names both places, and says whether it was made.
pub proof fn reports_name_both_places(one: (Seq<u8>, Seq<u8>))
    ensures
        move_text(one, true) == "would move "@ + bytes::utf8_lossy(one.0) + " to "@
            + bytes::utf8_lossy(one.1) + "\n"@,
        move_text(one, false) == "moved "@ + bytes::utf8_lossy(one.0) + " to "@
            + bytes::utf8_lossy(one.1) + "\n"@,
{
}

} // verus!
