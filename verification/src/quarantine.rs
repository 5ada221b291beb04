use crate::names::{name_set, NameSet};
use crate::text::{chars_of, free_of, optional_text, string_views};
use crate::utils::Utils;
use vstd::prelude::*;
use vstd::string::StringExecFns;

verus! {

/// The name of the holding directory inside the working directory.
pub const HOLDING_DIR: &'static str = ".temp";

/// One of the two directories between which entries move.
#[derive(Clone, Copy, Debug, PartialEq, Eq, Structural)]
pub enum Place {
    /// The working directory.
    Working,
    /// The holding directory.
    Holding,
}

/// Why an entry cannot be moved.
#[derive(Clone, Copy, Debug, PartialEq, Eq, Structural)]
pub enum MoveError {
    /// The name is empty, holds a slash, or is `.`, `..` or the holding directory itself.
    InvalidName,
    /// The directory to move from has no such entry.
    Missing,
}

/// The first path of an ignore list that cannot be moved.
#[derive(Clone, Copy, Debug, PartialEq, Eq, Structural)]
pub struct QuarantineError {
    pub index: usize,
    pub reason: MoveError,
}

/// One move to carry out on disk: the entry `name` leaves `from` for the
/// other directory; where `replaces` holds, an entry of that name is there
/// already and is deleted first.
#[derive(Debug, PartialEq, Eq)]
pub struct Move {
    pub name: String,
    pub from: Place,
    pub replaces: bool,
}

/// A move as contracts see it.
pub struct MoveView {
    pub name: Seq<char>,
    pub from: Place,
    pub replaces: bool,
}

impl View for Move {
    type V = MoveView;

    open spec fn view(&self) -> MoveView {
        MoveView { name: self.name@, from: self.from, replaces: self.replaces }
    }
}

/// The views of a list of moves.
pub open spec fn move_views(moves: Seq<Move>) -> Seq<MoveView> {
    Seq::new(moves.len(), |i: int| moves[i]@)
}

/// The moves that take the given names, in order, out of `from` into a
/// directory that holds `dest` before the first of them.
pub open spec fn planned_moves(names: Seq<Seq<char>>, from: Place, dest: Set<Seq<char>>) -> Seq<
    MoveView,
> {
    Seq::new(
        names.len(),
        |i: int| MoveView { name: names[i], from, replaces: dest.contains(names[i]) },
    )
}

/// Whether `name` can name a top-level entry that is put aside: it is not
/// empty, holds no slash, and is none of `.`, `..` and the holding directory.
pub open spec fn is_entry_name(name: Seq<char>) -> bool {
    name.len() > 0 && free_of(name, '/') && name != "."@ && name != ".."@ && name != HOLDING_DIR@
}

/// The names of a list, as a set.
pub open spec fn names_in(paths: Seq<Seq<char>>) -> Set<Seq<char>> {
    Set::new(|n: Seq<char>| paths.contains(n))
}

/// Why the path at index `i` cannot be put aside, if it cannot: its name is
/// invalid, or the working directory has no such entry by the time its turn
/// comes (it never had, or an earlier path of the list took it).
pub open spec fn unmovable_reason(working: Set<Seq<char>>, paths: Seq<Seq<char>>, i: int) -> Option<
    MoveError,
> {
    if !is_entry_name(paths[i]) {
        Some(MoveError::InvalidName)
    } else if !working.contains(paths[i]) || paths.take(i).contains(paths[i]) {
        Some(MoveError::Missing)
    } else {
        None
    }
}

/// Whether every path of the list can be put aside.
pub open spec fn all_movable(working: Set<Seq<char>>, paths: Seq<Seq<char>>) -> bool {
    forall|i: int| 0 <= i < paths.len() ==> #[trigger] unmovable_reason(working, paths, i) is None
}

/// The working directory and the holding directory, each as the set of its
/// top-level entries. The holding directory itself is no entry of the working
/// directory here.
#[derive(Debug)]
pub struct Workspace {
    pub working: NameSet,
    pub holding: NameSet,
}

/// A workspace as contracts see it.
pub struct WorkspaceView {
    pub working: Set<Seq<char>>,
    pub holding: Set<Seq<char>>,
}

impl View for Workspace {
    type V = WorkspaceView;

    open spec fn view(&self) -> WorkspaceView {
        WorkspaceView { working: self.working@, holding: self.holding@ }
    }
}

/// The workspace after the paths were put aside.
pub open spec fn quarantined(ws: WorkspaceView, paths: Seq<Seq<char>>) -> WorkspaceView {
    WorkspaceView {
        working: ws.working.difference(names_in(paths)),
        holding: ws.holding.union(names_in(paths)),
    }
}

/// The workspace after everything held was brought back.
pub open spec fn restored(ws: WorkspaceView) -> WorkspaceView {
    WorkspaceView { working: ws.working.union(ws.holding), holding: Set::<Seq<char>>::empty() }
}

/// The workspace after entries named `names` were created in the working directory.
pub open spec fn recreated(ws: WorkspaceView, names: Set<Seq<char>>) -> WorkspaceView {
    WorkspaceView { working: ws.working.union(names), holding: ws.holding }
}

/// A list with one more name holds the names it held and that one.
pub proof fn lemma_names_in_push(names: Seq<Seq<char>>, name: Seq<char>)
    ensures
        names_in(names.push(name)) == names_in(names).insert(name),
{
    let longer = names.push(name);
    assert forall|n: Seq<char>| names_in(longer).contains(n) == names_in(names).insert(
        name,
    ).contains(n) by {
        if names.contains(n) {
            let j = choose|j: int| 0 <= j < names.len() && names[j] == n;
            assert(longer[j] == n);
        }
        if n == name {
            assert(longer[names.len() as int] == n);
        }
        if longer.contains(n) {
            let j = choose|j: int| 0 <= j < longer.len() && longer[j] == n;
            if j < names.len() {
                assert(names[j] == n);
            }
        }
    }
    assert(names_in(longer) =~= names_in(names).insert(name));
}

/// Tests whether `name` can name an entry that is put aside.
pub fn check_entry_name(name: &String) -> (out: bool)
    ensures
        out == is_entry_name(name@),
{
    let chars = chars_of(name.as_str());
    if chars.len() == 0 {
        return false;
    }
    let mut i: usize = 0;
    while i < chars.len()
        invariant
            i <= chars.len(),
            chars@ == name@,
            forall|j: int| 0 <= j < i ==> chars@[j] != '/',
        decreases chars.len() - i,
    {
        if chars[i] == '/' {
            assert(name@[i as int] == '/');
            return false;
        }
        i += 1;
    }
    let dot = String::from_str(".");
    let dots = String::from_str("..");
    let holding = String::from_str(HOLDING_DIR);
    !(*name == dot) && !(*name == dots) && !(*name == holding)
}

impl Utils {
    /// Moves the entry `name` from one directory to another. An entry of
    /// that name in the destination is replaced, and the result says whether
    /// there was one. Nothing changes when the move is refused.
    pub fn move_item(name: &String, from: &mut NameSet, to: &mut NameSet) -> (out: Result<
        bool,
        MoveError,
    >)
        requires
            old(from).wf(),
            old(to).wf(),
        ensures
            final(from).wf(),
            final(to).wf(),
            match out {
                Ok(replaced) => {
                    &&& is_entry_name(name@)
                    &&& old(from)@.contains(name@)
                    &&& replaced == old(to)@.contains(name@)
                    &&& final(from)@ == old(from)@.remove(name@)
                    &&& final(to)@ == old(to)@.insert(name@)
                },
                Err(reason) => {
                    &&& reason == if !is_entry_name(name@) {
                        MoveError::InvalidName
                    } else {
                        MoveError::Missing
                    }
                    &&& !is_entry_name(name@) || !old(from)@.contains(name@)
                    &&& *final(from) == *old(from)
                    &&& *final(to) == *old(to)
                },
            },
    {
        if !check_entry_name(name) {
            return Err(MoveError::InvalidName);
        }
        if !from.contains(name) {
            return Err(MoveError::Missing);
        }
        from.remove(name);
        let was_new = to.insert(name.clone());
        Ok(!was_new)
    }

    /// Moves every entry of `from` into `to`, in the order of the list, and
    /// returns the moves; `place` says which directory `from` is.
    pub fn move_items(from: &mut NameSet, place: Place, to: &mut NameSet) -> (out: Vec<Move>)
        requires
            old(from).wf(),
            old(to).wf(),
        ensures
            final(from).wf(),
            final(to).wf(),
            final(from)@ == Set::<Seq<char>>::empty(),
            final(from).names@.len() == 0,
            final(to)@ == old(to)@.union(old(from)@),
            move_views(out@) == planned_moves(string_views(old(from).names@), place, old(to)@),
    {
        let ghost names = string_views(from.names@);
        let mut out: Vec<Move> = Vec::new();
        let mut i: usize = 0;
        while i < from.names.len()
            invariant
                i <= from.names.len(),
                *from == *old(from),
                names == string_views(from.names@),
                names.no_duplicates(),
                to.wf(),
                to@ == old(to)@.union(names_in(names.take(i as int))),
                move_views(out@) == planned_moves(names.take(i as int), place, old(to)@),
            decreases from.names.len() - i,
        {
            let ghost before = move_views(out@);
            let ghost to_before = to@;
            let name = from.names[i].clone();
            let was_new = to.insert(name.clone());
            proof {
                assert(names[i as int] == name@);
                assert(names.take(i + 1) =~= names.take(i as int).push(name@));
                if names.take(i as int).contains(name@) {
                    let j = choose|j: int|
                        0 <= j < names.take(i as int).len() && names.take(i as int)[j] == name@;
                    assert(names[j] == names[i as int]);
                }
                assert(to_before.contains(name@) == old(to)@.contains(name@));
                lemma_names_in_push(names.take(i as int), name@);
                assert(to@ =~= old(to)@.union(names_in(names.take(i + 1))));
            }
            let ghost moved = MoveView { name: name@, from: place, replaces: !was_new };
            out.push(Move { name, from: place, replaces: !was_new });
            assert(move_views(out@) =~= before.push(moved));
            assert(before.push(moved) =~= planned_moves(names.take(i + 1), place, old(to)@));
            i += 1;
        }
        proof {
            assert(names.take(names.len() as int) =~= names);
            assert(names_in(names) =~= from@);
        }
        *from = NameSet::new();
        out
    }
}

impl Workspace {
    /// Whether neither directory lists a name twice.
    pub open spec fn wf(&self) -> bool {
        self.working.wf() && self.holding.wf()
    }

    /// A workspace whose working directory has the given entries and whose
    /// holding directory is empty. The holding directory itself, if listed, is left out.
    pub fn new(entries: &Vec<String>) -> (out: Workspace)
        ensures
            out.wf(),
            out@.working == name_set(entries@).remove(HOLDING_DIR@),
            out@.holding == Set::<Seq<char>>::empty(),
    {
        let mut working = NameSet::from_names(entries);
        let holding_name = String::from_str(HOLDING_DIR);
        working.remove(&holding_name);
        Workspace { working, holding: NameSet::new() }
    }

    /// Puts the listed entries of the working directory aside, in the order
    /// of the list, and returns the moves to carry out. If some path cannot
    /// be moved, the first such path is reported and nothing is planned or changed.
    pub fn quarantine(&mut self, paths: &Vec<String>) -> (out: Result<Vec<Move>, QuarantineError>)
        requires
            old(self).wf(),
        ensures
            final(self).wf(),
            match out {
                Ok(moves) => {
                    &&& all_movable(old(self)@.working, string_views(paths@))
                    &&& final(self)@ == quarantined(old(self)@, string_views(paths@))
                    &&& move_views(moves@) == planned_moves(
                        string_views(paths@),
                        Place::Working,
                        old(self)@.holding,
                    )
                },
                Err(e) => {
                    &&& e.index < paths@.len()
                    &&& unmovable_reason(old(self)@.working, string_views(paths@), e.index as int)
                        == Some(e.reason)
                    &&& forall|j: int|
                        0 <= j < e.index ==> #[trigger] unmovable_reason(
                            old(self)@.working,
                            string_views(paths@),
                            j,
                        ) is None
                    &&& *final(self) == *old(self)
                },
            },
    {
        let ghost all = string_views(paths@);
        let ghost working0 = self.working@;
        let ghost holding0 = self.holding@;
        let mut working = self.working.copy();
        let mut holding = self.holding.copy();
        let mut moves: Vec<Move> = Vec::new();
        let mut i: usize = 0;
        assert(working@ =~= working0.difference(names_in(all.take(0))));
        assert(holding@ =~= holding0.union(names_in(all.take(0))));
        while i < paths.len()
            invariant
                i <= paths.len(),
                *self == *old(self),
                self.wf(),
                working0 == self.working@,
                holding0 == self.holding@,
                all == string_views(paths@),
                working.wf(),
                holding.wf(),
                working@ == working0.difference(names_in(all.take(i as int))),
                holding@ == holding0.union(names_in(all.take(i as int))),
                forall|j: int| 0 <= j < i ==> #[trigger] unmovable_reason(working0, all, j) is None,
                move_views(moves@) == planned_moves(all.take(i as int), Place::Working, holding0),
            decreases paths.len() - i,
        {
            let ghost before = move_views(moves@);
            let ghost working_before = working@;
            let ghost holding_before = holding@;
            let name = paths[i].clone();
            proof {
                assert(all[i as int] == name@);
                assert(all.take(i + 1) =~= all.take(i as int).push(name@));
                lemma_names_in_push(all.take(i as int), name@);
                assert(working_before.contains(name@) == (working0.contains(name@) && !all.take(
                    i as int,
                ).contains(name@)));
            }
            match Utils::move_item(&name, &mut working, &mut holding) {
                Ok(replaced) => {
                    proof {
                        assert(working@ =~= working0.difference(names_in(all.take(i + 1))));
                        assert(holding@ =~= holding0.union(names_in(all.take(i + 1))));
                        assert(replaced == holding0.contains(name@));
                    }
                    let ghost moved = MoveView {
                        name: name@,
                        from: Place::Working,
                        replaces: replaced,
                    };
                    moves.push(Move { name, from: Place::Working, replaces: replaced });
                    assert(move_views(moves@) =~= before.push(moved));
                    assert(before.push(moved) =~= planned_moves(
                        all.take(i + 1),
                        Place::Working,
                        holding0,
                    ));
                },
                Err(reason) => {
                    return Err(QuarantineError { index: i, reason });
                },
            }
            i += 1;
        }
        assert(all.take(paths@.len() as int) =~= all);
        self.working = working;
        self.holding = holding;
        Ok(moves)
    }

    /// Brings every entry of the holding directory back, in the order in
    /// which that directory lists them, and returns the moves to carry out;
    /// after them the holding directory is empty and can be deleted.
    pub fn restore(&mut self) -> (out: Vec<Move>)
        requires
            old(self).wf(),
        ensures
            final(self).wf(),
            final(self)@ == restored(old(self)@),
            final(self).holding.names@.len() == 0,
            move_views(out@) == planned_moves(
                string_views(old(self).holding.names@),
                Place::Holding,
                old(self)@.working,
            ),
    {
        Utils::move_items(&mut self.holding, Place::Holding, &mut self.working)
    }
}

/// Whether an entry is spared by a wipe: it is the holding directory, or the
/// updater's own executable.
pub open spec fn is_protected(name: Seq<char>, executable: Option<Seq<char>>) -> bool {
    name == HOLDING_DIR@ || executable == Some(name)
}

/// The entries that a wipe deletes: all but the protected ones, in the order given.
pub open spec fn doomed_entries(entries: Seq<Seq<char>>, executable: Option<Seq<char>>) -> Seq<
    Seq<char>,
>
    decreases entries.len(),
{
    if entries.len() == 0 {
        Seq::<Seq<char>>::empty()
    } else if is_protected(entries.last(), executable) {
        doomed_entries(entries.drop_last(), executable)
    } else {
        doomed_entries(entries.drop_last(), executable).push(entries.last())
    }
}

/// The workspace after a wipe: of the working directory only protected entries are left.
pub open spec fn wiped(ws: WorkspaceView, executable: Option<Seq<char>>) -> WorkspaceView {
    WorkspaceView {
        working: ws.working.filter(|n: Seq<char>| is_protected(n, executable)),
        holding: ws.holding,
    }
}

/// A wipe deletes exactly the entries that are not protected.
pub proof fn lemma_doomed_entries(
    entries: Seq<Seq<char>>,
    executable: Option<Seq<char>>,
    n: Seq<char>,
)
    ensures
        doomed_entries(entries, executable).contains(n) <==> entries.contains(n) && !is_protected(
            n,
            executable,
        ),
    decreases entries.len(),
{
    if entries.len() > 0 {
        let rest = entries.drop_last();
        lemma_doomed_entries(rest, executable, n);
        let doomed = doomed_entries(entries, executable);
        let before = doomed_entries(rest, executable);
        let last = entries.last();
        if doomed.contains(n) {
            let j = choose|j: int| 0 <= j < doomed.len() && doomed[j] == n;
            if j < before.len() {
                assert(before[j] == n);
                assert(before.contains(n));
                let k = choose|k: int| 0 <= k < rest.len() && rest[k] == n;
                assert(entries[k] == n);
            } else {
                assert(!is_protected(last, executable));
                assert(entries[entries.len() - 1] == n);
            }
        }
        if entries.contains(n) && !is_protected(n, executable) {
            let k = choose|k: int| 0 <= k < entries.len() && entries[k] == n;
            if k < rest.len() {
                assert(rest[k] == n);
                assert(rest.contains(n));
                let j = choose|j: int| 0 <= j < before.len() && before[j] == n;
                assert(doomed[j] == n);
            } else {
                assert(last == n);
                assert(doomed[doomed.len() - 1] == n);
            }
        }
    }
}

impl Utils {
    /// The entries of a directory that a wipe deletes: all of `entries` but
    /// the holding directory and the updater's own executable, whose entry
    /// name, if it lies in this directory, is `executable`.
    pub fn clean_working_path(entries: &Vec<String>, executable: &Option<String>) -> (out: Vec<
        String,
    >)
        ensures
            string_views(out@) == doomed_entries(
                string_views(entries@),
                optional_text(*executable),
            ),
    {
        let ghost all = string_views(entries@);
        let ghost exe = optional_text(*executable);
        let holding = String::from_str(HOLDING_DIR);
        let mut out: Vec<String> = Vec::new();
        let mut i: usize = 0;
        while i < entries.len()
            invariant
                i <= entries.len(),
                all == string_views(entries@),
                exe == optional_text(*executable),
                holding@ == HOLDING_DIR@,
                string_views(out@) == doomed_entries(all.take(i as int), exe),
            decreases entries.len() - i,
        {
            let ghost before = string_views(out@);
            assert(all.take(i + 1).drop_last() =~= all.take(i as int));
            assert(all.take(i + 1).last() == entries@[i as int]@);
            let is_executable = match executable {
                Some(name) => *name == entries[i],
                None => false,
            };
            if !(entries[i] == holding) && !is_executable {
                out.push(entries[i].clone());
                assert(string_views(out@) =~= before.push(entries@[i as int]@));
            }
            i += 1;
        }
        assert(all.take(entries@.len() as int) =~= all);
        out
    }

    /// Brings everything in the holding directory back into the working
    /// directory and returns the moves to carry out; after them the holding
    /// directory is empty and is deleted.
    pub fn clear_temp(workspace: &mut Workspace) -> (out: Vec<Move>)
        requires
            old(workspace).wf(),
        ensures
            final(workspace).wf(),
            final(workspace)@ == restored(old(workspace)@),
            final(workspace).holding.names@.len() == 0,
            move_views(out@) == planned_moves(
                string_views(old(workspace).holding.names@),
                Place::Holding,
                old(workspace)@.working,
            ),
    {
        workspace.restore()
    }
}

impl Workspace {
    /// Deletes every entry of the working directory but the protected ones,
    /// and returns the names to delete on disk, in the order of the listing.
    pub fn wipe(&mut self, executable: &Option<String>) -> (out: Vec<String>)
        requires
            old(self).wf(),
        ensures
            final(self).wf(),
            final(self)@ == wiped(old(self)@, optional_text(*executable)),
            string_views(out@) == doomed_entries(
                string_views(old(self).working.names@),
                optional_text(*executable),
            ),
    {
        let ghost exe = optional_text(*executable);
        let out = Utils::clean_working_path(&self.working.names, executable);
        let mut kept = NameSet::new();
        let holding = String::from_str(HOLDING_DIR);
        if self.working.contains(&holding) {
            kept.insert(holding);
        }
        match executable {
            Some(name) => {
                if self.working.contains(name) {
                    kept.insert(name.clone());
                }
            },
            None => {},
        }
        assert(kept@ =~= self.working@.filter(|n: Seq<char>| is_protected(n, exe)));
        self.working = kept;
        out
    }
}

/// Putting entries aside and bringing them back leaves the working directory
/// with the entries it had: for every list of paths that can all be put
/// aside, starting with an empty holding directory, and whichever of those
/// names are created again in the working directory in between.
pub proof fn lemma_quarantine_then_restore(
    ws: WorkspaceView,
    paths: Seq<Seq<char>>,
    again: Set<Seq<char>>,
)
    requires
        ws.holding == Set::<Seq<char>>::empty(),
        all_movable(ws.working, paths),
        again.subset_of(names_in(paths)),
    ensures
        restored(recreated(quarantined(ws, paths), again)).working == ws.working,
        restored(recreated(quarantined(ws, paths), again)).holding == Set::<Seq<char>>::empty(),
{
    let end = restored(recreated(quarantined(ws, paths), again));
    assert forall|n: Seq<char>| end.working.contains(n) == ws.working.contains(n) by {
        if names_in(paths).contains(n) {
            let i = choose|i: int| 0 <= i < paths.len() && paths[i] == n;
            assert(unmovable_reason(ws.working, paths, i) is None);
        }
    }
    assert(end.working =~= ws.working);
}

} // verus!
