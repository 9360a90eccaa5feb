//! Creating a directory and everything above it, relative to a bucket's
//! directory.
//!
//! The path is tried from the whole of it downwards until a directory can be
//! made, then upwards again. The machine here decides what to try next; whoever
//! runs it makes the system calls and reports back.

use vstd::prelude::*;

use crate::exchange;

verus! {

/// What making one directory came to.
#[derive(Debug)]
pub enum MkdirReply<S = String> {
    Made,
    /// Something above the directory is missing.
    NotFound(S),
    Failed(S),
}

/// What an action came to.
#[derive(Debug)]
pub enum DirEvent<S = String> {
    Mkdir(MkdirReply<S>),
    IsDir(bool),
}

/// What to do next. A number says how many of the path's names to take.
#[derive(Debug)]
pub enum DirAction<S = String> {
    Mkdir(usize),
    IsDir(usize),
    Finish(Result<(), S>),
}

/// Where the work stands: on the way down, on the way up again, or asking
/// whether what could not be made is there already.
#[derive(Debug)]
pub enum DirPhase<S = String> {
    Down(usize),
    DownCheck(usize, S),
    Up(usize),
    UpCheck(usize, S),
    Done,
}

impl View for MkdirReply<String> {
    type V = MkdirReply<Seq<char>>;

    open spec fn view(&self) -> MkdirReply<Seq<char>> {
        match self {
            MkdirReply::Made => MkdirReply::Made,
            MkdirReply::NotFound(e) => MkdirReply::NotFound(e@),
            MkdirReply::Failed(e) => MkdirReply::Failed(e@),
        }
    }
}

impl View for DirEvent<String> {
    type V = DirEvent<Seq<char>>;

    open spec fn view(&self) -> DirEvent<Seq<char>> {
        match self {
            DirEvent::Mkdir(reply) => DirEvent::Mkdir(reply@),
            DirEvent::IsDir(yes) => DirEvent::IsDir(*yes),
        }
    }
}

impl View for DirAction<String> {
    type V = DirAction<Seq<char>>;

    open spec fn view(&self) -> DirAction<Seq<char>> {
        match self {
            DirAction::Mkdir(n) => DirAction::Mkdir(*n),
            DirAction::IsDir(n) => DirAction::IsDir(*n),
            DirAction::Finish(Ok(())) => DirAction::Finish(Ok(())),
            DirAction::Finish(Err(e)) => DirAction::Finish(Err(e@)),
        }
    }
}

impl View for DirPhase<String> {
    type V = DirPhase<Seq<char>>;

    open spec fn view(&self) -> DirPhase<Seq<char>> {
        match self {
            DirPhase::Down(n) => DirPhase::Down(*n),
            DirPhase::DownCheck(n, e) => DirPhase::DownCheck(*n, e@),
            DirPhase::Up(n) => DirPhase::Up(*n),
            DirPhase::UpCheck(n, e) => DirPhase::UpCheck(*n, e@),
            DirPhase::Done => DirPhase::Done,
        }
    }
}

/// A phase of creating a path of `total` names.
pub open spec fn phase_ok<S>(total: usize, phase: DirPhase<S>) -> bool {
    match phase {
        DirPhase::Down(n) => 1 <= n <= total,
        DirPhase::DownCheck(n, _) => 1 <= n <= total,
        DirPhase::Up(n) => 1 <= n <= total,
        DirPhase::UpCheck(n, _) => 1 <= n <= total,
        DirPhase::Done => true,
    }
}

/// The event answers what the phase waits for.
pub open spec fn event_fits<S>(phase: DirPhase<S>, event: DirEvent<S>) -> bool {
    match phase {
        DirPhase::Down(_) | DirPhase::Up(_) => event is Mkdir,
        DirPhase::DownCheck(_, _) | DirPhase::UpCheck(_, _) => event is IsDir,
        DirPhase::Done => false,
    }
}

/// The directory of the first `n` names is there: go on with the next one.
pub open spec fn after_dir(total: usize, n: usize) -> (DirPhase<Seq<char>>, DirAction<Seq<char>>) {
    if n < total {
        (DirPhase::Up((n + 1) as usize), DirAction::Mkdir((n + 1) as usize))
    } else {
        (DirPhase::Done, DirAction::Finish(Ok(())))
    }
}

/// What to do first for a path of `total` names: nothing for the empty path.
pub open spec fn first_dir_action(total: usize) -> (DirPhase<Seq<char>>, DirAction<Seq<char>>) {
    if total == 0 {
        (DirPhase::Done, DirAction::Finish(Ok(())))
    } else {
        (DirPhase::Down(total), DirAction::Mkdir(total))
    }
}

/// What to do after `event`. On the way down a missing parent is created
/// first, and then the directory is tried again; a directory that cannot be
/// made is no error if it is there already.
pub open spec fn next_dir_action(
    total: usize,
    phase: DirPhase<Seq<char>>,
    event: DirEvent<Seq<char>>,
) -> (DirPhase<Seq<char>>, DirAction<Seq<char>>) {
    match (phase, event) {
        (DirPhase::Down(n), DirEvent::Mkdir(MkdirReply::Made)) => after_dir(total, n),
        (DirPhase::Down(n), DirEvent::Mkdir(MkdirReply::NotFound(_))) => if n > 1 {
            (DirPhase::Down((n - 1) as usize), DirAction::Mkdir((n - 1) as usize))
        } else {
            (DirPhase::Up(n), DirAction::Mkdir(n))
        },
        (DirPhase::Down(n), DirEvent::Mkdir(MkdirReply::Failed(e))) => (
            DirPhase::DownCheck(n, e),
            DirAction::IsDir(n),
        ),
        (DirPhase::Up(n), DirEvent::Mkdir(MkdirReply::Made)) => after_dir(total, n),
        (DirPhase::Up(n), DirEvent::Mkdir(MkdirReply::NotFound(e))) => (
            DirPhase::UpCheck(n, e),
            DirAction::IsDir(n),
        ),
        (DirPhase::Up(n), DirEvent::Mkdir(MkdirReply::Failed(e))) => (
            DirPhase::UpCheck(n, e),
            DirAction::IsDir(n),
        ),
        (DirPhase::DownCheck(n, e), DirEvent::IsDir(yes)) => if yes {
            after_dir(total, n)
        } else {
            (DirPhase::Done, DirAction::Finish(Err(e)))
        },
        (DirPhase::UpCheck(n, e), DirEvent::IsDir(yes)) => if yes {
            after_dir(total, n)
        } else {
            (DirPhase::Done, DirAction::Finish(Err(e)))
        },
        (_, _) => (DirPhase::Done, DirAction::Finish(Err(exchange::unexpected()))),
    }
}

/// [`std::fs::create_dir_all`] except it is relative to a dirfd.
#[derive(Debug)]
pub struct CreateDirAll {
    pub total: usize,
    pub phase: DirPhase,
}

impl CreateDirAll {
    /// Starts on a path of `total` names.
    pub fn start(total: usize) -> (out: (CreateDirAll, DirAction))
        ensures
            out.0.total == total,
            (out.0.phase@, out.1@) == first_dir_action(total),
            phase_ok(total, out.0.phase@),
    {
        if total == 0 {
            (CreateDirAll { total, phase: DirPhase::Done }, DirAction::Finish(Ok(())))
        } else {
            (CreateDirAll { total, phase: DirPhase::Down(total) }, DirAction::Mkdir(total))
        }
    }

    fn go_on(&mut self, n: usize) -> (action: DirAction)
        requires
            1 <= n <= old(self).total,
        ensures
            final(self).total == old(self).total,
            (final(self).phase@, action@) == after_dir(old(self).total, n),
    {
        if n < self.total {
            self.phase = DirPhase::Up(n + 1);
            DirAction::Mkdir(n + 1)
        } else {
            self.phase = DirPhase::Done;
            DirAction::Finish(Ok(()))
        }
    }

    /// Takes what the last action came to and says what to do next.
    pub fn step(&mut self, event: DirEvent) -> (action: DirAction)
        requires
            phase_ok(old(self).total, old(self).phase@),
            event_fits(old(self).phase@, event@),
        ensures
            final(self).total == old(self).total,
            phase_ok(final(self).total, final(self).phase@),
            (final(self).phase@, action@) == next_dir_action(
                old(self).total,
                old(self).phase@,
                event@,
            ),
    {
        let mut phase = DirPhase::Done;
        std::mem::swap(&mut phase, &mut self.phase);
        match (phase, event) {
            (DirPhase::Down(n), DirEvent::Mkdir(reply)) => match reply {
                MkdirReply::Made => self.go_on(n),
                MkdirReply::NotFound(_) => if n > 1 {
                    self.phase = DirPhase::Down(n - 1);
                    DirAction::Mkdir(n - 1)
                } else {
                    self.phase = DirPhase::Up(n);
                    DirAction::Mkdir(n)
                },
                MkdirReply::Failed(e) => {
                    self.phase = DirPhase::DownCheck(n, e);
                    DirAction::IsDir(n)
                },
            },
            (DirPhase::Up(n), DirEvent::Mkdir(reply)) => match reply {
                MkdirReply::Made => self.go_on(n),
                MkdirReply::NotFound(e) | MkdirReply::Failed(e) => {
                    self.phase = DirPhase::UpCheck(n, e);
                    DirAction::IsDir(n)
                },
            },
            (DirPhase::DownCheck(n, e), DirEvent::IsDir(yes)) | (
                DirPhase::UpCheck(n, e),
                DirEvent::IsDir(yes),
            ) => if yes {
                self.go_on(n)
            } else {
                DirAction::Finish(Err(e))
            },
            (_, _) => DirAction::Finish(Err(exchange::unexpected_event())),
        }
    }
}

/// A directory tree: which paths are directories and which are files. The
/// directory that paths are relative to is always there.
pub struct Tree {
    pub dirs: Set<Seq<Seq<char>>>,
    pub files: Set<Seq<Seq<char>>>,
}

impl Tree {
    /// Nothing is both, and what is in the tree stands in a directory of it.
    pub open spec fn wf(self) -> bool {
        &&& self.dirs.disjoint(self.files)
        &&& forall|p: Seq<Seq<char>>| #[trigger]
            self.dirs.contains(p) ==> p.len() > 0 && self.is_dir(p.drop_last())
        &&& forall|p: Seq<Seq<char>>| #[trigger]
            self.files.contains(p) ==> p.len() > 0 && self.is_dir(p.drop_last())
    }

    pub open spec fn is_dir(self, path: Seq<Seq<char>>) -> bool {
        path.len() == 0 || self.dirs.contains(path)
    }

    /// None of the paths on the way to `path`, itself included, is a file.
    pub open spec fn unblocked(self, path: Seq<Seq<char>>) -> bool {
        forall|k: int| 0 < k <= path.len() ==> !self.files.contains(#[trigger] path.take(k))
    }

    /// Makes one directory.
    pub open spec fn mkdir(self, path: Seq<Seq<char>>) -> (Tree, MkdirReply<Seq<char>>) {
        if self.dirs.contains(path) || self.files.contains(path) {
            (self, MkdirReply::Failed("File exists"@))
        } else if self.is_dir(path.drop_last()) {
            (Tree { dirs: self.dirs.insert(path), ..self }, MkdirReply::Made)
        } else if self.unblocked(path) {
            (self, MkdirReply::NotFound("No such file or directory"@))
        } else {
            (self, MkdirReply::Failed("Not a directory"@))
        }
    }

    /// Carries out an action for `path`.
    pub open spec fn perform(self, path: Seq<Seq<char>>, action: DirAction<Seq<char>>) -> (
        Tree,
        DirEvent<Seq<char>>,
    ) {
        match action {
            DirAction::Mkdir(n) => {
                let (tree, reply) = self.mkdir(path.take(n as int));
                (tree, DirEvent::Mkdir(reply))
            },
            DirAction::IsDir(n) => (self, DirEvent::IsDir(self.is_dir(path.take(n as int)))),
            DirAction::Finish(_) => (self, DirEvent::IsDir(true)),
        }
    }

    /// The tree with `path` and everything above it made.
    pub open spec fn with_dirs(self, path: Seq<Seq<char>>) -> Tree {
        Tree {
            dirs: self.dirs.union(
                Set::new(
                    |p: Seq<Seq<char>>| 0 < p.len() <= path.len() && p == path.take(p.len() as int),
                ),
            ),
            ..self
        }
    }
}

/// Runs the machine on a tree for at most `fuel` actions.
pub open spec fn run_dirs(
    path: Seq<Seq<char>>,
    tree: Tree,
    state: (DirPhase<Seq<char>>, DirAction<Seq<char>>),
    fuel: nat,
) -> Option<(Tree, Result<(), Seq<char>>)>
    decreases fuel,
{
    match state.1 {
        DirAction::Finish(result) => Some((tree, result)),
        _ => if fuel == 0 {
            None
        } else {
            let (after, event) = tree.perform(path, state.1);
            run_dirs(
                path,
                after,
                next_dir_action(path.len() as usize, state.0, event),
                (fuel - 1) as nat,
            )
        },
    }
}

/// In a tree, everything above a directory is a directory.
proof fn lemma_dirs_closed(tree: Tree, path: Seq<Seq<char>>, n: int, k: int)
    requires
        tree.wf(),
        0 < k <= n <= path.len(),
        tree.dirs.contains(path.take(n)),
    ensures
        tree.dirs.contains(path.take(k)),
    decreases n - k,
{
    if k < n {
        assert(path.take(n).drop_last() =~= path.take(n - 1));
        lemma_dirs_closed(tree, path, n - 1, k);
    }
}

/// Making a directory in a directory keeps a tree a tree.
proof fn lemma_mkdir_wf(tree: Tree, path: Seq<Seq<char>>)
    requires
        tree.wf(),
        path.len() > 0,
        tree.is_dir(path.drop_last()),
        !tree.files.contains(path),
    ensures
        (Tree { dirs: tree.dirs.insert(path), ..tree }).wf(),
{
    let after = Tree { dirs: tree.dirs.insert(path), ..tree };
    assert forall|p: Seq<Seq<char>>| #[trigger] after.dirs.contains(p) implies p.len() > 0
        && after.is_dir(p.drop_last()) by {
        if p != path {
            assert(tree.dirs.contains(p));
        }
    }
    assert forall|p: Seq<Seq<char>>| #[trigger] after.files.contains(p) implies p.len() > 0
        && after.is_dir(p.drop_last()) by {
        assert(tree.files.contains(p));
    }
    assert(after.dirs.disjoint(after.files));
}

/// Once the first `n` names are a directory, the machine makes the rest.
proof fn lemma_run_up(path: Seq<Seq<char>>, tree: Tree, n: usize, fuel: nat)
    requires
        tree.wf(),
        tree.unblocked(path),
        path.len() <= usize::MAX,
        n <= path.len(),
        tree.is_dir(path.take(n as int)),
        fuel >= 2 * (path.len() - n),
    ensures
        run_dirs(path, tree, after_dir(path.len() as usize, n), fuel) == Some(
            (tree.with_dirs(path), Ok::<(), Seq<char>>(())),
        ),
    decreases path.len() - n,
{
    let total = path.len() as usize;
    if n == total {
        assert(path.take(n as int) =~= path);
        lemma_with_dirs_of_dir(tree, path);
    } else {
        let m = (n + 1) as usize;
        let next = path.take(m as int);
        assert(next.drop_last() =~= path.take(n as int));
        assert(!tree.files.contains(next));
        let state = after_dir(total, n);
        if tree.dirs.contains(next) {
            let checking = next_dir_action(
                total,
                state.0,
                DirEvent::Mkdir(MkdirReply::Failed("File exists"@)),
            );
            assert(run_dirs(path, tree, state, fuel) == run_dirs(
                path,
                tree,
                checking,
                (fuel - 1) as nat,
            ));
            assert(run_dirs(path, tree, checking, (fuel - 1) as nat) == run_dirs(
                path,
                tree,
                after_dir(total, m),
                (fuel - 2) as nat,
            ));
            lemma_run_up(path, tree, m, (fuel - 2) as nat);
        } else {
            let after = Tree { dirs: tree.dirs.insert(next), ..tree };
            lemma_mkdir_wf(tree, next);
            lemma_run_up(path, after, m, (fuel - 1) as nat);
            assert(after.with_dirs(path).dirs =~= tree.with_dirs(path).dirs) by {
                assert(next == path.take(next.len() as int));
            }
        }
    }
}

/// On the way down with `n` names to try.
proof fn lemma_run_down(path: Seq<Seq<char>>, tree: Tree, n: usize, fuel: nat)
    requires
        tree.wf(),
        tree.unblocked(path),
        path.len() <= usize::MAX,
        1 <= n <= path.len(),
        fuel >= 2 * path.len() + n,
    ensures
        run_dirs(path, tree, (DirPhase::Down(n), DirAction::Mkdir(n)), fuel) == Some(
            (tree.with_dirs(path), Ok::<(), Seq<char>>(())),
        ),
    decreases n,
{
    let total = path.len() as usize;
    let here = path.take(n as int);
    let state = (DirPhase::Down(n), DirAction::<Seq<char>>::Mkdir(n));
    assert(here.drop_last() =~= path.take(n - 1));
    assert(!tree.files.contains(here));
    if tree.dirs.contains(here) {
        let checking = next_dir_action(
            total,
            state.0,
            DirEvent::Mkdir(MkdirReply::Failed("File exists"@)),
        );
        assert(run_dirs(path, tree, checking, (fuel - 1) as nat) == run_dirs(
            path,
            tree,
            after_dir(total, n),
            (fuel - 2) as nat,
        ));
        lemma_run_up(path, tree, n, (fuel - 2) as nat);
    } else if tree.is_dir(here.drop_last()) {
        let after = Tree { dirs: tree.dirs.insert(here), ..tree };
        lemma_mkdir_wf(tree, here);
        lemma_run_up(path, after, n, (fuel - 1) as nat);
        assert(after.with_dirs(path).dirs =~= tree.with_dirs(path).dirs) by {
            assert(here == path.take(here.len() as int));
        }
    } else {
        assert(tree.unblocked(here)) by {
            assert forall|k: int| 0 < k <= here.len() implies !tree.files.contains(
                #[trigger] here.take(k),
            ) by {
                assert(here.take(k) =~= path.take(k));
            }
        }
        assert(n > 1) by {
            if n == 1 {
                assert(here.drop_last().len() == 0);
            }
        }
        lemma_run_down(path, tree, (n - 1) as usize, (fuel - 1) as nat);
    }
}

/// A directory and everything above it is there already.
pub proof fn lemma_with_dirs_of_dir(tree: Tree, path: Seq<Seq<char>>)
    requires
        tree.wf(),
        tree.is_dir(path),
    ensures
        tree.with_dirs(path) == tree,
{
    assert(path.take(path.len() as int) =~= path);
    assert(tree.with_dirs(path).dirs =~= tree.dirs) by {
        assert forall|p: Seq<Seq<char>>|
            0 < p.len() <= path.len() && p == path.take(p.len() as int) implies tree.dirs.contains(
            p,
        ) by {
            lemma_dirs_closed(tree, path, path.len() as int, p.len() as int);
        }
    }
}

/// Creating a path makes it and everything above it, and nothing else, unless
/// a file is in the way.
pub proof fn law_create_dir_all_makes_the_whole_path(
    path: Seq<Seq<char>>,
    tree: Tree,
    fuel: nat,
)
    requires
        tree.wf(),
        tree.unblocked(path),
        path.len() <= usize::MAX,
        fuel >= 3 * path.len(),
    ensures
        run_dirs(path, tree, first_dir_action(path.len() as usize), fuel) == Some(
            (tree.with_dirs(path), Ok::<(), Seq<char>>(())),
        ),
{
    if path.len() == 0 {
        assert(tree.with_dirs(path).dirs =~= tree.dirs);
    } else {
        lemma_run_down(path, tree, path.len() as usize, fuel);
    }
}

/// Whatever the system answers, success is reported only right after the whole
/// path was made or found to be a directory.
pub proof fn law_success_means_directory(
    total: usize,
    phase: DirPhase<Seq<char>>,
    event: DirEvent<Seq<char>>,
)
    requires
        phase_ok(total, phase),
        event_fits(phase, event),
        next_dir_action(total, phase, event).1 == DirAction::<Seq<char>>::Finish(Ok(())),
    ensures
        match phase {
            DirPhase::Down(n) | DirPhase::Up(n) => n == total,
            DirPhase::DownCheck(n, _) | DirPhase::UpCheck(n, _) => n == total,
            DirPhase::Done => false,
        },
        event == DirEvent::<Seq<char>>::Mkdir(MkdirReply::Made) || event == DirEvent::<
            Seq<char>,
        >::IsDir(true),
{
}

/// If a file is in the way, the path cannot be created: it is an error, and
/// nothing changes.
pub proof fn law_file_in_the_way_is_an_error(path: Seq<Seq<char>>, tree: Tree, fuel: nat)
    requires
        tree.wf(),
        !tree.unblocked(path),
        path.len() <= usize::MAX,
        fuel >= 2,
    ensures
        run_dirs(path, tree, first_dir_action(path.len() as usize), fuel) matches Some(end)
            && end.0 == tree && end.1 is Err,
{
    let k = choose|k: int| 0 < k <= path.len() && tree.files.contains(#[trigger] path.take(k));
    let whole = path.take(path.len() as int);
    assert(whole =~= path);
    if tree.is_dir(path) {
        lemma_dirs_closed(tree, path, path.len() as int, k);
        assert(tree.dirs.contains(path.take(k)));
        assert(false);
    }
    if path.len() > 0 && tree.is_dir(path.drop_last()) && k < path.len() {
        assert(path.drop_last() =~= path.take(path.len() - 1));
        lemma_dirs_closed(tree, path, path.len() - 1, k);
        assert(tree.dirs.contains(path.take(k)));
        assert(false);
    }
    let s0 = first_dir_action(path.len() as usize);
    let (t1, e1) = tree.perform(path, s0.1);
    let s1 = next_dir_action(path.len() as usize, s0.0, e1);
    assert(run_dirs(path, tree, s0, fuel) == run_dirs(path, t1, s1, (fuel - 1) as nat));
    let (t2, e2) = t1.perform(path, s1.1);
    let s2 = next_dir_action(path.len() as usize, s1.0, e2);
    assert(run_dirs(path, t1, s1, (fuel - 1) as nat) == run_dirs(
        path,
        t2,
        s2,
        (fuel - 2) as nat,
    ));
}

/// A directory that could not be made is asked for, and if it is not there, what
/// went wrong in making it is the error.
pub proof fn law_failure_to_make_a_directory_is_told(
    total: usize,
    n: usize,
    e: Seq<char>,
)
    requires
        1 <= n <= total,
    ensures
        ({
            let (down, ask) = next_dir_action(
                total,
                DirPhase::Down(n),
                DirEvent::Mkdir(MkdirReply::Failed(e)),
            );
            &&& ask == DirAction::<Seq<char>>::IsDir(n)
            &&& next_dir_action(total, down, DirEvent::IsDir(false)).1
                == DirAction::Finish(Err(e))
        }),
        ({
            let (up, ask) = next_dir_action(
                total,
                DirPhase::Up(n),
                DirEvent::Mkdir(MkdirReply::Failed(e)),
            );
            &&& ask == DirAction::<Seq<char>>::IsDir(n)
            &&& next_dir_action(total, up, DirEvent::IsDir(false)).1 == DirAction::Finish(Err(e))
        }),
        ({
            let (up, ask) = next_dir_action(
                total,
                DirPhase::Up(n),
                DirEvent::Mkdir(MkdirReply::NotFound(e)),
            );
            &&& ask == DirAction::<Seq<char>>::IsDir(n)
            &&& next_dir_action(total, up, DirEvent::IsDir(false)).1 == DirAction::Finish(Err(e))
        }),
{
}

/// A parent that is missing is made first. A directory that is there, made or
/// found, is followed by the next one, until the whole path is there.
pub proof fn law_directories_follow_each_other(
    total: usize,
    n: usize,
    e: Seq<char>,
    phase: DirPhase<Seq<char>>,
)
    requires
        1 <= n <= total,
        phase == DirPhase::DownCheck(n, e) || phase == DirPhase::UpCheck(n, e),
    ensures
        next_dir_action(
            total,
            DirPhase::Down(n),
            DirEvent::Mkdir(MkdirReply::NotFound(e)),
        ).1 == DirAction::<Seq<char>>::Mkdir(
            if n > 1 {
                (n - 1) as usize
            } else {
                1
            },
        ),
        next_dir_action(total, phase, DirEvent::IsDir(true)).1 == if n < total {
            DirAction::<Seq<char>>::Mkdir((n + 1) as usize)
        } else {
            DirAction::Finish(Ok(()))
        },
        next_dir_action(total, DirPhase::Up(n), DirEvent::Mkdir(MkdirReply::Made)).1 == if n
            < total {
            DirAction::<Seq<char>>::Mkdir((n + 1) as usize)
        } else {
            DirAction::Finish(Ok(()))
        },
{
}

} // verus!
