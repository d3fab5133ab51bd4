//! Recursive directory copying.
//!
//! [`CopyDir`] decides what to do next; the caller does it and reports back.
//! Source and target always stand at the same place below their roots, so one
//! relative path, `rel`, says where both are. `N` is a file name.

use vstd::prelude::*;

verus! {

/// What the caller has to do next, at the path `rel` of the [`CopyDir`].
#[derive(Clone, Copy, Debug, PartialEq, Eq, Structural)]
pub enum CopyPhase {
    /// Create the target directory and its missing ancestors.
    CreateDir,
    /// Open the listing of the source directory.
    OpenDir,
    /// Take the next entry of the listing opened last and not yet exhausted.
    NextEntry,
    /// Ask whether the source path is a directory.
    TestEntry,
    /// Copy the source file to the target path.
    CopyEntry,
    /// Nothing: the copy is over.
    Finished,
}

/// What came of the last thing that was done.
pub enum CopyReply<N> {
    Created(Result<(), std::io::Error>),
    Opened(Result<(), std::io::Error>),
    /// `None` at the end of the listing.
    Entry(Option<Result<N, std::io::Error>>),
    IsDir(bool),
    Copied(Result<(), std::io::Error>),
}

/// A recursive copy in progress.
pub struct CopyDir<N> {
    pub rel: Vec<N>,
    pub phase: CopyPhase,
}

/// The mathematical value of a [`CopyDir`].
#[verifier::ext_equal]
pub struct CopyState<N> {
    pub rel: Seq<N>,
    pub phase: CopyPhase,
}

/// One directory up; the root stays where it is.
pub open spec fn up<N>(rel: Seq<N>) -> Seq<N> {
    if rel.len() == 0 {
        rel
    } else {
        rel.drop_last()
    }
}

/// Where `reply` takes the copy. A reply to another question changes nothing.
pub open spec fn copy_next<N>(s: CopyState<N>, reply: CopyReply<N>) -> CopyState<N> {
    match (s.phase, reply) {
        (CopyPhase::CreateDir, CopyReply::Created(Ok(_))) => CopyState {
            phase: CopyPhase::OpenDir,
            ..s
        },
        (CopyPhase::OpenDir, CopyReply::Opened(Ok(_))) => CopyState {
            phase: CopyPhase::NextEntry,
            ..s
        },
        (CopyPhase::NextEntry, CopyReply::Entry(Some(Ok(name)))) => CopyState {
            rel: s.rel.push(name),
            phase: CopyPhase::TestEntry,
        },
        (CopyPhase::NextEntry, CopyReply::Entry(None)) => if s.rel.len() == 0 {
            CopyState { phase: CopyPhase::Finished, ..s }
        } else {
            CopyState { rel: up(s.rel), ..s }
        },
        (CopyPhase::TestEntry, CopyReply::IsDir(true)) => CopyState {
            phase: CopyPhase::CreateDir,
            ..s
        },
        (CopyPhase::TestEntry, CopyReply::IsDir(false)) => CopyState {
            phase: CopyPhase::CopyEntry,
            ..s
        },
        (CopyPhase::CopyEntry, CopyReply::Copied(Ok(_))) => CopyState {
            rel: up(s.rel),
            phase: CopyPhase::NextEntry,
        },
        _ => if copy_failure(s.phase, reply) is Some {
            CopyState { phase: CopyPhase::Finished, ..s }
        } else {
            s
        },
    }
}

/// The error that `reply` reports of the thing that `phase` asked for.
pub open spec fn copy_failure<N>(phase: CopyPhase, reply: CopyReply<N>) -> Option<std::io::Error> {
    match (phase, reply) {
        (CopyPhase::CreateDir, CopyReply::Created(Err(e))) => Some(e),
        (CopyPhase::OpenDir, CopyReply::Opened(Err(e))) => Some(e),
        (CopyPhase::NextEntry, CopyReply::Entry(Some(Err(e)))) => Some(e),
        (CopyPhase::CopyEntry, CopyReply::Copied(Err(e))) => Some(e),
        _ => None,
    }
}

/// What the whole copy returns, when `reply` ends it.
pub open spec fn copy_outcome<N>(s: CopyState<N>, reply: CopyReply<N>) -> Option<
    Result<(), std::io::Error>,
> {
    match copy_failure(s.phase, reply) {
        Some(e) => Some(Err(e)),
        None => if s.phase != CopyPhase::Finished && copy_next(s, reply).phase
            == CopyPhase::Finished {
            Some(Ok(()))
        } else {
            None
        },
    }
}

impl<N> View for CopyDir<N> {
    type V = CopyState<N>;

    open spec fn view(&self) -> CopyState<N> {
        CopyState { rel: self.rel@, phase: self.phase }
    }
}

/// Begins a recursive copy: creating the target comes first.
pub fn copy_dir<N>() -> (copy: CopyDir<N>)
    ensures
        copy@ == (CopyState { rel: Seq::<N>::empty(), phase: CopyPhase::CreateDir }),
{
    CopyDir { rel: Vec::new(), phase: CopyPhase::CreateDir }
}

impl<N> CopyDir<N> {
    /// Takes in what came of the last thing that was done. Returns the outcome
    /// of the copy when it is over: the first error, or success once the
    /// outermost listing is exhausted.
    pub fn step(&mut self, reply: CopyReply<N>) -> (outcome: Option<Result<(), std::io::Error>>)
        ensures
            final(self)@ == copy_next(old(self)@, reply),
            outcome == copy_outcome(old(self)@, reply),
    {
        match (self.phase, reply) {
            (CopyPhase::CreateDir, CopyReply::Created(created)) => match created {
                Ok(_) => {
                    self.phase = CopyPhase::OpenDir;
                    None
                },
                Err(e) => {
                    self.phase = CopyPhase::Finished;
                    Some(Err(e))
                },
            },
            (CopyPhase::OpenDir, CopyReply::Opened(opened)) => match opened {
                Ok(_) => {
                    self.phase = CopyPhase::NextEntry;
                    None
                },
                Err(e) => {
                    self.phase = CopyPhase::Finished;
                    Some(Err(e))
                },
            },
            (CopyPhase::NextEntry, CopyReply::Entry(entry)) => match entry {
                Some(Ok(name)) => {
                    self.rel.push(name);
                    self.phase = CopyPhase::TestEntry;
                    None
                },
                Some(Err(e)) => {
                    self.phase = CopyPhase::Finished;
                    Some(Err(e))
                },
                None => {
                    if self.rel.len() == 0 {
                        self.phase = CopyPhase::Finished;
                        Some(Ok(()))
                    } else {
                        let _ = self.rel.pop();
                        None
                    }
                },
            },
            (CopyPhase::TestEntry, CopyReply::IsDir(is_dir)) => {
                self.phase = if is_dir {
                    CopyPhase::CreateDir
                } else {
                    CopyPhase::CopyEntry
                };
                None
            },
            (CopyPhase::CopyEntry, CopyReply::Copied(copied)) => match copied {
                Ok(_) => {
                    let _ = self.rel.pop();
                    self.phase = CopyPhase::NextEntry;
                    None
                },
                Err(e) => {
                    self.phase = CopyPhase::Finished;
                    Some(Err(e))
                },
            },
            _ => None,
        }
    }
}

/// A copy that is over stays over: no reply moves it or ends it again.
pub proof fn lemma_finished_copy_rests<N>(s: CopyState<N>, reply: CopyReply<N>)
    requires
        s.phase == CopyPhase::Finished,
    ensures
        copy_next(s, reply) == s,
        copy_outcome(s, reply) is None,
{
}

/// A file, or a directory with its entries in the order of its listing.
pub enum TreeNode<N> {
    File,
    Dir(Seq<(N, TreeNode<N>)>),
}

/// A change on the target side, at a path below its root.
pub enum CopyEffect<N> {
    MakeDir(Seq<N>),
    CopyFile(Seq<N>),
}

/// What copying the entries of a directory at `rel` does, in order.
pub open spec fn plan_entries<N>(rel: Seq<N>, entries: Seq<(N, TreeNode<N>)>) -> Seq<CopyEffect<N>>
    decreases entries,
{
    if entries.len() == 0 {
        Seq::empty()
    } else {
        let below = rel.push(entries[0].0);
        let first = match entries[0].1 {
            TreeNode::File => seq![CopyEffect::CopyFile(below)],
            TreeNode::Dir(inner) => seq![CopyEffect::MakeDir(below)] + plan_entries(below, inner),
        };
        first + plan_entries(rel, entries.subrange(1, entries.len() as int))
    }
}

/// What copying a whole directory at `rel` does, in order: the directory
/// comes first, then its entries.
pub open spec fn plan_dir<N>(rel: Seq<N>, entries: Seq<(N, TreeNode<N>)>) -> Seq<CopyEffect<N>> {
    seq![CopyEffect::MakeDir(rel)] + plan_entries(rel, entries)
}

/// A copy together with the directory tree that answers it.
#[verifier::ext_equal]
pub struct CopyRun<N> {
    pub state: CopyState<N>,
    /// What is left of each open listing, the innermost last.
    pub listings: Seq<Seq<(N, TreeNode<N>)>>,
    /// What stands at the current path, while that is being worked on.
    pub current: Option<TreeNode<N>>,
    /// What has been done so far.
    pub effects: Seq<CopyEffect<N>>,
    /// What the copy returned, once it is over.
    pub outcome: Option<Result<(), std::io::Error>>,
}

/// Entries of a directory; a file has none.
pub open spec fn entries_of<N>(node: Option<TreeNode<N>>) -> Seq<(N, TreeNode<N>)> {
    match node {
        Some(TreeNode::Dir(entries)) => entries,
        _ => Seq::empty(),
    }
}

/// The reply that the tree gives to what the copy asks for. Nothing fails.
pub open spec fn tree_reply<N>(run: CopyRun<N>) -> CopyReply<N> {
    match run.state.phase {
        CopyPhase::CreateDir => CopyReply::Created(Ok(())),
        CopyPhase::OpenDir => CopyReply::Opened(Ok(())),
        CopyPhase::NextEntry => CopyReply::Entry(
            if run.listings.last().len() == 0 {
                None
            } else {
                Some(Ok(run.listings.last()[0].0))
            },
        ),
        CopyPhase::TestEntry => CopyReply::IsDir(run.current matches Some(TreeNode::Dir(_))),
        _ => CopyReply::Copied(Ok(())),
    }
}

/// One question answered.
pub open spec fn run_step<N>(run: CopyRun<N>) -> CopyRun<N> {
    let reply = tree_reply(run);
    let moved = CopyRun {
        state: copy_next(run.state, reply),
        outcome: copy_outcome(run.state, reply),
        ..run
    };
    match run.state.phase {
        CopyPhase::CreateDir => CopyRun {
            effects: run.effects.push(CopyEffect::MakeDir(run.state.rel)),
            ..moved
        },
        CopyPhase::OpenDir => CopyRun {
            listings: run.listings.push(entries_of(run.current)),
            current: None,
            ..moved
        },
        CopyPhase::NextEntry => if run.listings.last().len() == 0 {
            CopyRun { listings: run.listings.drop_last(), ..moved }
        } else {
            let listing = run.listings.last();
            CopyRun {
                listings: run.listings.drop_last().push(
                    listing.subrange(1, listing.len() as int),
                ),
                current: Some(listing[0].1),
                ..moved
            }
        },
        CopyPhase::CopyEntry => CopyRun {
            effects: run.effects.push(CopyEffect::CopyFile(run.state.rel)),
            current: None,
            ..moved
        },
        _ => moved,
    }
}

/// `n` questions answered.
pub open spec fn run_steps<N>(run: CopyRun<N>, n: nat) -> CopyRun<N>
    decreases n,
{
    if n == 0 {
        run
    } else {
        run_steps(run_step(run), (n - 1) as nat)
    }
}

/// How many questions copying `entries` takes.
pub open spec fn entries_cost<N>(entries: Seq<(N, TreeNode<N>)>) -> nat
    decreases entries,
{
    if entries.len() == 0 {
        0
    } else {
        let first: nat = match entries[0].1 {
            TreeNode::File => 3,
            TreeNode::Dir(inner) => 5 + entries_cost(inner),
        };
        first + entries_cost(entries.subrange(1, entries.len() as int))
    }
}

/// A copy of the directory with these entries, about to start.
pub open spec fn run_start<N>(entries: Seq<(N, TreeNode<N>)>) -> CopyRun<N> {
    CopyRun {
        state: CopyState { rel: Seq::empty(), phase: CopyPhase::CreateDir },
        listings: Seq::empty(),
        current: Some(TreeNode::Dir(entries)),
        effects: Seq::empty(),
        outcome: None,
    }
}

proof fn lemma_run_steps_add<N>(run: CopyRun<N>, a: nat, b: nat)
    ensures
        run_steps(run, a + b) == run_steps(run_steps(run, a), b),
    decreases a,
{
    if a > 0 {
        lemma_run_steps_add(run_step(run), (a - 1) as nat, b);
    }
}

/// Working through the innermost listing carries out its plan and leaves
/// everything else as it was.
proof fn lemma_entries_run<N>(run: CopyRun<N>, entries: Seq<(N, TreeNode<N>)>)
    requires
        run.state.phase == CopyPhase::NextEntry,
        run.listings.len() > 0,
        run.listings.last() == entries,
        run.current is None,
        run.outcome is None,
    ensures
        run_steps(run, entries_cost(entries)) == (CopyRun {
            listings: run.listings.drop_last().push(Seq::empty()),
            effects: run.effects + plan_entries(run.state.rel, entries),
            ..run
        }),
    decreases entries,
{
    let rel = run.state.rel;
    let outer = run.listings.drop_last();
    if entries.len() == 0 {
        assert(entries =~= Seq::empty());
        assert(outer.push(Seq::empty()) =~= run.listings);
        assert(run.effects + plan_entries(rel, entries) =~= run.effects);
    } else {
        let rest = entries.subrange(1, entries.len() as int);
        let below = rel.push(entries[0].0);
        let r1 = run_step(run);
        let r2 = run_step(r1);
        assert(r1.state == (CopyState { rel: below, phase: CopyPhase::TestEntry }));
        assert(below.drop_last() =~= rel);
        match entries[0].1 {
            TreeNode::File => {
                let r3 = run_step(r2);
                assert(r3.state == (CopyState { rel, phase: CopyPhase::NextEntry }));
                assert(r3.listings.drop_last() =~= outer);
                assert(run_steps(run, 3) == r3) by {
                    reveal_with_fuel(run_steps, 4);
                }
                lemma_entries_run(r3, rest);
                lemma_run_steps_add(run, 3, entries_cost(rest));
                assert(r3.effects + plan_entries(rel, rest) =~= run.effects + plan_entries(
                    rel,
                    entries,
                ));
            },
            TreeNode::Dir(inner) => {
                let r3 = run_step(r2);
                let r4 = run_step(r3);
                assert(r4.state == (CopyState { rel: below, phase: CopyPhase::NextEntry }));
                assert(r4.listings =~= outer.push(rest).push(inner));
                assert(run_steps(run, 4) == r4) by {
                    reveal_with_fuel(run_steps, 5);
                }
                assert(decreases_to!(entries => entries[0]));
                lemma_entries_run(r4, inner);
                let r5 = run_steps(r4, entries_cost(inner));
                lemma_run_steps_add(run, 4, entries_cost(inner));
                assert(r4.listings.drop_last() =~= outer.push(rest));
                assert(r5.listings.last() =~= Seq::empty());
                let r6 = run_step(r5);
                assert(r6.listings =~= outer.push(rest));
                assert(r6.state == (CopyState { rel, phase: CopyPhase::NextEntry }));
                assert(run_steps(r5, 1) == r6) by {
                    reveal_with_fuel(run_steps, 2);
                }
                lemma_run_steps_add(run, 4 + entries_cost(inner), 1);
                assert(r6.listings.drop_last() =~= outer);
                lemma_entries_run(r6, rest);
                lemma_run_steps_add(run, 5 + entries_cost(inner), entries_cost(rest));
                assert(r6.effects + plan_entries(rel, rest) =~= run.effects + plan_entries(
                    rel,
                    entries,
                ));
            },
        }
    }
}

/// Copying a directory tree in which nothing fails ends in success, having
/// created every directory before what it holds and copied every file to the
/// same place below the target, each exactly once and in listing order.
pub proof fn lemma_copy_follows_plan<N>(entries: Seq<(N, TreeNode<N>)>)
    ensures
        ({
            let end = run_steps(run_start(entries), entries_cost(entries) + 3);
            &&& end.outcome == Some(Ok::<(), std::io::Error>(()))
            &&& end.state.phase == CopyPhase::Finished
            &&& end.effects == plan_dir(Seq::empty(), entries)
        }),
{
    let start = run_start(entries);
    let r1 = run_step(start);
    let r2 = run_step(r1);
    assert(run_steps(start, 2) == r2) by {
        reveal_with_fuel(run_steps, 3);
    }
    assert(r2.listings.last() == entries);
    lemma_entries_run(r2, entries);
    lemma_run_steps_add(start, 2, entries_cost(entries));
    let r3 = run_steps(r2, entries_cost(entries));
    let r4 = run_step(r3);
    assert(run_steps(r3, 1) == r4) by {
        reveal_with_fuel(run_steps, 2);
    }
    lemma_run_steps_add(start, 2 + entries_cost(entries), 1);
    assert(r3.listings.last() =~= Seq::empty());
    assert(r2.effects =~= seq![CopyEffect::MakeDir(Seq::<N>::empty())]);
    assert(r4.effects =~= plan_dir(Seq::empty(), entries));
}

/// What stands at a path on the target side; `C` is what a file holds.
pub enum TargetEntry<C> {
    Dir,
    File(C),
}

/// The target side: what stands at which path below its root.
pub type Target<N, C> = Map<Seq<N>, TargetEntry<C>>;

/// `path` is a directory of `target`.
pub open spec fn is_target_dir<N, C>(target: Target<N, C>, path: Seq<N>) -> bool {
    target.contains_key(path) && target[path] == TargetEntry::<C>::Dir
}

/// `path` is a file of `target`.
pub open spec fn is_target_file<N, C>(target: Target<N, C>, path: Seq<N>) -> bool {
    target.contains_key(path) && target[path] is File
}

/// What stands on the target side does not keep `effect` from succeeding. A
/// directory that is there is as good as a new one, and a file that is there is
/// overwritten. A file in the place of a directory is in the way, and so is a
/// directory in the place of a file; a file needs a directory to stand in.
pub open spec fn effect_fits<N, C>(target: Target<N, C>, effect: CopyEffect<N>) -> bool {
    match effect {
        CopyEffect::MakeDir(path) => forall|above: Seq<N>| #[trigger]
            above.is_prefix_of(path) ==> !is_target_file(target, above),
        CopyEffect::CopyFile(path) => {
            &&& path.len() > 0
            &&& is_target_dir(target, path.drop_last())
            &&& !is_target_dir(target, path)
        },
    }
}

/// The target side after `effect`: a new directory comes with its missing
/// ancestors, a file holds what `source` holds at the same path.
pub open spec fn effect_done<N, C>(
    target: Target<N, C>,
    source: spec_fn(Seq<N>) -> C,
    effect: CopyEffect<N>,
) -> Target<N, C> {
    match effect {
        CopyEffect::MakeDir(path) => Map::new(
            |at: Seq<N>| target.contains_key(at) || at.is_prefix_of(path),
            |at: Seq<N>|
                if at.is_prefix_of(path) {
                    TargetEntry::Dir
                } else {
                    target[at]
                },
        ),
        CopyEffect::CopyFile(path) => target.insert(path, TargetEntry::File(source(path))),
    }
}

/// The target side after `effects`, one after the other.
pub open spec fn effects_done<N, C>(
    target: Target<N, C>,
    source: spec_fn(Seq<N>) -> C,
    effects: Seq<CopyEffect<N>>,
) -> Target<N, C>
    decreases effects.len(),
{
    if effects.len() == 0 {
        target
    } else {
        effect_done(effects_done(target, source, effects.drop_last()), source, effects.last())
    }
}

/// Each of `effects` succeeds when they are carried out one after the other.
pub open spec fn effects_fit<N, C>(
    target: Target<N, C>,
    source: spec_fn(Seq<N>) -> C,
    effects: Seq<CopyEffect<N>>,
) -> bool
    decreases effects.len(),
{
    effects.len() > 0 ==> {
        &&& effects_fit(target, source, effects.drop_last())
        &&& effect_fits(
            effects_done(target, source, effects.drop_last()),
            effects.last(),
        )
    }
}

/// `target` is as `effect` leaves it.
pub open spec fn effect_holds<N, C>(
    target: Target<N, C>,
    source: spec_fn(Seq<N>) -> C,
    effect: CopyEffect<N>,
) -> bool {
    match effect {
        CopyEffect::MakeDir(path) => forall|above: Seq<N>| #[trigger]
            above.is_prefix_of(path) ==> is_target_dir(target, above),
        CopyEffect::CopyFile(path) => {
            &&& path.len() > 0
            &&& is_target_dir(target, path.drop_last())
            &&& target.contains_key(path)
            &&& target[path] == TargetEntry::File(source(path))
        },
    }
}

/// An effect that succeeds leaves directories directories.
proof fn lemma_dirs_stay<N, C>(
    target: Target<N, C>,
    source: spec_fn(Seq<N>) -> C,
    effect: CopyEffect<N>,
    path: Seq<N>,
)
    requires
        effect_fits(target, effect),
        is_target_dir(target, path),
    ensures
        is_target_dir(effect_done(target, source, effect), path),
{
}

/// What one effect achieved, another that succeeds does not undo.
proof fn lemma_effect_lasts<N, C>(
    target: Target<N, C>,
    source: spec_fn(Seq<N>) -> C,
    earlier: CopyEffect<N>,
    later: CopyEffect<N>,
)
    requires
        effect_holds(target, source, earlier),
        effect_fits(target, later),
    ensures
        effect_holds(effect_done(target, source, later), source, earlier),
{
    let after = effect_done(target, source, later);
    match earlier {
        CopyEffect::MakeDir(path) => {
            assert forall|above: Seq<N>| #[trigger] above.is_prefix_of(path) implies is_target_dir(
                after,
                above,
            ) by {
                lemma_dirs_stay(target, source, later, above);
            }
        },
        CopyEffect::CopyFile(path) => {
            lemma_dirs_stay(target, source, later, path.drop_last());
            assert(is_target_file(target, path));
        },
    }
}

/// An effect that succeeds achieves what it is for.
proof fn lemma_effect_achieved<N, C>(
    target: Target<N, C>,
    source: spec_fn(Seq<N>) -> C,
    effect: CopyEffect<N>,
)
    requires
        effect_fits(target, effect),
    ensures
        effect_holds(effect_done(target, source, effect), source, effect),
{
    match effect {
        CopyEffect::MakeDir(_) => {},
        CopyEffect::CopyFile(path) => {
            lemma_dirs_stay(target, source, effect, path.drop_last());
        },
    }
}

/// After effects that succeeded, all of them hold.
proof fn lemma_effects_achieved<N, C>(
    target: Target<N, C>,
    source: spec_fn(Seq<N>) -> C,
    effects: Seq<CopyEffect<N>>,
)
    requires
        effects_fit(target, source, effects),
    ensures
        forall|i: int|
            0 <= i < effects.len() ==> effect_holds(
                effects_done(target, source, effects),
                source,
                #[trigger] effects[i],
            ),
    decreases effects.len(),
{
    if effects.len() > 0 {
        let front = effects.drop_last();
        let before = effects_done(target, source, front);
        lemma_effects_achieved(target, source, front);
        assert forall|i: int| 0 <= i < effects.len() implies effect_holds(
            effects_done(target, source, effects),
            source,
            #[trigger] effects[i],
        ) by {
            if i < front.len() {
                assert(front[i] == effects[i]);
                lemma_effect_lasts(before, source, effects[i], effects.last());
            } else {
                lemma_effect_achieved(before, source, effects.last());
            }
        }
    }
}

/// Effects that hold already succeed again and change nothing.
proof fn lemma_held_effects_change_nothing<N, C>(
    target: Target<N, C>,
    source: spec_fn(Seq<N>) -> C,
    effects: Seq<CopyEffect<N>>,
)
    requires
        forall|i: int|
            0 <= i < effects.len() ==> effect_holds(target, source, #[trigger] effects[i]),
    ensures
        effects_fit(target, source, effects),
        effects_done(target, source, effects) == target,
    decreases effects.len(),
{
    if effects.len() > 0 {
        let front = effects.drop_last();
        assert forall|i: int| 0 <= i < front.len() implies effect_holds(
            target,
            source,
            #[trigger] front[i],
        ) by {
            assert(front[i] == effects[i]);
        }
        lemma_held_effects_change_nothing(target, source, front);
        assert(effect_holds(target, source, effects[effects.len() - 1]));
        match effects.last() {
            CopyEffect::MakeDir(path) => {
                assert forall|above: Seq<N>| #[trigger]
                    above.is_prefix_of(path) implies !is_target_file(target, above) by {
                    assert(is_target_dir(target, above));
                }
            },
            CopyEffect::CopyFile(_) => {},
        }
        assert(effect_done(target, source, effects.last()) =~= target);
    }
}

/// A second copy of an unchanged directory onto the result of the first meets
/// no obstacle there, ends in success, and leaves the target as it was. That
/// nothing else fails, such as a file that may not be overwritten, is taken for
/// granted.
pub proof fn lemma_second_copy_changes_nothing<N, C>(
    entries: Seq<(N, TreeNode<N>)>,
    source: spec_fn(Seq<N>) -> C,
    before: Target<N, C>,
)
    requires
        effects_fit(before, source, plan_dir(Seq::empty(), entries)),
    ensures
        ({
            let plan = plan_dir(Seq::empty(), entries);
            let copied = effects_done(before, source, plan);
            let second = run_steps(run_start(entries), entries_cost(entries) + 3);
            &&& second.effects == plan
            &&& effects_fit(copied, source, second.effects)
            &&& second.outcome == Some(Ok::<(), std::io::Error>(()))
            &&& effects_done(copied, source, second.effects) == copied
        }),
{
    let plan = plan_dir(Seq::empty(), entries);
    lemma_copy_follows_plan(entries);
    lemma_effects_achieved(before, source, plan);
    lemma_held_effects_change_nothing(effects_done(before, source, plan), source, plan);
}

/// In a directory with these entries, `node` stands at `path`.
pub open spec fn tree_has<N>(
    entries: Seq<(N, TreeNode<N>)>,
    path: Seq<N>,
    node: TreeNode<N>,
) -> bool
    decreases path.len(),
{
    path.len() > 0 && exists|i: int|
        #![trigger entries[i]]
        0 <= i < entries.len() && entries[i].0 == path[0] && if path.len() == 1 {
            entries[i].1 == node
        } else {
            entries[i].1 matches TreeNode::Dir(inner) && tree_has(inner, path.drop_first(), node)
        }
}

/// Something stands at `path` of a directory with these entries; the directory
/// itself stands at the empty path.
pub open spec fn in_source<N>(entries: Seq<(N, TreeNode<N>)>, path: Seq<N>) -> bool {
    path.len() == 0 || exists|node: TreeNode<N>| tree_has(entries, path, node)
}

/// What copying `node` to `path` begins with.
pub open spec fn effect_for<N>(path: Seq<N>, node: TreeNode<N>) -> CopyEffect<N> {
    match node {
        TreeNode::File => CopyEffect::CopyFile(path),
        TreeNode::Dir(_) => CopyEffect::MakeDir(path),
    }
}

/// The plan deals with everything that the directory holds.
proof fn lemma_plan_covers_node<N>(
    rel: Seq<N>,
    entries: Seq<(N, TreeNode<N>)>,
    path: Seq<N>,
    node: TreeNode<N>,
)
    requires
        tree_has(entries, path, node),
    ensures
        plan_entries(rel, entries).contains(effect_for(rel + path, node)),
    decreases entries,
{
    let i = choose|i: int|
        #![trigger entries[i]]
        0 <= i < entries.len() && entries[i].0 == path[0] && if path.len() == 1 {
            entries[i].1 == node
        } else {
            entries[i].1 matches TreeNode::Dir(inner) && tree_has(inner, path.drop_first(), node)
        };
    let rest = entries.subrange(1, entries.len() as int);
    let below = rel.push(entries[0].0);
    let first = match entries[0].1 {
        TreeNode::File => seq![CopyEffect::CopyFile(below)],
        TreeNode::Dir(inner) => seq![CopyEffect::MakeDir(below)] + plan_entries(below, inner),
    };
    let plan = plan_entries(rel, entries);
    assert(plan == first + plan_entries(rel, rest));
    let effect = effect_for(rel + path, node);
    if i > 0 {
        assert(rest[i - 1] == entries[i]);
        assert(tree_has(rest, path, node));
        lemma_plan_covers_node(rel, rest, path, node);
        let k = choose|k: int|
            0 <= k < plan_entries(rel, rest).len() && plan_entries(rel, rest)[k] == effect;
        assert(plan[first.len() + k] == effect);
    } else if path.len() == 1 {
        assert(rel + path =~= below);
        assert(plan[0] == effect);
    } else {
        let inner = entries_of(Some(entries[0].1));
        assert(decreases_to!(entries => entries[0]));
        lemma_plan_covers_node(below, inner, path.drop_first(), node);
        assert(below + path.drop_first() =~= rel + path);
        let k = choose|k: int|
            0 <= k < plan_entries(below, inner).len() && plan_entries(below, inner)[k] == effect;
        assert(first[k + 1] == effect);
        assert(plan[k + 1] == effect);
    }
}

/// The plan deals with nothing that the directory does not hold.
proof fn lemma_plan_stays_in_source<N>(rel: Seq<N>, entries: Seq<(N, TreeNode<N>)>, k: int) -> (at: (
    Seq<N>,
    TreeNode<N>,
))
    requires
        0 <= k < plan_entries(rel, entries).len(),
    ensures
        tree_has(entries, at.0, at.1),
        plan_entries(rel, entries)[k] == effect_for(rel + at.0, at.1),
    decreases entries,
{
    let rest = entries.subrange(1, entries.len() as int);
    let name = entries[0].0;
    let below = rel.push(name);
    let first = match entries[0].1 {
        TreeNode::File => seq![CopyEffect::CopyFile(below)],
        TreeNode::Dir(inner) => seq![CopyEffect::MakeDir(below)] + plan_entries(below, inner),
    };
    assert(plan_entries(rel, entries) == first + plan_entries(rel, rest));
    if k >= first.len() {
        let (path, node) = lemma_plan_stays_in_source(rel, rest, k - first.len());
        let i = choose|i: int|
            #![trigger rest[i]]
            0 <= i < rest.len() && rest[i].0 == path[0] && if path.len() == 1 {
                rest[i].1 == node
            } else {
                rest[i].1 matches TreeNode::Dir(inner) && tree_has(inner, path.drop_first(), node)
            };
        assert(entries[i + 1] == rest[i]);
        assert(tree_has(entries, path, node));
        (path, node)
    } else if k == 0 {
        let path = seq![name];
        assert(rel + path =~= below);
        assert(entries[0].0 == path[0]);
        assert(tree_has(entries, path, entries[0].1));
        (path, entries[0].1)
    } else {
        let inner = entries_of(Some(entries[0].1));
        assert(decreases_to!(entries => entries[0]));
        let (tail, node) = lemma_plan_stays_in_source(below, inner, k - 1);
        let path = seq![name] + tail;
        assert(path.drop_first() =~= tail);
        assert(rel + path =~= below + tail);
        assert(entries[0].0 == path[0]);
        assert(tree_has(entries, path, node));
        (path, node)
    }
}

/// Whatever stands above something in the directory stands in it too.
proof fn lemma_source_has_ancestors<N>(
    entries: Seq<(N, TreeNode<N>)>,
    path: Seq<N>,
    node: TreeNode<N>,
    above: Seq<N>,
)
    requires
        tree_has(entries, path, node),
        above.is_prefix_of(path),
    ensures
        in_source(entries, above),
    decreases path.len(),
{
    if above.len() > 0 {
        let i = choose|i: int|
            #![trigger entries[i]]
            0 <= i < entries.len() && entries[i].0 == path[0] && if path.len() == 1 {
                entries[i].1 == node
            } else {
                entries[i].1 matches TreeNode::Dir(inner) && tree_has(
                    inner,
                    path.drop_first(),
                    node,
                )
            };
        assert(above[0] == path.subrange(0, above.len() as int)[0]);
        if above.len() == 1 {
            assert(tree_has(entries, above, entries[i].1));
        } else {
            let inner = entries_of(Some(entries[i].1));
            assert(above.drop_first() =~= path.drop_first().subrange(
                0,
                above.drop_first().len() as int,
            ));
            lemma_source_has_ancestors(inner, path.drop_first(), node, above.drop_first());
            let found = choose|n: TreeNode<N>| tree_has(inner, above.drop_first(), n);
            assert(tree_has(entries, above, found));
        }
    }
}

/// A directory that was made stands.
proof fn lemma_held_dir_stands<N, C>(
    target: Target<N, C>,
    source: spec_fn(Seq<N>) -> C,
    path: Seq<N>,
)
    requires
        effect_holds(target, source, CopyEffect::MakeDir(path)),
    ensures
        is_target_dir(target, path),
{
    let made: CopyEffect<N> = CopyEffect::MakeDir(path);
    assert(path.is_prefix_of(made->MakeDir_0));
}

/// After a copy that succeeds, the target has everything that the source has:
/// a directory for each directory, the source itself among them, and for each
/// file a file that holds the same.
pub proof fn lemma_copy_is_complete<N, C>(
    entries: Seq<(N, TreeNode<N>)>,
    source: spec_fn(Seq<N>) -> C,
    before: Target<N, C>,
    path: Seq<N>,
    node: TreeNode<N>,
)
    requires
        effects_fit(before, source, plan_dir(Seq::empty(), entries)),
        tree_has(entries, path, node),
    ensures
        ({
            let copied = effects_done(before, source, plan_dir(Seq::empty(), entries));
            &&& is_target_dir(copied, Seq::empty())
            &&& match node {
                TreeNode::Dir(_) => is_target_dir(copied, path),
                TreeNode::File => copied.contains_key(path) && copied[path] == TargetEntry::File(
                    source(path),
                ),
            }
        }),
{
    let root = Seq::<N>::empty();
    let plan = plan_dir(root, entries);
    lemma_effects_achieved(before, source, plan);
    let copied = effects_done(before, source, plan);
    assert(plan[0] == CopyEffect::MakeDir(root));
    lemma_held_dir_stands(copied, source, root);
    lemma_plan_covers_node(root, entries, path, node);
    assert(root + path =~= path);
    let k = choose|k: int|
        0 <= k < plan_entries(root, entries).len() && plan_entries(root, entries)[k] == effect_for(
            path,
            node,
        );
    assert(plan[k + 1] == effect_for(path, node));
    assert(effect_holds(copied, source, plan[k + 1]));
    if node is Dir {
        lemma_held_dir_stands(copied, source, path);
    }
}

/// `effect` has nothing to do with what stands at `path`.
pub open spec fn effect_spares<N>(effect: CopyEffect<N>, path: Seq<N>) -> bool {
    match effect {
        CopyEffect::MakeDir(made) => !path.is_prefix_of(made),
        CopyEffect::CopyFile(written) => written != path,
    }
}

proof fn lemma_spared_stays<N, C>(
    target: Target<N, C>,
    source: spec_fn(Seq<N>) -> C,
    effects: Seq<CopyEffect<N>>,
    path: Seq<N>,
)
    requires
        forall|i: int| 0 <= i < effects.len() ==> effect_spares(#[trigger] effects[i], path),
    ensures
        effects_done(target, source, effects).contains_key(path) == target.contains_key(path),
        target.contains_key(path) ==> effects_done(target, source, effects)[path] == target[path],
    decreases effects.len(),
{
    if effects.len() > 0 {
        let front = effects.drop_last();
        assert forall|i: int| 0 <= i < front.len() implies effect_spares(
            #[trigger] front[i],
            path,
        ) by {
            assert(front[i] == effects[i]);
        }
        lemma_spared_stays(target, source, front, path);
        assert(effect_spares(effects[effects.len() - 1], path));
    }
}

/// A copy leaves alone whatever has no counterpart in the source.
pub proof fn lemma_copy_spares_the_rest<N, C>(
    entries: Seq<(N, TreeNode<N>)>,
    source: spec_fn(Seq<N>) -> C,
    before: Target<N, C>,
    path: Seq<N>,
)
    requires
        !in_source(entries, path),
    ensures
        ({
            let copied = effects_done(before, source, plan_dir(Seq::empty(), entries));
            &&& copied.contains_key(path) == before.contains_key(path)
            &&& before.contains_key(path) ==> copied[path] == before[path]
        }),
{
    let root = Seq::<N>::empty();
    let plan = plan_dir(root, entries);
    assert forall|i: int| 0 <= i < plan.len() implies effect_spares(#[trigger] plan[i], path) by {
        if i > 0 {
            assert(plan[i] == plan_entries(root, entries)[i - 1]);
            let (at, node) = lemma_plan_stays_in_source(root, entries, i - 1);
            assert(root + at =~= at);
            if path.is_prefix_of(at) {
                lemma_source_has_ancestors(entries, at, node, path);
            }
        }
    }
    lemma_spared_stays(before, source, plan, path);
}

proof fn lemma_effects_grow<N>(run: CopyRun<N>, n: nat)
    ensures
        run.effects.is_prefix_of(run_steps(run, n).effects),
    decreases n,
{
    if n > 0 {
        let next = run_step(run);
        lemma_effects_grow(next, (n - 1) as nat);
        let end = run_steps(run, n);
        assert(run.effects =~= end.effects.subrange(0, run.effects.len() as int)) by {
            assert forall|i: int| 0 <= i < run.effects.len() implies run.effects[i]
                == end.effects[i] by {
                assert(run.effects[i] == next.effects[i]);
                assert(next.effects[i] == end.effects.subrange(0, next.effects.len() as int)[i]);
            }
        }
    }
}

proof fn lemma_finished_run_rests<N>(run: CopyRun<N>, n: nat)
    requires
        run.state.phase == CopyPhase::Finished,
    ensures
        run_steps(run, n).state.phase == CopyPhase::Finished,
    decreases n,
{
    if n > 0 {
        lemma_finished_run_rests(run_step(run), (n - 1) as nat);
    }
}

/// A copy that fails after `n` questions, `reply` being the failure, returns
/// that error and goes no further, and what it has carried out by then is a
/// first part of the plan.
pub proof fn lemma_failed_copy_did_a_first_part<N>(
    entries: Seq<(N, TreeNode<N>)>,
    n: nat,
    reply: CopyReply<N>,
)
    requires
        copy_failure(run_steps(run_start(entries), n).state.phase, reply) is Some,
    ensures
        ({
            let run = run_steps(run_start(entries), n);
            let error = copy_failure(run.state.phase, reply)->0;
            &&& copy_outcome(run.state, reply) == Some(Err::<(), std::io::Error>(error))
            &&& copy_next(run.state, reply).phase == CopyPhase::Finished
            &&& run.effects.is_prefix_of(plan_dir(Seq::empty(), entries))
        }),
{
    let start = run_start(entries);
    let total = entries_cost(entries) + 3;
    lemma_copy_follows_plan(entries);
    if n <= total {
        lemma_run_steps_add(start, n, (total - n) as nat);
        lemma_effects_grow(run_steps(start, n), (total - n) as nat);
    } else {
        lemma_run_steps_add(start, total, (n - total) as nat);
        lemma_finished_run_rests(run_steps(start, total), (n - total) as nat);
    }
}

/// Whatever step of a copy fails, the copy is over and returns that very error.
pub proof fn lemma_copy_returns_its_error<N>(s: CopyState<N>, e: std::io::Error)
    ensures
        s.phase == CopyPhase::CreateDir ==> {
            &&& copy_outcome(s, CopyReply::Created(Err(e))) == Some(Err::<(), std::io::Error>(e))
            &&& copy_next(s, CopyReply::Created(Err(e))).phase == CopyPhase::Finished
        },
        s.phase == CopyPhase::OpenDir ==> {
            &&& copy_outcome(s, CopyReply::Opened(Err(e))) == Some(Err::<(), std::io::Error>(e))
            &&& copy_next(s, CopyReply::Opened(Err(e))).phase == CopyPhase::Finished
        },
        s.phase == CopyPhase::NextEntry ==> {
            &&& copy_outcome(s, CopyReply::Entry(Some(Err(e)))) == Some(
                Err::<(), std::io::Error>(e),
            )
            &&& copy_next(s, CopyReply::Entry(Some(Err(e)))).phase == CopyPhase::Finished
        },
        s.phase == CopyPhase::CopyEntry ==> {
            &&& copy_outcome(s, CopyReply::Copied(Err(e))) == Some(Err::<(), std::io::Error>(e))
            &&& copy_next(s, CopyReply::Copied(Err(e))).phase == CopyPhase::Finished
        },
{
}

/// A copy ends only with cause: with an error that the last reply carries, or
/// in success when the outermost listing is exhausted. It returns something
/// exactly when it ends.
pub proof fn lemma_copy_ends_with_cause<N>(s: CopyState<N>, reply: CopyReply<N>)
    ensures
        copy_outcome(s, reply) matches Some(Err(e)) ==> {
            ||| reply == CopyReply::<N>::Created(Err(e))
            ||| reply == CopyReply::<N>::Opened(Err(e))
            ||| reply == CopyReply::<N>::Entry(Some(Err(e)))
            ||| reply == CopyReply::<N>::Copied(Err(e))
        },
        copy_outcome(s, reply) matches Some(Ok(_)) <==> s.phase == CopyPhase::NextEntry
            && s.rel.len() == 0 && reply == CopyReply::<N>::Entry(None),
        copy_outcome(s, reply) is Some <==> s.phase != CopyPhase::Finished && copy_next(
            s,
            reply,
        ).phase == CopyPhase::Finished,
{
}

/// How a copy goes on after each thing that was done: a directory that was
/// created is listed, an entry is tested, then entered or copied, and after a
/// file or a whole directory the listing above it goes on. A reply to something
/// else changes nothing.
pub proof fn lemma_copy_goes_on<N>(s: CopyState<N>, reply: CopyReply<N>)
    ensures
        ({
            let next = copy_next(s, reply);
            match reply {
                CopyReply::Created(done) => if s.phase == CopyPhase::CreateDir {
                    &&& next.rel == s.rel
                    &&& done is Ok ==> next.phase == CopyPhase::OpenDir
                } else {
                    next == s
                },
                CopyReply::Opened(done) => if s.phase == CopyPhase::OpenDir {
                    &&& next.rel == s.rel
                    &&& done is Ok ==> next.phase == CopyPhase::NextEntry
                } else {
                    next == s
                },
                CopyReply::Entry(entry) => if s.phase == CopyPhase::NextEntry {
                    &&& entry matches Some(Ok(name)) ==> {
                        &&& next.phase == CopyPhase::TestEntry
                        &&& next.rel.len() == s.rel.len() + 1
                        &&& next.rel.last() == name
                        &&& next.rel.drop_last() == s.rel
                    }
                    &&& entry is None && s.rel.len() > 0 ==> {
                        &&& next.phase == CopyPhase::NextEntry
                        &&& next.rel.push(s.rel.last()) == s.rel
                    }
                } else {
                    next == s
                },
                CopyReply::IsDir(is_dir) => if s.phase == CopyPhase::TestEntry {
                    &&& next.rel == s.rel
                    &&& next.phase == CopyPhase::CreateDir <==> is_dir
                    &&& next.phase == CopyPhase::CopyEntry <==> !is_dir
                } else {
                    next == s
                },
                CopyReply::Copied(done) => if s.phase == CopyPhase::CopyEntry {
                    &&& done is Ok ==> next.phase == CopyPhase::NextEntry
                    &&& done is Ok && s.rel.len() > 0 ==> next.rel.push(s.rel.last()) == s.rel
                } else {
                    next == s
                },
            }
        }),
{
    let next = copy_next(s, reply);
    assert(s.rel.len() > 0 ==> s.rel.drop_last().push(s.rel.last()) =~= s.rel);
    assert(next.rel.len() > 0 && next.rel.len() == s.rel.len() + 1 ==> next.rel.drop_last()
        =~= s.rel);
}

/// Where an effect takes place.
pub open spec fn effect_path<N>(effect: CopyEffect<N>) -> Seq<N> {
    match effect {
        CopyEffect::MakeDir(path) => path,
        CopyEffect::CopyFile(path) => path,
    }
}

proof fn lemma_entries_follow_their_dir<N>(rel: Seq<N>, entries: Seq<(N, TreeNode<N>)>, k: int)
    requires
        0 <= k < plan_entries(rel, entries).len(),
    ensures
        ({
            let plan = plan_entries(rel, entries);
            let path = effect_path(plan[k]);
            &&& path.len() > 0
            &&& path.drop_last() == rel || exists|j: int|
                0 <= j < k && #[trigger] plan[j] == CopyEffect::MakeDir(path.drop_last())
        }),
    decreases entries,
{
    let rest = entries.subrange(1, entries.len() as int);
    let below = rel.push(entries[0].0);
    let first = match entries[0].1 {
        TreeNode::File => seq![CopyEffect::CopyFile(below)],
        TreeNode::Dir(inner) => seq![CopyEffect::MakeDir(below)] + plan_entries(below, inner),
    };
    let plan = plan_entries(rel, entries);
    let tail = plan_entries(rel, rest);
    assert(plan == first + tail);
    assert(below.drop_last() =~= rel);
    let above = effect_path(plan[k]).drop_last();
    if k >= first.len() {
        lemma_entries_follow_their_dir(rel, rest, k - first.len());
        if above != rel {
            let j = choose|j: int|
                0 <= j < k - first.len() && #[trigger] tail[j] == CopyEffect::MakeDir(above);
            assert(plan[first.len() + j] == tail[j]);
        }
    } else if k > 0 {
        let inner = entries_of(Some(entries[0].1));
        let within = plan_entries(below, inner);
        assert(decreases_to!(entries => entries[0]));
        lemma_entries_follow_their_dir(below, inner, k - 1);
        assert(plan[0] == CopyEffect::MakeDir(below));
        if above != below {
            let j = choose|j: int|
                0 <= j < k - 1 && #[trigger] within[j] == CopyEffect::MakeDir(above);
            assert(plan[j + 1] == within[j]);
        }
    }
}

/// Everything is copied into a directory that was made before it; only the
/// outermost directory comes first of all.
pub proof fn lemma_dirs_come_before_their_entries<N>(entries: Seq<(N, TreeNode<N>)>, k: int)
    requires
        0 <= k < plan_dir(Seq::empty(), entries).len(),
    ensures
        ({
            let plan = plan_dir(Seq::empty(), entries);
            let path = effect_path(plan[k]);
            if k == 0 {
                plan[k] == CopyEffect::MakeDir(Seq::<N>::empty())
            } else {
                &&& path.len() > 0
                &&& exists|j: int|
                    0 <= j < k && #[trigger] plan[j] == CopyEffect::MakeDir(path.drop_last())
            }
        }),
{
    let root = Seq::<N>::empty();
    let plan = plan_dir(root, entries);
    if k > 0 {
        let within = plan_entries(root, entries);
        assert(plan[k] == within[k - 1]);
        lemma_entries_follow_their_dir(root, entries, k - 1);
        let above = effect_path(plan[k]).drop_last();
        assert(plan[0] == CopyEffect::MakeDir(root));
        if above != root {
            let j = choose|j: int|
                0 <= j < k - 1 && #[trigger] within[j] == CopyEffect::MakeDir(above);
            assert(plan[j + 1] == within[j]);
        }
    }
}

/// Nothing of a copy in progress is lost in its mathematical value.
pub proof fn lemma_copy_value_is_faithful<N>(copy: &CopyDir<N>)
    ensures
        copy@.rel == copy.rel@,
        copy@.phase == copy.phase,
{
}

} // verus!
