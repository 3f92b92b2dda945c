use crate::account::AccountData;
use vstd::prelude::*;

verus! {

/// One contract module awaiting compilation: its source path and the paths
/// it depends on, in the order the caller declared them. Every dependency
/// must be a library path or the source path of a module published earlier
/// in the same batch.
#[derive(Clone, Debug)]
pub struct ModuleSpec {
    pub source_path: String,
    pub dependency_paths: Vec<String>,
}

#[derive(Clone, Copy, Debug, PartialEq, Eq)]
pub enum PublishError {
    /// A declared dependency path is neither a library path nor the source
    /// path of a module published earlier in the batch.
    DependencyUnresolved { module_index: usize, dependency_index: usize },
    /// The external compiler reported a failure for this module; the batch
    /// halts, since later modules may depend on it.
    CompileFailed { module_index: usize },
    /// The node rejected the publishing transaction, or confirmation timed
    /// out and the bounded retries were exhausted.
    PublishRejected { module_index: usize },
}

/// `path` occurs in `paths`.
pub open spec fn contains_path(paths: Seq<String>, path: Seq<char>) -> bool {
    exists|j: int| 0 <= j < paths.len() && paths[j]@ == path
}

/// `path` is the source path of one of the first `n` modules of the batch.
pub open spec fn published_before(mods: Seq<ModuleSpec>, n: int, path: Seq<char>) -> bool {
    exists|j: int| 0 <= j < n && mods[j].source_path@ == path
}

/// A dependency resolves at position `i`: it is a library path, or it was
/// published by a module standing before position `i`.
pub open spec fn dep_resolved(
    libs: Seq<String>,
    mods: Seq<ModuleSpec>,
    i: int,
    path: Seq<char>,
) -> bool {
    contains_path(libs, path) || published_before(mods, i, path)
}

/// Every dependency of the module at position `i` resolves there.
pub open spec fn deps_resolved_at(libs: Seq<String>, mods: Seq<ModuleSpec>, i: int) -> bool {
    forall|k: int|
        0 <= k < mods[i].dependency_paths@.len() ==> dep_resolved(
            libs,
            mods,
            i,
            (#[trigger] mods[i].dependency_paths@[k])@,
        )
}

/// The whole batch stands in a dependency-respecting order.
pub open spec fn order_respects_deps(libs: Seq<String>, mods: Seq<ModuleSpec>) -> bool {
    forall|i: int| 0 <= i < mods.len() ==> #[trigger] deps_resolved_at(libs, mods, i)
}

/// Does `path` occur in `paths`?
fn path_in(paths: &Vec<String>, path: &String) -> (r: bool)
    ensures
        r == contains_path(paths@, path@),
{
    let mut j: usize = 0;
    while j < paths.len()
        invariant
            j <= paths@.len(),
            forall|t: int| 0 <= t < j ==> (#[trigger] paths@[t])@ != path@,
        decreases paths@.len() - j,
    {
        if paths[j] == *path {
            return true;
        }
        j = j + 1;
    }
    false
}

/// Is `path` the source path of one of the first `n` modules?
fn published_in_prefix(mods: &Vec<ModuleSpec>, n: usize, path: &String) -> (r: bool)
    requires
        n <= mods@.len(),
    ensures
        r == published_before(mods@, n as int, path@),
{
    let mut j: usize = 0;
    while j < n
        invariant
            j <= n <= mods@.len(),
            forall|t: int| 0 <= t < j ==> (#[trigger] mods@[t]).source_path@ != path@,
        decreases n - j,
    {
        if mods[j].source_path == *path {
            return true;
        }
        j = j + 1;
    }
    false
}

/// Index of the first dependency of the module at position `i` that does not
/// resolve there, if any.
fn find_unresolved(libs: &Vec<String>, mods: &Vec<ModuleSpec>, i: usize) -> (r: Option<usize>)
    requires
        i < mods@.len(),
    ensures
        r is None <==> deps_resolved_at(libs@, mods@, i as int),
        r matches Some(k) ==> {
            &&& (k as int) < mods@[i as int].dependency_paths@.len()
            &&& !dep_resolved(libs@, mods@, i as int, mods@[i as int].dependency_paths@[k as int]@)
            &&& forall|k2: int|
                0 <= k2 < k ==> dep_resolved(
                    libs@,
                    mods@,
                    i as int,
                    (#[trigger] mods@[i as int].dependency_paths@[k2])@,
                )
        },
{
    let mut k: usize = 0;
    while k < mods[i].dependency_paths.len()
        invariant
            i < mods@.len(),
            k <= mods@[i as int].dependency_paths@.len(),
            forall|k2: int|
                0 <= k2 < k ==> dep_resolved(
                    libs@,
                    mods@,
                    i as int,
                    (#[trigger] mods@[i as int].dependency_paths@[k2])@,
                ),
        decreases mods@[i as int].dependency_paths@.len() - k,
    {
        let dep = &mods[i].dependency_paths[k];
        let resolved = path_in(libs, dep) || published_in_prefix(mods, i, dep);
        if !resolved {
            return Some(k);
        }
        k = k + 1;
    }
    None
}

/// Check a whole batch against its declared dependencies: succeeds exactly
/// when the supplied order respects them, and otherwise reports the first
/// module whose dependencies do not resolve, with the offending dependency.
/// A batch containing a dependency cycle can pass in no order, so a cyclic
/// configuration is always rejected here.
pub fn validate_order(library_paths: &Vec<String>, mods: &Vec<ModuleSpec>) -> (r: Result<
    (),
    PublishError,
>)
    ensures
        r is Ok <==> order_respects_deps(library_paths@, mods@),
        r matches Err(e) ==> e matches PublishError::DependencyUnresolved {
            module_index,
            dependency_index,
        } && {
            &&& (module_index as int) < mods@.len()
            &&& (dependency_index as int) < mods@[module_index as int].dependency_paths@.len()
            &&& !dep_resolved(
                library_paths@,
                mods@,
                module_index as int,
                mods@[module_index as int].dependency_paths@[dependency_index as int]@,
            )
            &&& forall|t: int| 0 <= t < module_index ==> #[trigger] deps_resolved_at(library_paths@, mods@, t)
        },
{
    let mut i: usize = 0;
    while i < mods.len()
        invariant
            i <= mods@.len(),
            forall|t: int| 0 <= t < i ==> #[trigger] deps_resolved_at(library_paths@, mods@, t),
        decreases mods@.len() - i,
    {
        match find_unresolved(library_paths, mods, i) {
            Some(k) => {
                return Err(PublishError::DependencyUnresolved {
                    module_index: i,
                    dependency_index: k,
                });
            },
            None => {},
        }
        i = i + 1;
    }
    Ok(())
}

/// Every dependency of `m` is a library path or the source path of some
/// module of `placed`.
pub open spec fn module_resolvable(libs: Seq<String>, placed: Seq<ModuleSpec>, m: ModuleSpec) -> bool {
    forall|k: int|
        0 <= k < m.dependency_paths@.len() ==> dep_resolved(
            libs,
            placed,
            placed.len() as int,
            (#[trigger] m.dependency_paths@[k])@,
        )
}

/// Do all of `m`'s dependencies resolve against the libraries and the modules
/// already placed?
fn module_deps_resolve(libs: &Vec<String>, placed: &Vec<ModuleSpec>, m: &ModuleSpec) -> (r: bool)
    ensures
        r == module_resolvable(libs@, placed@, *m),
{
    let placed_len = placed.len();
    let mut k: usize = 0;
    while k < m.dependency_paths.len()
        invariant
            placed_len == placed@.len(),
            k <= m.dependency_paths@.len(),
            forall|k2: int|
                0 <= k2 < k ==> dep_resolved(
                    libs@,
                    placed@,
                    placed@.len() as int,
                    (#[trigger] m.dependency_paths@[k2])@,
                ),
        decreases m.dependency_paths@.len() - k,
    {
        let dep = &m.dependency_paths[k];
        let resolved = path_in(libs, dep) || published_in_prefix(placed, placed_len, dep);
        if !resolved {
            return false;
        }
        k = k + 1;
    }
    true
}

/// Placing a module whose dependencies all resolve against the placed prefix
/// keeps the whole order dependency-respecting.
proof fn lemma_push_preserves_resolution(libs: Seq<String>, placed: Seq<ModuleSpec>, m: ModuleSpec)
    requires
        order_respects_deps(libs, placed),
        module_resolvable(libs, placed, m),
    ensures
        order_respects_deps(libs, placed.push(m)),
{
    let s2 = placed.push(m);
    assert forall|i: int| 0 <= i < s2.len() implies deps_resolved_at(libs, s2, i) by {
        if i < placed.len() {
            assert(deps_resolved_at(libs, placed, i));
            assert forall|k: int|
                0 <= k < s2[i].dependency_paths@.len() implies dep_resolved(
                libs,
                s2,
                i,
                (#[trigger] s2[i].dependency_paths@[k])@,
            ) by {
                assert(s2[i] == placed[i]);
                let p = placed[i].dependency_paths@[k]@;
                assert(dep_resolved(libs, placed, i, p));
                if published_before(placed, i, p) {
                    let w = choose|j: int| 0 <= j < i && placed[j].source_path@ == p;
                    assert(s2[w] == placed[w]);
                    assert(published_before(s2, i, p));
                }
            }
        } else {
            assert(s2[i] == m);
            assert forall|k: int|
                0 <= k < s2[i].dependency_paths@.len() implies dep_resolved(
                libs,
                s2,
                i,
                (#[trigger] s2[i].dependency_paths@[k])@,
            ) by {
                let p = m.dependency_paths@[k]@;
                assert(dep_resolved(libs, placed, placed.len() as int, p));
                if published_before(placed, placed.len() as int, p) {
                    let w = choose|j: int| 0 <= j < placed.len() && placed[j].source_path@ == p;
                    assert(s2[w] == placed[w]);
                    assert(published_before(s2, i, p));
                }
            }
        }
    }
}

/// A batch that could not be brought into a dependency-respecting order:
/// `ordered` is the dependency-respecting prefix that was placed, and every
/// module of `remaining` has a dependency that resolves against neither the
/// libraries nor all of `ordered` — each remaining module waits on a missing
/// path or on another remaining module, so the remainder holds a dependency
/// cycle or an unresolvable path. A fatal configuration error.
#[derive(Clone, Debug)]
pub struct OrderingFailure {
    pub ordered: Vec<ModuleSpec>,
    pub remaining: Vec<ModuleSpec>,
}

/// Bring a batch into an explicit dependency-respecting order, keeping
/// exactly the supplied modules, or report the modules that cannot be placed
/// in any order (a cycle, or a dependency on a path the batch never
/// publishes).
pub fn order_modules(library_paths: &Vec<String>, mods: Vec<ModuleSpec>) -> (r: Result<
    Vec<ModuleSpec>,
    OrderingFailure,
>)
    ensures
        r matches Ok(out) ==> order_respects_deps(library_paths@, out@) && out@.to_multiset()
            == mods@.to_multiset(),
        r matches Err(f) ==> ({
            &&& f.remaining@.len() > 0
            &&& order_respects_deps(library_paths@, f.ordered@)
            &&& f.ordered@.to_multiset().add(f.remaining@.to_multiset()) == mods@.to_multiset()
            &&& forall|t: int|
                0 <= t < f.remaining@.len() ==> !module_resolvable(
                    library_paths@,
                    f.ordered@,
                    #[trigger] f.remaining@[t],
                )
        }),
{
    let mut remaining = mods;
    let mut ordered: Vec<ModuleSpec> = Vec::new();
    proof {
        broadcast use vstd::seq_lib::group_to_multiset_ensures;
        broadcast use vstd::multiset::group_multiset_axioms;

        assert(ordered@.to_multiset().len() == 0);
        assert(ordered@.to_multiset().add(remaining@.to_multiset()) =~= remaining@.to_multiset());
    }
    loop
        invariant
            order_respects_deps(library_paths@, ordered@),
            ordered@.to_multiset().add(remaining@.to_multiset()) == mods@.to_multiset(),
        decreases remaining@.len(),
    {
        if remaining.len() == 0 {
            proof {
                broadcast use vstd::seq_lib::group_to_multiset_ensures;
                broadcast use vstd::multiset::group_multiset_axioms;

                assert(remaining@.to_multiset().len() == 0);
                assert(ordered@.to_multiset().add(remaining@.to_multiset())
                    =~= ordered@.to_multiset());
            }
            return Ok(ordered);
        }
        // look for a module whose dependencies all resolve already
        let mut j: usize = 0;
        let mut found = false;
        while !found && j < remaining.len()
            invariant
                j <= remaining@.len(),
                !found ==> forall|t: int|
                    0 <= t < j ==> !module_resolvable(
                        library_paths@,
                        ordered@,
                        #[trigger] remaining@[t],
                    ),
                found ==> j < remaining@.len() && module_resolvable(
                    library_paths@,
                    ordered@,
                    remaining@[j as int],
                ),
            decreases remaining@.len() - j + (if found { 0int } else { 1int }),
        {
            if module_deps_resolve(library_paths, &ordered, &remaining[j]) {
                found = true;
            } else {
                j = j + 1;
            }
        }
        if !found {
            // nothing can be placed: the remainder is cyclic or unresolvable
            return Err(OrderingFailure { ordered, remaining });
        }
        let ghost old_ordered = ordered@;
        let ghost old_remaining = remaining@;
        let placed = remaining.remove(j);
        proof {
            broadcast use vstd::seq_lib::group_to_multiset_ensures;
            broadcast use vstd::multiset::group_multiset_axioms;

            lemma_push_preserves_resolution(library_paths@, old_ordered, placed);
            assert(old_remaining[j as int] == placed);
            assert(old_remaining.contains(placed));
            assert(old_remaining.to_multiset().count(placed) > 0);
            assert(remaining@.to_multiset() =~= old_remaining.to_multiset().remove(placed));
            assert(ordered@.push(placed).to_multiset() =~= ordered@.to_multiset().insert(placed));
            assert(ordered@.push(placed).to_multiset().add(remaining@.to_multiset())
                =~= old_ordered.to_multiset().add(old_remaining.to_multiset()));
        }
        ordered.push(placed);
    }
}

proof fn lemma_remaining_descent(
    libs: Seq<String>,
    ordered: Seq<ModuleSpec>,
    remaining: Seq<ModuleSpec>,
    p: Seq<ModuleSpec>,
    i: int,
)
    requires
        forall|t: int|
            0 <= t < remaining.len() ==> !module_resolvable(libs, ordered, #[trigger] remaining[t]),
        p.to_multiset() == ordered.to_multiset().add(remaining.to_multiset()),
        0 <= i < p.len(),
        remaining.contains(p[i]),
    ensures
        !order_respects_deps(libs, p),
    decreases i,
{
    broadcast use vstd::seq_lib::group_to_multiset_ensures;
    broadcast use vstd::multiset::group_multiset_axioms;

    if order_respects_deps(libs, p) {
        let m = p[i];
        assert(!module_resolvable(libs, ordered, m));
        // some dependency of m resolves against neither the libraries nor `ordered`
        let k = choose|k: int|
            0 <= k < m.dependency_paths@.len() && !dep_resolved(
                libs,
                ordered,
                ordered.len() as int,
                (m.dependency_paths@[k])@,
            );
        let d = m.dependency_paths@[k]@;
        // yet in the dependency-respecting order p it resolves before position i
        assert(deps_resolved_at(libs, p, i));
        assert(dep_resolved(libs, p, i, (p[i].dependency_paths@[k])@));
        assert(!contains_path(libs, d));
        assert(published_before(p, i, d));
        let j = choose|j: int| 0 <= j < i && p[j].source_path@ == d;
        // the provider of d cannot be a placed module, so it is itself stuck
        if !remaining.contains(p[j]) {
            assert(p.contains(p[j]));
            assert(p.to_multiset().count(p[j]) > 0);
            assert(remaining.to_multiset().count(p[j]) == 0);
            assert(ordered.to_multiset().count(p[j]) > 0);
            assert(ordered.contains(p[j]));
            let w = choose|w: int| 0 <= w < ordered.len() && ordered[w] == p[j];
            assert(ordered[w].source_path@ == d);
            assert(published_before(ordered, ordered.len() as int, d));
        }
        assert(remaining.contains(p[j]));
        // descend to the earlier stuck provider: the assumed order collapses
        lemma_remaining_descent(libs, ordered, remaining, p, j);
    }
}

/// Law: the failure report of `order_modules` names a genuinely unorderable
/// remainder. Whenever a nonempty set of modules each has a dependency that
/// is neither a library path nor provided by the placed modules, no ordering
/// `p` of the whole batch respects the declared dependencies: the remainder
/// holds a dependency cycle or a path the batch never publishes, a fatal
/// configuration error in any order.
pub proof fn lemma_stuck_remainder_admits_no_order(
    libs: Seq<String>,
    ordered: Seq<ModuleSpec>,
    remaining: Seq<ModuleSpec>,
    p: Seq<ModuleSpec>,
)
    requires
        remaining.len() > 0,
        forall|t: int|
            0 <= t < remaining.len() ==> !module_resolvable(libs, ordered, #[trigger] remaining[t]),
        p.to_multiset() == ordered.to_multiset().add(remaining.to_multiset()),
    ensures
        !order_respects_deps(libs, p),
{
    broadcast use vstd::seq_lib::group_to_multiset_ensures;
    broadcast use vstd::multiset::group_multiset_axioms;

    if order_respects_deps(libs, p) {
        let v = remaining[0];
        assert(remaining.contains(v));
        assert(remaining.to_multiset().count(v) > 0);
        assert(p.to_multiset().count(v) > 0);
        assert(p.contains(v));
        let i = choose|i: int| 0 <= i < p.len() && p[i] == v;
        lemma_remaining_descent(libs, ordered, remaining, p, i);
    }
}

/// Drives a dependency-ordered batch of modules through compile and publish.
/// Modules are processed strictly in the supplied order; the first `next`
/// entries have been compiled and published. A failure halts the remaining
/// batch (later modules may depend on the failed one).
pub struct ModulePublishPipeline {
    pub library_paths: Vec<String>,
    pub mods: Vec<ModuleSpec>,
    /// Modules before this position are published.
    pub next: usize,
    /// Transient publish retries already spent on the current module.
    pub attempts: u64,
    /// Bound on transient publish retries per module.
    pub max_attempts: u64,
    /// A failure stopped the batch; no further module is compiled.
    pub halted: bool,
}

impl ModulePublishPipeline {
    pub open spec fn wf(self) -> bool {
        &&& self.next <= self.mods@.len()
        &&& self.attempts <= self.max_attempts
    }

    /// All modules of the batch are published.
    pub open spec fn done(self) -> bool {
        self.next == self.mods@.len()
    }

    /// Have all modules of the batch been published?
    pub fn is_done(&self) -> (r: bool)
        ensures
            r == self.done(),
    {
        self.next == self.mods.len()
    }

    pub fn new(library_paths: Vec<String>, mods: Vec<ModuleSpec>, max_attempts: u64) -> (r: Self)
        ensures
            r.wf(),
            r.library_paths@ == library_paths@,
            r.mods@ == mods@,
            r.next == 0,
            r.attempts == 0,
            r.max_attempts == max_attempts,
            !r.halted,
    {
        ModulePublishPipeline {
            library_paths,
            mods,
            next: 0,
            attempts: 0,
            max_attempts,
            halted: false,
        }
    }

    /// The module standing at position `i` of the batch.
    pub fn module(&self, i: usize) -> (r: &ModuleSpec)
        requires
            i < self.mods@.len(),
        ensures
            *r == self.mods@[i as int],
    {
        &self.mods[i]
    }

    /// Validate the next module's dependencies and release it to the external
    /// compiler. Succeeds, returning the module's position, exactly when every
    /// declared dependency is a library path or was published earlier in the
    /// batch; otherwise the pipeline fails fast with `DependencyUnresolved`,
    /// halting the batch before the compiler or the publisher is invoked.
    pub fn begin_compile(&mut self) -> (r: Result<usize, PublishError>)
        requires
            old(self).wf(),
            !old(self).halted,
            old(self).next < old(self).mods@.len(),
        ensures
            final(self).wf(),
            final(self).library_paths == old(self).library_paths,
            final(self).mods == old(self).mods,
            final(self).next == old(self).next,
            final(self).attempts == old(self).attempts,
            final(self).max_attempts == old(self).max_attempts,
            r is Ok <==> deps_resolved_at(
                old(self).library_paths@,
                old(self).mods@,
                old(self).next as int,
            ),
            r is Ok ==> r->Ok_0 == old(self).next && !final(self).halted,
            r is Err ==> final(self).halted,
            r matches Err(e) ==> e matches PublishError::DependencyUnresolved {
                module_index,
                dependency_index,
            } && {
                &&& module_index == old(self).next
                &&& (dependency_index as int) < old(self).mods@[old(self).next as int].dependency_paths@.len()
                &&& !dep_resolved(
                    old(self).library_paths@,
                    old(self).mods@,
                    old(self).next as int,
                    old(self).mods@[old(self).next as int].dependency_paths@[dependency_index as int]@,
                )
            },
    {
        match find_unresolved(&self.library_paths, &self.mods, self.next) {
            None => Ok(self.next),
            Some(k) => {
                self.halted = true;
                Err(PublishError::DependencyUnresolved {
                    module_index: self.next,
                    dependency_index: k,
                })
            },
        }
    }

    /// The external compiler failed on the module at position `next`: fatal
    /// for the batch, which halts without touching any shared state.
    pub fn compile_failed(&mut self) -> (e: PublishError)
        requires
            old(self).wf(),
            !old(self).halted,
            old(self).next < old(self).mods@.len(),
        ensures
            final(self).wf(),
            final(self).halted,
            final(self).library_paths == old(self).library_paths,
            final(self).mods == old(self).mods,
            final(self).next == old(self).next,
            e == (PublishError::CompileFailed { module_index: old(self).next }),
    {
        self.halted = true;
        PublishError::CompileFailed { module_index: self.next }
    }

    /// The node confirmed inclusion of the publishing transaction for the
    /// module at position `next`: the module counts as published and the
    /// signing account's sequence number advances by exactly one.
    pub fn published(&mut self, account: &mut AccountData)
        requires
            old(self).wf(),
            !old(self).halted,
            old(self).next < old(self).mods@.len(),
            old(account).sequence_number < u64::MAX,
        ensures
            final(self).wf(),
            !final(self).halted,
            final(self).library_paths == old(self).library_paths,
            final(self).mods == old(self).mods,
            final(self).next == old(self).next + 1,
            final(self).attempts == 0,
            final(self).max_attempts == old(self).max_attempts,
            final(account).sequence_number == old(account).sequence_number + 1,
            final(account).address@ == old(account).address@,
            final(account).signing_key@ == old(account).signing_key@,
    {
        account.record_accepted();
        self.attempts = 0;
        let batch_len = self.mods.len();
        assert(self.next < batch_len);
        self.next = self.next + 1;
    }

    /// The node rejected the publishing transaction or confirmation timed
    /// out. The sequence number is never touched here, so a retry cannot
    /// double-increment it. A transient failure is retried with the same
    /// artifact up to the bound; exhaustion, or a non-transient rejection,
    /// halts the batch and the failure is surfaced as `PublishRejected`.
    pub fn publish_failed(&mut self, transient: bool) -> (retry: bool)
        requires
            old(self).wf(),
            !old(self).halted,
            old(self).next < old(self).mods@.len(),
        ensures
            final(self).wf(),
            final(self).library_paths == old(self).library_paths,
            final(self).mods == old(self).mods,
            final(self).next == old(self).next,
            final(self).max_attempts == old(self).max_attempts,
            retry <==> transient && old(self).attempts < old(self).max_attempts,
            retry ==> !final(self).halted && final(self).attempts == old(self).attempts + 1,
            !retry ==> final(self).halted,
    {
        if transient && self.attempts < self.max_attempts {
            self.attempts = self.attempts + 1;
            true
        } else {
            self.halted = true;
            false
        }
    }

    /// The error to surface when publishing the module at position `i` was
    /// permanently rejected.
    pub fn publish_rejected_error(&self, i: usize) -> (e: PublishError)
        ensures
            e == (PublishError::PublishRejected { module_index: i }),
    {
        PublishError::PublishRejected { module_index: i }
    }
}

/// Law: in a batch whose order respects the declared dependencies, dependency
/// validation is owed success at every position. With `begin_compile`'s
/// contract this means every module of such a batch is released to compile
/// and publish in the supplied order, and with `published`'s contract each
/// confirmed publish advances the account's sequence number by exactly one.
pub proof fn lemma_ordered_batch_resolves(libs: Seq<String>, mods: Seq<ModuleSpec>, i: int)
    requires
        order_respects_deps(libs, mods),
        0 <= i < mods.len(),
    ensures
        deps_resolved_at(libs, mods, i),
{
}

/// Law: a module one of whose declared dependencies resolves neither to a
/// library path nor to a module published earlier in the batch fails
/// dependency validation. With `begin_compile`'s contract the pipeline halts
/// there with `DependencyUnresolved`, before the compiler or the publisher is
/// invoked for that module.
pub proof fn lemma_unresolved_dependency_rejected(
    libs: Seq<String>,
    mods: Seq<ModuleSpec>,
    i: int,
    k: int,
)
    requires
        0 <= i < mods.len(),
        0 <= k < mods[i].dependency_paths@.len(),
        !dep_resolved(libs, mods, i, mods[i].dependency_paths@[k]@),
    ensures
        !deps_resolved_at(libs, mods, i),
        !order_respects_deps(libs, mods),
{
    assert(!deps_resolved_at(libs, mods, i));
}

} // verus!
