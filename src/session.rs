use vstd::prelude::*;

use crate::builder::MemberPlan;
use crate::cache::{
    entry_of, include_observations, include_records, info_changed, lemma_matching_entry_needs_no_rebuild, opt_info,
    rebuild_needed, recorded_as, BuildCache, BuildCacheView, CacheEntryView, FileInfo,
};
use crate::error::ForgeError;
use crate::text::strs;

verus! {

/// What is observed of one source before deciding whether to rebuild it:
/// whether its object file exists, its fingerprint (`None`: it could not be
/// examined), and each header it currently has with its fingerprint.
#[derive(Debug)]
pub struct FileObservation {
    pub object_exists: bool,
    pub source_now: Option<FileInfo>,
    pub headers: Vec<(String, Option<FileInfo>)>,
}

/// How one compile ended: the fingerprints of the source and of each of its
/// headers taken after success, or the compiler's diagnostic text.
pub type CompileOutcome = Result<(FileInfo, Vec<(String, FileInfo)>), String>;

/// Where a session stands.
#[derive(Debug, Clone, Copy, PartialEq, Eq, Structural)]
pub enum Phase {
    /// Waiting for the observations of the current member's sources.
    Check,
    /// Waiting for the outcomes of the current member's compiles.
    Compile,
    /// Waiting for the current member's link.
    Link,
    /// Every member is built.
    Finished,
    /// The build stopped at its first failure.
    Failed,
}

/// What the caller is to do next.
#[derive(Debug)]
pub enum Step {
    /// Observe every source of member `member` (the index into the plans).
    Check { member: usize },
    /// Compile these sources of member `member`; the others keep their
    /// objects.
    Compile { member: usize, files: Vec<usize> },
    /// Link the objects of member `member`.
    Link { member: usize },
    /// Every member is built; the cache is ready to persist.
    Finished,
    /// The build stopped with this error.
    Failed(ForgeError),
}

/// Whether source `i` of `plan` must be recompiled, given what is observed.
pub open spec fn file_stale(cache: BuildCacheView, plan: MemberPlan, i: int, o: FileObservation) -> bool {
    rebuild_needed(
        cache,
        plan.sources@[i]@,
        o.object_exists,
        opt_info(o.source_now),
        include_observations(o.headers@),
        strs(plan.flags@),
        plan.target@,
        plan.profile@,
    )
}

/// The indices, in increasing order, of the sources found stale.
pub open spec fn stale_files(cache: BuildCacheView, plan: MemberPlan, obs: Seq<FileObservation>) -> Seq<usize>
    decreases obs.len(),
{
    if obs.len() == 0 {
        Seq::empty()
    } else {
        let r = stale_files(cache, plan, obs.drop_last());
        if file_stale(cache, plan, obs.len() - 1, obs.last()) {
            r.push((obs.len() - 1) as usize)
        } else {
            r
        }
    }
}

/// The cache entries after recording, in order, each successful compile of
/// the sources `files` of `plan`.
pub open spec fn recorded(
    entries: Map<Seq<char>, CacheEntryView>,
    plan: MemberPlan,
    files: Seq<usize>,
    results: Seq<CompileOutcome>,
    timestamp: u64,
) -> Map<Seq<char>, CacheEntryView>
    decreases results.len(),
{
    if results.len() == 0 {
        entries
    } else {
        let before = recorded(entries, plan, files, results.drop_last(), timestamp);
        match results.last() {
            Ok(f) => before.insert(
                plan.sources@[files[results.len() - 1] as int]@,
                entry_of(f.0@, include_records(f.1@), strs(plan.flags@), plan.target@, plan.profile@, timestamp),
            ),
            Err(_) => before,
        }
    }
}

/// The diagnostic of the first failed compile, if any failed.
pub open spec fn first_error(results: Seq<CompileOutcome>) -> Option<Seq<char>>
    decreases results.len(),
{
    if results.len() == 0 {
        None
    } else {
        match results[0] {
            Err(text) => Some(text@),
            Ok(_) => first_error(results.skip(1)),
        }
    }
}

/// The progress record of a build that runs members strictly one after
/// another: for each member in turn, the start of its compiles
/// (`(m, false)`) and then their end (`(m, true)`).
pub open spec fn sequential_log(len: nat) -> Seq<(int, bool)> {
    Seq::new(len, |k: int| (k / 2, k % 2 == 1))
}

/// Drives the build of planned members, strictly in order: it owns the
/// cache, decides from observations which sources to compile, records each
/// successful compile, asks for each link, and stops at the first failure.
pub struct BuildSession {
    cache: BuildCache,
    plans: Vec<MemberPlan>,
    current: usize,
    phase: Phase,
    to_compile: Vec<usize>,
    failure: Option<ForgeError>,
    log: Ghost<Seq<(int, bool)>>,
}

impl BuildSession {
    pub closed spec fn cache_view(&self) -> BuildCacheView {
        self.cache@
    }

    pub closed spec fn plans_view(&self) -> Seq<MemberPlan> {
        self.plans@
    }

    pub closed spec fn current_view(&self) -> int {
        self.current as int
    }

    pub closed spec fn phase_view(&self) -> Phase {
        self.phase
    }

    pub closed spec fn to_compile_view(&self) -> Seq<usize> {
        self.to_compile@
    }

    pub closed spec fn failure_view(&self) -> Option<ForgeError> {
        self.failure
    }

    /// The compiles started and finished so far, member by member.
    pub closed spec fn history(&self) -> Seq<(int, bool)> {
        self.log@
    }

    pub closed spec fn wf(&self) -> bool {
        &&& self.cache.wf()
        &&& self.current <= self.plans@.len()
        &&& (self.phase == Phase::Check || self.phase == Phase::Compile || self.phase == Phase::Link)
            ==> self.current < self.plans@.len()
        &&& self.phase == Phase::Finished ==> self.current == self.plans@.len()
        &&& self.phase == Phase::Failed <==> self.failure is Some
        &&& self.phase == Phase::Compile ==> forall|k: int|
            0 <= k < self.to_compile@.len() ==> #[trigger] self.to_compile@[k] < self.plans@[self.current as int].sources@.len()
        &&& self.log@ == sequential_log(self.log@.len())
        &&& self.log@.len() == 2 * self.current + match self.phase {
            Phase::Check => 0int,
            Phase::Compile => 1,
            Phase::Link => 2,
            Phase::Finished => 0,
            Phase::Failed => 2,
        }
    }

    /// A session over `plans`, listed in build order, with `cache`.
    pub fn new(cache: BuildCache, plans: Vec<MemberPlan>) -> (r: Self)
        requires
            cache.wf(),
        ensures
            r.wf(),
            r.cache_view() == cache@,
            r.plans_view() == plans@,
            r.current_view() == 0,
            r.phase_view() == if plans@.len() > 0 {
                Phase::Check
            } else {
                Phase::Finished
            },
            r.history() == Seq::<(int, bool)>::empty(),
    {
        let phase = if plans.len() > 0 {
            Phase::Check
        } else {
            Phase::Finished
        };
        let r = BuildSession {
            cache,
            plans,
            current: 0,
            phase,
            to_compile: Vec::new(),
            failure: None,
            log: Ghost(Seq::empty()),
        };
        assert(r.log@ =~= sequential_log(0));
        r
    }

    pub fn plans(&self) -> (r: &Vec<MemberPlan>)
        ensures
            r@ == self.plans_view(),
    {
        &self.plans
    }

    pub fn cache(&self) -> (r: &BuildCache)
        ensures
            r@ == self.cache_view(),
            self.wf() ==> r.wf(),
    {
        &self.cache
    }

    /// Ends the session, handing back its cache.
    pub fn into_cache(self) -> (r: BuildCache)
        requires
            self.wf(),
        ensures
            r@ == self.cache_view(),
            r.wf(),
    {
        self.cache
    }

    /// What the caller is to do now.
    pub fn next_step(&self) -> (r: Step)
        requires
            self.wf(),
        ensures
            match self.phase_view() {
                Phase::Check => r matches Step::Check { member } && member == self.current_view(),
                Phase::Compile => r matches Step::Compile { member, files } && member == self.current_view()
                    && files@ == self.to_compile_view(),
                Phase::Link => r matches Step::Link { member } && member == self.current_view(),
                Phase::Finished => r is Finished,
                Phase::Failed => r matches Step::Failed(e) && Some(e) == self.failure_view(),
            },
    {
        match self.phase {
            Phase::Check => Step::Check { member: self.current },
            Phase::Compile => {
                let mut files: Vec<usize> = Vec::new();
                let mut i: usize = 0;
                while i < self.to_compile.len()
                    invariant
                        i <= self.to_compile.len(),
                        files@ == self.to_compile@.take(i as int),
                    decreases self.to_compile.len() - i,
                {
                    files.push(self.to_compile[i]);
                    i = i + 1;
                    assert(files@ =~= self.to_compile@.take(i as int));
                }
                assert(self.to_compile@.take(self.to_compile.len() as int) =~= self.to_compile@);
                Step::Compile { member: self.current, files }
            },
            Phase::Link => Step::Link { member: self.current },
            Phase::Finished => Step::Finished,
            Phase::Failed => match &self.failure {
                Some(e) => Step::Failed(e.duplicate()),
                None => Step::Finished,
            },
        }
    }

    /// Takes the observations of every source of the current member, in
    /// plan order, and picks the stale ones to compile.
    pub fn checked(&mut self, observations: Vec<FileObservation>)
        requires
            old(self).wf(),
            old(self).phase_view() == Phase::Check,
            observations@.len() == old(self).plans_view()[old(self).current_view()].sources@.len(),
        ensures
            final(self).wf(),
            final(self).phase_view() == Phase::Compile,
            final(self).to_compile_view() == stale_files(
                old(self).cache_view(),
                old(self).plans_view()[old(self).current_view()],
                observations@,
            ),
            final(self).cache_view() == old(self).cache_view(),
            final(self).plans_view() == old(self).plans_view(),
            final(self).current_view() == old(self).current_view(),
            final(self).history() == old(self).history().push((old(self).current_view(), false)),
    {
        let plan = &self.plans[self.current];
        let mut stale: Vec<usize> = Vec::new();
        let mut i: usize = 0;
        while i < observations.len()
            invariant
                i <= observations.len(),
                self.cache.wf(),
                observations@.len() == plan.sources@.len(),
                stale@ == stale_files(self.cache@, *plan, observations@.take(i as int)),
                forall|k: int| 0 <= k < stale@.len() ==> #[trigger] stale@[k] < i,
            decreases observations.len() - i,
        {
            let o = &observations[i];
            let needs = self.cache.needs_rebuild(
                plan.sources[i].as_str(),
                o.object_exists,
                &o.source_now,
                &o.headers,
                &plan.flags,
                plan.target.as_str(),
                plan.profile.as_str(),
            );
            proof {
                assert(observations@.take(i + 1).drop_last() =~= observations@.take(i as int));
                assert(observations@.take(i + 1).last() == observations@[i as int]);
            }
            if needs {
                stale.push(i);
            }
            i = i + 1;
        }
        proof {
            assert(observations@.take(observations@.len() as int) =~= observations@);
        }
        self.to_compile = stale;
        self.phase = Phase::Compile;
        self.log = Ghost(self.log@.push((self.current as int, false)));
        proof {
            assert(self.log@ =~= sequential_log(self.log@.len()));
        }
    }

    /// Moves on to the next member, or finishes after the last.
    fn advance(&mut self)
        requires
            old(self).current < old(self).plans@.len(),
        ensures
            final(self).current == old(self).current + 1,
            final(self).phase == if old(self).current + 1 < old(self).plans@.len() {
                Phase::Check
            } else {
                Phase::Finished
            },
            final(self).cache == old(self).cache,
            final(self).plans == old(self).plans,
            final(self).failure == old(self).failure,
            final(self).to_compile == old(self).to_compile,
            final(self).log == old(self).log,
    {
        let n = self.plans.len();
        self.current = self.current + 1;
        self.phase = if self.current < n {
            Phase::Check
        } else {
            Phase::Finished
        };
    }

    /// Takes the outcome of each compile asked for, in the order asked. Each
    /// success is recorded in the cache; when any compile failed, the
    /// session fails with the first failure's diagnostic. Otherwise the
    /// member's objects are linked next, or, with no sources, the next
    /// member begins.
    pub fn compiled(&mut self, results: Vec<CompileOutcome>, timestamp: u64)
        requires
            old(self).wf(),
            old(self).phase_view() == Phase::Compile,
            results@.len() == old(self).to_compile_view().len(),
        ensures
            final(self).wf(),
            final(self).cache_view().entries == recorded(
                old(self).cache_view().entries,
                old(self).plans_view()[old(self).current_view()],
                old(self).to_compile_view(),
                results@,
                timestamp,
            ),
            final(self).cache_view().quick_check == old(self).cache_view().quick_check,
            final(self).cache_view().cache_dir == old(self).cache_view().cache_dir,
            final(self).plans_view() == old(self).plans_view(),
            final(self).history() == old(self).history().push((old(self).current_view(), true)),
            match first_error(results@) {
                Some(text) => final(self).phase_view() == Phase::Failed && (final(self).failure_view() matches Some(
                    ForgeError::Compiler(m),
                ) && m@ == text),
                None => if old(self).plans_view()[old(self).current_view()].sources@.len() > 0 {
                    final(self).phase_view() == Phase::Link && final(self).current_view() == old(self).current_view()
                } else {
                    final(self).current_view() == old(self).current_view() + 1 && final(self).phase_view() == if old(
                        self,
                    ).current_view() + 1 < old(self).plans_view().len() {
                        Phase::Check
                    } else {
                        Phase::Finished
                    }
                },
            },
    {
        let ghost all = results@;
        let ghost start = self.cache@.entries;
        let mut rest = results;
        let mut failure: Option<ForgeError> = None;
        let total = self.to_compile.len();
        let mut k: usize = 0;
        assert(all.skip(0) =~= all);
        assert(all.take(0) =~= Seq::<CompileOutcome>::empty());
        while rest.len() > 0
            invariant
                total == all.len(),
                k <= all.len(),
                all.len() == self.to_compile@.len(),
                rest@ == all.skip(k as int),
                self.cache.wf(),
                self.current < self.plans@.len(),
                forall|x: int|
                    0 <= x < self.to_compile@.len() ==> #[trigger] self.to_compile@[x]
                        < self.plans@[self.current as int].sources@.len(),
                self.cache@.entries == recorded(
                    start,
                    self.plans@[self.current as int],
                    self.to_compile@,
                    all.take(k as int),
                    timestamp,
                ),
                self.cache@.quick_check == old(self).cache@.quick_check,
                self.cache@.cache_dir == old(self).cache@.cache_dir,
                self.plans == old(self).plans,
                self.current == old(self).current,
                self.to_compile == old(self).to_compile,
                self.phase == old(self).phase,
                self.log == old(self).log,
                self.failure == old(self).failure,
                match failure {
                    Some(e) => e matches ForgeError::Compiler(m) && first_error(all) == Some(m@),
                    None => first_error(all) == first_error(all.skip(k as int)),
                },
            decreases rest.len(),
        {
            let ghost prev = rest@;
            let outcome = rest.remove(0);
            proof {
                assert(all[k as int] == outcome);
                assert(rest@ =~= all.skip(k + 1));
                assert(all.take(k + 1).drop_last() =~= all.take(k as int));
                assert(all.take(k + 1).last() == outcome);
                assert(all.skip(k as int)[0] == outcome);
                assert(all.skip(k as int).skip(1) =~= all.skip(k + 1));
            }
            let file = self.to_compile[k];
            match outcome {
                Ok((source_info, headers)) => {
                    let plan = &self.plans[self.current];
                    self.cache.update(
                        plan.sources[file].as_str(),
                        source_info,
                        headers,
                        &plan.flags,
                        plan.target.as_str(),
                        plan.profile.as_str(),
                        timestamp,
                    );
                },
                Err(text) => {
                    if failure.is_none() {
                        failure = Some(ForgeError::Compiler(text));
                    }
                },
            }
            k = k + 1;
        }
        proof {
            assert(all.take(all.len() as int) =~= all);
            assert(all.skip(all.len() as int) =~= Seq::<CompileOutcome>::empty());
        }
        self.log = Ghost(self.log@.push((self.current as int, true)));
        proof {
            assert(self.log@ =~= sequential_log(self.log@.len()));
        }
        match failure {
            Some(e) => {
                self.failure = Some(e);
                self.phase = Phase::Failed;
            },
            None => {
                if self.plans[self.current].sources.len() > 0 {
                    self.phase = Phase::Link;
                } else {
                    self.advance();
                }
            },
        }
    }

    /// Takes the outcome of the current member's link: on success the next
    /// member begins (or the build finishes), on failure the session fails
    /// with the linker's diagnostic.
    pub fn linked(&mut self, result: Result<(), String>)
        requires
            old(self).wf(),
            old(self).phase_view() == Phase::Link,
        ensures
            final(self).wf(),
            final(self).cache_view() == old(self).cache_view(),
            final(self).plans_view() == old(self).plans_view(),
            final(self).history() == old(self).history(),
            match result {
                Ok(()) => final(self).current_view() == old(self).current_view() + 1 && final(self).phase_view() == if old(
                    self,
                ).current_view() + 1 < old(self).plans_view().len() {
                    Phase::Check
                } else {
                    Phase::Finished
                },
                Err(text) => final(self).phase_view() == Phase::Failed && (final(self).failure_view() matches Some(
                    ForgeError::Compiler(m),
                ) && m@ == text@),
            },
    {
        match result {
            Ok(()) => {
                self.advance();
            },
            Err(text) => {
                self.failure = Some(ForgeError::Compiler(text));
                self.phase = Phase::Failed;
            },
        }
    }
}

/// Only an edited source is recompiled: of two sources, when the first was
/// edited since its entry was recorded and the second matches its entry
/// exactly (same flags, target and profile, same fingerprints of itself and
/// of every header, as many headers, object present), the session asks to
/// compile the first alone. The link of the plan then takes both objects.
pub proof fn lemma_only_edited_source_recompiles(cache: BuildCacheView, plan: MemberPlan, obs: Seq<FileObservation>)
    requires
        plan.sources@.len() == 2,
        obs.len() == 2,
        cache.entries.contains_key(plan.sources@[0]@),
        info_changed(cache.quick_check, cache.entries[plan.sources@[0]@].source, opt_info(obs[0].source_now)),
        cache.entries.contains_key(plan.sources@[1]@),
        obs[1].object_exists,
        cache.entries[plan.sources@[1]@].flags == strs(plan.flags@),
        cache.entries[plan.sources@[1]@].target == plan.target@,
        cache.entries[plan.sources@[1]@].profile == plan.profile@,
        opt_info(obs[1].source_now) == Some(cache.entries[plan.sources@[1]@].source),
        forall|i: int|
            0 <= i < obs[1].headers@.len() ==> recorded_as(
                cache.entries[plan.sources@[1]@].includes,
                #[trigger] include_observations(obs[1].headers@)[i].0,
                include_observations(obs[1].headers@)[i].1,
            ),
        cache.entries[plan.sources@[1]@].includes.len() == obs[1].headers@.len(),
    ensures
        stale_files(cache, plan, obs) == seq![0usize],
{
    let o = include_observations(obs[1].headers@);
    assert forall|i: int| 0 <= i < o.len() implies recorded_as(
        cache.entries[plan.sources@[1]@].includes,
        #[trigger] o[i].0,
        o[i].1,
    ) by {}
    lemma_matching_entry_needs_no_rebuild(
        cache,
        plan.sources@[1]@,
        opt_info(obs[1].source_now),
        o,
        strs(plan.flags@),
        plan.target@,
        plan.profile@,
    );
    assert(!file_stale(cache, plan, 1, obs[1]));
    assert(file_stale(cache, plan, 0, obs[0]));
    let first = obs.drop_last();
    assert(first.drop_last() =~= Seq::<FileObservation>::empty());
    assert(first.last() == obs[0]);
    assert(first.len() == 1);
    assert(stale_files(cache, plan, first.drop_last()) == Seq::<usize>::empty());
    assert(file_stale(cache, plan, first.len() - 1, first.last()));
    assert(stale_files(cache, plan, first) == Seq::<usize>::empty().push(0usize));
    assert(stale_files(cache, plan, first) =~= seq![0usize]);
    assert(obs.last() == obs[1]);
}

/// Members are built strictly one after another: in the progress record of
/// any session, when the compiles of a member start, every compile of each
/// member before it has already finished.
pub proof fn lemma_earlier_members_finish_first(s: BuildSession, i: int, j: int)
    requires
        s.wf(),
        0 <= i < j < s.history().len(),
        s.history()[j].1 == false,
        s.history()[i].0 < s.history()[j].0,
    ensures
        exists|k: int| i <= k < j && #[trigger] s.history()[k] == (s.history()[i].0, true),
{
    let log = s.history();
    lemma_sequential_log_order(log.len(), i, j);
}

proof fn lemma_sequential_log_order(len: nat, i: int, j: int)
    requires
        0 <= i < j < len,
        sequential_log(len)[j].1 == false,
        sequential_log(len)[i].0 < sequential_log(len)[j].0,
    ensures
        exists|k: int| i <= k < j && #[trigger] sequential_log(len)[k] == (sequential_log(len)[i].0, true),
{
    let log = sequential_log(len);
    let a = i / 2;
    let k = 2 * a + 1;
    assert(log[i] == (i / 2, i % 2 == 1));
    assert(log[j] == (j / 2, j % 2 == 1));
    assert(i <= k < j) by {
        assert(i == 2 * (i / 2) + i % 2);
        assert(j == 2 * (j / 2));
    }
    assert(log[k] == (k / 2, k % 2 == 1));
    assert(k / 2 == a && k % 2 == 1);
}

} // verus!
