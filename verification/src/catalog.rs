//! The projects and their benchmarks.
//!
//! A project owns its benchmarks: a benchmark belongs to a project that
//! exists, and deleting a project deletes its benchmarks. No two projects
//! have the same name, and no project holds the same file twice.

use vstd::prelude::*;
use crate::clock::now_rfc3339;
use crate::ordering::{lemma_text_le_total, lemma_text_le_trans, text_before, text_le};
use crate::state::{Benchmark, BenchmarkView, Project, ProjectView};
use crate::text::{chars_of, vec_eq};

verus! {

/// The views of a sequence of projects.
pub open spec fn project_views(v: Seq<Project>) -> Seq<ProjectView> {
    v.map_values(|p: Project| p@)
}

/// The views of a sequence of benchmarks.
pub open spec fn bench_views(v: Seq<Benchmark>) -> Seq<BenchmarkView> {
    v.map_values(|b: Benchmark| b@)
}

/// Whether a project has the id.
pub open spec fn has_project(projects: Seq<ProjectView>, id: i64) -> bool {
    exists|i: int| 0 <= i < projects.len() && (#[trigger] projects[i]).id == id
}

/// The index of the project with the id, where there is one.
pub open spec fn project_index(projects: Seq<ProjectView>, id: i64) -> int {
    choose|i: int| 0 <= i < projects.len() && (#[trigger] projects[i]).id == id
}

/// Whether a project has the name.
pub open spec fn has_name(projects: Seq<ProjectView>, name: Seq<char>) -> bool {
    exists|i: int| 0 <= i < projects.len() && (#[trigger] projects[i]).name == name
}

/// Whether a benchmark has the id.
pub open spec fn has_benchmark(benchmarks: Seq<BenchmarkView>, id: i64) -> bool {
    exists|i: int| 0 <= i < benchmarks.len() && (#[trigger] benchmarks[i]).id == id
}

/// The index of the benchmark with the id, where there is one.
pub open spec fn benchmark_index(benchmarks: Seq<BenchmarkView>, id: i64) -> int {
    choose|i: int| 0 <= i < benchmarks.len() && (#[trigger] benchmarks[i]).id == id
}

/// Whether the project holds the file.
pub open spec fn has_path(benchmarks: Seq<BenchmarkView>, project_id: i64, path: Seq<char>) -> bool {
    exists|i: int|
        0 <= i < benchmarks.len() && (#[trigger] benchmarks[i]).project_id == project_id
            && benchmarks[i].path == path
}

/// Valid projects: positive ids that grow, and names that differ.
pub open spec fn projects_wf(projects: Seq<ProjectView>) -> bool {
    &&& forall|i: int| 0 <= i < projects.len() ==> (#[trigger] projects[i]).id >= 1
    &&& forall|i: int, j: int|
        0 <= i < j < projects.len() ==> (#[trigger] projects[i]).id < (#[trigger] projects[j]).id
    &&& forall|i: int, j: int|
        0 <= i < j < projects.len() ==> (#[trigger] projects[i]).name
            != (#[trigger] projects[j]).name
}

/// Valid benchmarks of the projects: positive ids that grow, each benchmark
/// in a project that exists, and no file twice in a project.
pub open spec fn benchmarks_wf(projects: Seq<ProjectView>, benchmarks: Seq<BenchmarkView>) -> bool {
    &&& forall|i: int| 0 <= i < benchmarks.len() ==> (#[trigger] benchmarks[i]).id >= 1
    &&& forall|i: int, j: int|
        0 <= i < j < benchmarks.len() ==> (#[trigger] benchmarks[i]).id
            < (#[trigger] benchmarks[j]).id
    &&& forall|i: int|
        0 <= i < benchmarks.len() ==> has_project(projects, (#[trigger] benchmarks[i]).project_id)
    &&& forall|i: int, j: int|
        0 <= i < j < benchmarks.len() && (#[trigger] benchmarks[i]).project_id
            == (#[trigger] benchmarks[j]).project_id ==> benchmarks[i].path != benchmarks[j].path
}

/// Why an operation on the projects or benchmarks was refused.
#[derive(Debug, Clone, Copy, PartialEq, Eq, Structural)]
pub enum CatalogError {
    /// A project has the name already.
    DuplicateName,
    /// The project holds the file already.
    DuplicatePath,
    /// No project has the id.
    UnknownProject,
    /// No benchmark has the id.
    UnknownBenchmark,
    /// Ids are used up.
    Full,
}

impl CatalogError {
    /// The message of the error.
    pub open spec fn text(self) -> Seq<char> {
        match self {
            CatalogError::DuplicateName => "Erreur insertion projet: a project of that name exists"@,
            CatalogError::DuplicatePath => "Ce benchmark est d\u{e9}j\u{e0} ajout\u{e9} au projet"@,
            CatalogError::UnknownProject => "Projet non trouv\u{e9}"@,
            CatalogError::UnknownBenchmark => "Failed to get benchmark by ID"@,
            CatalogError::Full => "Catalog is full"@,
        }
    }

    /// The message of the error.
    pub fn message(&self) -> (s: String)
        ensures
            s@ == self.text(),
    {
        match self {
            CatalogError::DuplicateName => "Erreur insertion projet: a project of that name exists".to_owned(),
            CatalogError::DuplicatePath => "Ce benchmark est d\u{e9}j\u{e0} ajout\u{e9} au projet".to_owned(),
            CatalogError::UnknownProject => "Projet non trouv\u{e9}".to_owned(),
            CatalogError::UnknownBenchmark => "Failed to get benchmark by ID".to_owned(),
            CatalogError::Full => "Catalog is full".to_owned(),
        }
    }
}

/// A copy of a project.
pub fn copy_project(p: &Project) -> (out: Project)
    ensures
        out@ == p@,
{
    Project {
        id: p.id,
        name: p.name.clone(),
        python_version: p.python_version.clone(),
        created_at: p.created_at.clone(),
        updated_at: p.updated_at.clone(),
    }
}

/// A copy of a benchmark.
pub fn copy_benchmark(b: &Benchmark) -> (out: Benchmark)
    ensures
        out@ == b@,
{
    Benchmark {
        id: b.id,
        project_id: b.project_id,
        name: b.name.clone(),
        path: b.path.clone(),
        created_at: b.created_at.clone(),
    }
}

/// The projects and their benchmarks.
pub struct Catalog {
    projects: Vec<Project>,
    benchmarks: Vec<Benchmark>,
    next_project: i64,
    next_benchmark: i64,
}

/// The benchmarks that do not belong to the project, in their order.
pub open spec fn without_project(benchmarks: Seq<BenchmarkView>, project_id: i64) -> Seq<
    BenchmarkView,
>
    decreases benchmarks.len(),
{
    if benchmarks.len() == 0 {
        benchmarks
    } else {
        let rest = without_project(benchmarks.drop_last(), project_id);
        if benchmarks.last().project_id == project_id {
            rest
        } else {
            rest.push(benchmarks.last())
        }
    }
}

/// The benchmarks of the project, in their order.
pub open spec fn of_project(benchmarks: Seq<BenchmarkView>, project_id: i64) -> Seq<BenchmarkView>
    decreases benchmarks.len(),
{
    if benchmarks.len() == 0 {
        benchmarks
    } else {
        let rest = of_project(benchmarks.drop_last(), project_id);
        if benchmarks.last().project_id == project_id {
            rest.push(benchmarks.last())
        } else {
            rest
        }
    }
}

/// Each of the benchmarks that are left when a project goes is one of the
/// benchmarks before, of another project, and they are left in their order.
pub proof fn lemma_without_project(benchmarks: Seq<BenchmarkView>, project_id: i64)
    ensures
        without_project(benchmarks, project_id).len() <= benchmarks.len(),
        forall|k: int|
            0 <= k < without_project(benchmarks, project_id).len() ==> (#[trigger] without_project(
                benchmarks,
                project_id,
            )[k]).project_id != project_id && exists|j: int|
                k <= j < benchmarks.len() && benchmarks[j] == without_project(
                    benchmarks,
                    project_id,
                )[k],
        forall|a: int, b: int|
            0 <= a < b < without_project(benchmarks, project_id).len() ==> exists|i: int, j: int|
                0 <= i < j < benchmarks.len() && benchmarks[i] == (#[trigger] without_project(
                    benchmarks,
                    project_id,
                )[a]) && benchmarks[j] == (#[trigger] without_project(benchmarks, project_id)[b]),
    decreases benchmarks.len(),
{
    let new = without_project(benchmarks, project_id);
    if benchmarks.len() > 0 {
        let rest = benchmarks.drop_last();
        lemma_without_project(rest, project_id);
        let sub = without_project(rest, project_id);
        assert forall|k: int| 0 <= k < new.len() implies (#[trigger] new[k]).project_id
            != project_id && exists|j: int| k <= j < benchmarks.len() && benchmarks[j] == new[k] by {
            if k < sub.len() {
                let j = choose|j: int| k <= j < rest.len() && rest[j] == sub[k];
                assert(benchmarks[j] == new[k]);
            } else {
                assert(benchmarks[benchmarks.len() - 1] == new[k]);
            }
        }
        assert forall|a: int, b: int| 0 <= a < b < new.len() implies exists|i: int, j: int|
            0 <= i < j < benchmarks.len() && benchmarks[i] == (#[trigger] new[a]) && benchmarks[j]
                == (#[trigger] new[b]) by {
            if b < sub.len() {
                let (i, j) = choose|i: int, j: int|
                    0 <= i < j < rest.len() && rest[i] == sub[a] && rest[j] == sub[b];
                assert(benchmarks[i] == new[a] && benchmarks[j] == new[b]);
            } else {
                let i = choose|i: int| a <= i < rest.len() && rest[i] == sub[a];
                assert(benchmarks[i] == new[a]);
                assert(benchmarks[benchmarks.len() - 1] == new[b]);
            }
        }
    }
}

impl Catalog {
    /// The projects, in the order in which they were created.
    pub closed spec fn projects(&self) -> Seq<ProjectView> {
        project_views(self.projects@)
    }

    /// The benchmarks, in the order in which they were added.
    pub closed spec fn benchmarks(&self) -> Seq<BenchmarkView> {
        bench_views(self.benchmarks@)
    }

    /// The id that the next project gets.
    pub closed spec fn next_project_id(&self) -> int {
        self.next_project as int
    }

    /// The id that the next benchmark gets.
    pub closed spec fn next_benchmark_id(&self) -> int {
        self.next_benchmark as int
    }

    /// The projects and benchmarks are valid, and the next ids are greater
    /// than every id in use.
    pub open spec fn wf(&self) -> bool {
        &&& projects_wf(self.projects())
        &&& benchmarks_wf(self.projects(), self.benchmarks())
        &&& 1 <= self.next_project_id()
        &&& 1 <= self.next_benchmark_id()
        &&& forall|i: int|
            0 <= i < self.projects().len() ==> (#[trigger] self.projects()[i]).id
                < self.next_project_id()
        &&& forall|i: int|
            0 <= i < self.benchmarks().len() ==> (#[trigger] self.benchmarks()[i]).id
                < self.next_benchmark_id()
    }

    /// No projects and no benchmarks.
    pub fn new() -> (catalog: Catalog)
        ensures
            catalog.wf(),
            catalog.projects() == Seq::<ProjectView>::empty(),
            catalog.benchmarks() == Seq::<BenchmarkView>::empty(),
            catalog.next_project_id() == 1,
            catalog.next_benchmark_id() == 1,
    {
        let catalog = Catalog {
            projects: Vec::new(),
            benchmarks: Vec::new(),
            next_project: 1,
            next_benchmark: 1,
        };
        proof {
            assert(catalog.projects() =~= Seq::<ProjectView>::empty());
            assert(catalog.benchmarks() =~= Seq::<BenchmarkView>::empty());
        }
        catalog
    }

    /// The projects, in the order in which they were created.
    pub fn all_projects(&self) -> (projects: &Vec<Project>)
        ensures
            project_views(projects@) == self.projects(),
    {
        &self.projects
    }

    /// The benchmarks, in the order in which they were added.
    pub fn all_benchmarks(&self) -> (benchmarks: &Vec<Benchmark>)
        ensures
            bench_views(benchmarks@) == self.benchmarks(),
    {
        &self.benchmarks
    }

    fn find_project(&self, id: i64) -> (at: Option<usize>)
        requires
            self.wf(),
        ensures
            at is Some == has_project(self.projects(), id),
            at is Some ==> at->0 == project_index(self.projects(), id) && at->0
                < self.projects@.len() && self.projects@[at->0 as int].id == id,
    {
        let ghost all = self.projects();
        let mut i: usize = 0;
        while i < self.projects.len()
            invariant
                i <= self.projects.len(),
                all == project_views(self.projects@),
                projects_wf(all),
                forall|j: int| 0 <= j < i ==> (#[trigger] all[j]).id != id,
            decreases self.projects.len() - i,
        {
            if self.projects[i].id == id {
                proof {
                    assert(all[i as int].id == id);
                    let c = project_index(all, id);
                    assert(all[c].id == id);
                    if c < i {
                        assert(all[c].id < all[i as int].id);
                    }
                    if i < c {
                        assert(all[i as int].id < all[c].id);
                    }
                }
                return Some(i);
            }
            i += 1;
        }
        None
    }

    fn find_benchmark(&self, id: i64) -> (at: Option<usize>)
        requires
            self.wf(),
        ensures
            at is Some == has_benchmark(self.benchmarks(), id),
            at is Some ==> at->0 == benchmark_index(self.benchmarks(), id) && at->0
                < self.benchmarks@.len() && self.benchmarks@[at->0 as int].id == id,
    {
        let ghost all = self.benchmarks();
        let ghost ps = self.projects();
        let mut i: usize = 0;
        while i < self.benchmarks.len()
            invariant
                i <= self.benchmarks.len(),
                all == bench_views(self.benchmarks@),
                benchmarks_wf(ps, all),
                forall|j: int| 0 <= j < i ==> (#[trigger] all[j]).id != id,
            decreases self.benchmarks.len() - i,
        {
            if self.benchmarks[i].id == id {
                proof {
                    assert(all[i as int].id == id);
                    let c = benchmark_index(all, id);
                    assert(all[c].id == id);
                    if c < i {
                        assert(all[c].id < all[i as int].id);
                    }
                    if i < c {
                        assert(all[i as int].id < all[c].id);
                    }
                }
                return Some(i);
            }
            i += 1;
        }
        None
    }

    fn name_taken(&self, name: &str) -> (b: bool)
        ensures
            b == has_name(self.projects(), name@),
    {
        let ghost all = self.projects();
        let target = chars_of(name);
        let mut i: usize = 0;
        while i < self.projects.len()
            invariant
                i <= self.projects.len(),
                all == project_views(self.projects@),
                target@ == name@,
                forall|j: int| 0 <= j < i ==> (#[trigger] all[j]).name != name@,
            decreases self.projects.len() - i,
        {
            assert(all[i as int] == self.projects@[i as int]@);
            if vec_eq(&chars_of(self.projects[i].name.as_str()), &target) {
                return true;
            }
            i += 1;
        }
        false
    }
}

/// A project as it is when it has just been created.
pub open spec fn fresh_project(id: i64, name: Seq<char>, version: Seq<char>, now: Seq<char>) -> ProjectView {
    ProjectView { id, name, python_version: version, created_at: now, updated_at: now }
}

/// Why a project cannot be inserted, if it cannot.
pub open spec fn project_refusal(catalog: &Catalog, name: Seq<char>) -> Option<CatalogError> {
    if has_name(catalog.projects(), name) {
        Some(CatalogError::DuplicateName)
    } else if catalog.next_project_id() == i64::MAX {
        Some(CatalogError::Full)
    } else {
        None
    }
}

/// Creates a project at the time `now` and returns its id. Refused when a
/// project has the name already.
pub fn insert_project_at(catalog: &mut Catalog, name: &str, python_version: &str, now: &str) -> (r:
    Result<i64, CatalogError>)
    requires
        old(catalog).wf(),
    ensures
        final(catalog).wf(),
        final(catalog).benchmarks() == old(catalog).benchmarks(),
        final(catalog).next_benchmark_id() == old(catalog).next_benchmark_id(),
        match (r, project_refusal(old(catalog), name@)) {
            (Ok(id), None) => {
                &&& id == old(catalog).next_project_id()
                &&& final(catalog).next_project_id() == id + 1
                &&& final(catalog).projects() == old(catalog).projects().push(
                    fresh_project(id, name@, python_version@, now@),
                )
            },
            (Err(e), Some(f)) => {
                &&& e == f
                &&& final(catalog).projects() == old(catalog).projects()
                &&& final(catalog).next_project_id() == old(catalog).next_project_id()
            },
            _ => false,
        },
{
    if catalog.name_taken(name) {
        return Err(CatalogError::DuplicateName);
    }
    if catalog.next_project == i64::MAX {
        return Err(CatalogError::Full);
    }
    let ghost before = catalog.projects();
    let ghost bs = catalog.benchmarks();
    let id = catalog.next_project;
    let project = Project {
        id,
        name: name.to_owned(),
        python_version: python_version.to_owned(),
        created_at: now.to_owned(),
        updated_at: now.to_owned(),
    };
    let ghost view = project@;
    catalog.projects.push(project);
    catalog.next_project = id + 1;
    proof {
        let new = catalog.projects();
        assert(new =~= before.push(view));
        assert forall|i: int| 0 <= i < new.len() implies #[trigger] new[i] == (if i
            < before.len() {
            before[i]
        } else {
            view
        }) by {}
        assert(projects_wf(new)) by {
            assert forall|i: int, j: int| 0 <= i < j < new.len() implies (#[trigger] new[i]).name
                != (#[trigger] new[j]).name by {
                if j < before.len() {
                    assert(before[i].name != before[j].name);
                } else {
                    assert(before[i].name != name@);
                }
            }
        }
        assert(benchmarks_wf(new, bs)) by {
            assert forall|i: int| 0 <= i < bs.len() implies has_project(
                new,
                (#[trigger] bs[i]).project_id,
            ) by {
                assert(has_project(before, bs[i].project_id));
                let k = project_index(before, bs[i].project_id);
                assert(new[k].id == bs[i].project_id);
            }
        }
    }
    Ok(id)
}

/// Creates a project now and returns its id. Refused when a project has the
/// name already.
pub fn insert_project(catalog: &mut Catalog, name: &str, python_version: &str) -> (r: Result<
    i64,
    CatalogError,
>)
    requires
        old(catalog).wf(),
    ensures
        final(catalog).wf(),
        final(catalog).benchmarks() == old(catalog).benchmarks(),
        r is Ok == project_refusal(old(catalog), name@) is None,
        r is Err ==> Some(r->Err_0) == project_refusal(old(catalog), name@) && final(catalog).projects() == old(catalog).projects(),
        r is Ok ==> final(catalog).projects().len() == old(catalog).projects().len() + 1
            && final(catalog).projects() == old(catalog).projects().push(
            fresh_project(
                r->Ok_0,
                name@,
                python_version@,
                final(catalog).projects().last().created_at,
            ),
        ) && r->Ok_0 == old(catalog).next_project_id(),
{
    let now = now_rfc3339();
    insert_project_at(catalog, name, python_version, now.as_str())
}

/// The project with the id.
pub fn get_project(catalog: &Catalog, id: i64) -> (project: Option<Project>)
    requires
        catalog.wf(),
    ensures
        project is Some == has_project(catalog.projects(), id),
        project is Some ==> project->0@ == catalog.projects()[project_index(
            catalog.projects(),
            id,
        )],
{
    match catalog.find_project(id) {
        Some(at) => {
            assert(catalog.projects()[at as int] == catalog.projects@[at as int]@);
            Some(copy_project(&catalog.projects[at]))
        },
        None => None,
    }
}

/// Records at the time `now` that a project uses another version of Python.
/// Without a project of that id nothing happens.
pub fn update_project_python_version_at(catalog: &mut Catalog, id: i64, version: &str, now: &str)
    requires
        old(catalog).wf(),
    ensures
        final(catalog).wf(),
        final(catalog).benchmarks() == old(catalog).benchmarks(),
        final(catalog).next_project_id() == old(catalog).next_project_id(),
        final(catalog).next_benchmark_id() == old(catalog).next_benchmark_id(),
        final(catalog).projects() == with_version(old(catalog).projects(), id, version@, now@),
{
    match catalog.find_project(id) {
        None => {},
        Some(at) => {
            let ghost before = catalog.projects();
            let ghost bs = catalog.benchmarks();
            assert(before[at as int] == catalog.projects@[at as int]@);
            let ghost next = ProjectView {
                python_version: version@,
                updated_at: now@,
                ..before[at as int]
            };
            catalog.projects[at].python_version = version.to_owned();
            catalog.projects[at].updated_at = now.to_owned();
            proof {
                let new = catalog.projects();
                assert(new =~= before.update(at as int, next));
                assert(projects_wf(new)) by {
                    assert forall|i: int, j: int| 0 <= i < j < new.len() implies (
                    #[trigger] new[i]).name != (#[trigger] new[j]).name by {
                        assert(before[i].name != before[j].name);
                    }
                    assert forall|i: int, j: int| 0 <= i < j < new.len() implies (
                    #[trigger] new[i]).id < (#[trigger] new[j]).id by {
                        assert(before[i].id < before[j].id);
                    }
                    assert forall|i: int| 0 <= i < new.len() implies (#[trigger] new[i]).id
                        >= 1 by {
                        assert(before[i].id >= 1);
                    }
                }
                assert(benchmarks_wf(new, bs)) by {
                    assert forall|i: int| 0 <= i < bs.len() implies has_project(
                        new,
                        (#[trigger] bs[i]).project_id,
                    ) by {
                        assert(has_project(before, bs[i].project_id));
                        let k = project_index(before, bs[i].project_id);
                        assert(new[k].id == bs[i].project_id);
                    }
                }
                assert forall|i: int| 0 <= i < new.len() implies (#[trigger] new[i]).id
                    < catalog.next_project_id() by {
                    assert(new[i].id == before[i].id);
                }
            }
        },
    }
}

/// The projects once the project with the id, if there is one, uses the
/// version since the time `now`.
pub open spec fn with_version(projects: Seq<ProjectView>, id: i64, version: Seq<char>, now: Seq<char>) -> Seq<
    ProjectView,
> {
    if has_project(projects, id) {
        projects.update(
            project_index(projects, id),
            ProjectView {
                python_version: version,
                updated_at: now,
                ..projects[project_index(projects, id)]
            },
        )
    } else {
        projects
    }
}

/// Records now that a project uses another version of Python. Without a
/// project of that id nothing happens.
pub fn update_project_python_version(catalog: &mut Catalog, id: i64, version: &str)
    requires
        old(catalog).wf(),
    ensures
        final(catalog).wf(),
        final(catalog).benchmarks() == old(catalog).benchmarks(),
        final(catalog).next_project_id() == old(catalog).next_project_id(),
        final(catalog).next_benchmark_id() == old(catalog).next_benchmark_id(),
        exists|now: Seq<char>|
            final(catalog).projects() == #[trigger] with_version(
                old(catalog).projects(),
                id,
                version@,
                now,
            ),
{
    let now = now_rfc3339();
    update_project_python_version_at(catalog, id, version, now.as_str());
    proof {
        assert(catalog.projects() == with_version(old(catalog).projects(), id, version@, now@));
    }
}

/// Deletes a project together with its benchmarks. Without a project of
/// that id nothing happens.
pub fn delete_project(catalog: &mut Catalog, id: i64)
    requires
        old(catalog).wf(),
    ensures
        final(catalog).wf(),
        final(catalog).next_project_id() == old(catalog).next_project_id(),
        final(catalog).next_benchmark_id() == old(catalog).next_benchmark_id(),
        has_project(old(catalog).projects(), id) ==> final(catalog).projects() == old(catalog).projects().remove(project_index(old(catalog).projects(), id)) && final(catalog).benchmarks() == without_project(old(catalog).benchmarks(), id),
        !has_project(old(catalog).projects(), id) ==> final(catalog).projects() == old(catalog).projects() && final(catalog).benchmarks() == old(catalog).benchmarks(),
{
    let at = match catalog.find_project(id) {
        None => {
            return ;
        },
        Some(at) => at,
    };
    let ghost ps = catalog.projects();
    let ghost bs = catalog.benchmarks();
    let _ = catalog.projects.remove(at);
    let mut kept: Vec<Benchmark> = Vec::new();
    let mut i: usize = 0;
    while i < catalog.benchmarks.len()
        invariant
            i <= catalog.benchmarks.len(),
            bs == bench_views(catalog.benchmarks@),
            bench_views(kept@) == without_project(bs.take(i as int), id),
        decreases catalog.benchmarks.len() - i,
    {
        proof {
            assert(bs.take(i + 1).drop_last() =~= bs.take(i as int));
            assert(bs.take(i + 1).last() == catalog.benchmarks[i as int]@);
        }
        if catalog.benchmarks[i].project_id != id {
            let ghost k0 = bench_views(kept@);
            kept.push(copy_benchmark(&catalog.benchmarks[i]));
            proof {
                assert(bench_views(kept@) =~= k0.push(catalog.benchmarks[i as int]@));
            }
        }
        i += 1;
    }
    proof {
        assert(bs.take(i as int) =~= bs);
    }
    catalog.benchmarks = kept;
    proof {
        let new = catalog.projects();
        let nb = catalog.benchmarks();
        assert(new =~= ps.remove(at as int));
        assert forall|i: int| 0 <= i < new.len() implies #[trigger] new[i] == ps[if i < at {
            i
        } else {
            i + 1
        }] by {}
        assert(projects_wf(new)) by {
            assert forall|i: int, j: int| 0 <= i < j < new.len() implies (#[trigger] new[i]).id
                < (#[trigger] new[j]).id && new[i].name != new[j].name by {
                let oi = if i < at { i } else { i + 1 };
                let oj = if j < at { j } else { j + 1 };
                assert(ps[oi].id < ps[oj].id && ps[oi].name != ps[oj].name);
            }
            assert forall|i: int| 0 <= i < new.len() implies (#[trigger] new[i]).id >= 1 by {
                let oi = if i < at { i } else { i + 1 };
                assert(ps[oi].id >= 1);
            }
        }
        lemma_without_project(bs, id);
        assert(benchmarks_wf(new, nb)) by {
            assert forall|k: int| 0 <= k < nb.len() implies (#[trigger] nb[k]).id >= 1
                && has_project(new, nb[k].project_id) by {
                let j = choose|j: int| k <= j < bs.len() && bs[j] == nb[k];
                assert(bs[j].id >= 1);
                assert(has_project(ps, bs[j].project_id));
                let c = project_index(ps, bs[j].project_id);
                assert(ps[c].id != id);
                assert(c != at);
                let n = if c < at { c } else { c - 1 };
                assert(new[n].id == nb[k].project_id);
            }
            assert forall|a: int, b: int| 0 <= a < b < nb.len() implies (#[trigger] nb[a]).id < (
            #[trigger] nb[b]).id && (nb[a].project_id == nb[b].project_id ==> nb[a].path
                != nb[b].path) by {
                let (i, j) = choose|i: int, j: int|
                    0 <= i < j < bs.len() && bs[i] == nb[a] && bs[j] == nb[b];
                assert(bs[i].id < bs[j].id);
            }
        }
        assert forall|i: int| 0 <= i < new.len() implies (#[trigger] new[i]).id
            < catalog.next_project_id() by {
            let oi = if i < at { i } else { i + 1 };
            assert(ps[oi].id < catalog.next_project_id());
        }
        assert forall|k: int| 0 <= k < nb.len() implies (#[trigger] nb[k]).id
            < catalog.next_benchmark_id() by {
            let j = choose|j: int| k <= j < bs.len() && bs[j] == nb[k];
            assert(bs[j].id < catalog.next_benchmark_id());
        }
    }
}

/// A benchmark as it is when it has just been added.
pub open spec fn fresh_benchmark(
    id: i64,
    project_id: i64,
    name: Seq<char>,
    path: Seq<char>,
    now: Seq<char>,
) -> BenchmarkView {
    BenchmarkView { id, project_id, name, path, created_at: now }
}

/// Why a benchmark cannot be added, if it cannot.
pub open spec fn benchmark_refusal(catalog: &Catalog, project_id: i64, path: Seq<char>) -> Option<
    CatalogError,
> {
    if !has_project(catalog.projects(), project_id) {
        Some(CatalogError::UnknownProject)
    } else if has_path(catalog.benchmarks(), project_id, path) {
        Some(CatalogError::DuplicatePath)
    } else if catalog.next_benchmark_id() == i64::MAX {
        Some(CatalogError::Full)
    } else {
        None
    }
}

/// Whether the project holds the file already.
pub fn benchmark_exists(catalog: &Catalog, project_id: i64, path: &str) -> (b: bool)
    ensures
        b == has_path(catalog.benchmarks(), project_id, path@),
{
    let ghost all = catalog.benchmarks();
    let target = chars_of(path);
    let mut i: usize = 0;
    while i < catalog.benchmarks.len()
        invariant
            i <= catalog.benchmarks.len(),
            all == bench_views(catalog.benchmarks@),
            target@ == path@,
            forall|j: int|
                0 <= j < i ==> !((#[trigger] all[j]).project_id == project_id && all[j].path
                    == path@),
        decreases catalog.benchmarks.len() - i,
    {
        assert(all[i as int] == catalog.benchmarks@[i as int]@);
        if catalog.benchmarks[i].project_id == project_id && vec_eq(
            &chars_of(catalog.benchmarks[i].path.as_str()),
            &target,
        ) {
            return true;
        }
        i += 1;
    }
    false
}

/// Adds a file to a project as a benchmark at the time `now` and returns the
/// id of the benchmark. Refused when there is no such project or when the
/// project holds the file already.
pub fn insert_benchmark_at(catalog: &mut Catalog, project_id: i64, name: &str, path: &str, now: &str) -> (r:
    Result<i64, CatalogError>)
    requires
        old(catalog).wf(),
    ensures
        final(catalog).wf(),
        final(catalog).projects() == old(catalog).projects(),
        final(catalog).next_project_id() == old(catalog).next_project_id(),
        match (r, benchmark_refusal(old(catalog), project_id, path@)) {
            (Ok(id), None) => {
                &&& id == old(catalog).next_benchmark_id()
                &&& final(catalog).next_benchmark_id() == id + 1
                &&& final(catalog).benchmarks() == old(catalog).benchmarks().push(
                    fresh_benchmark(id, project_id, name@, path@, now@),
                )
            },
            (Err(e), Some(f)) => {
                &&& e == f
                &&& final(catalog).benchmarks() == old(catalog).benchmarks()
                &&& final(catalog).next_benchmark_id() == old(catalog).next_benchmark_id()
            },
            _ => false,
        },
{
    if catalog.find_project(project_id).is_none() {
        return Err(CatalogError::UnknownProject);
    }
    if benchmark_exists(catalog, project_id, path) {
        return Err(CatalogError::DuplicatePath);
    }
    if catalog.next_benchmark == i64::MAX {
        return Err(CatalogError::Full);
    }
    let ghost before = catalog.benchmarks();
    let id = catalog.next_benchmark;
    let benchmark = Benchmark {
        id,
        project_id,
        name: name.to_owned(),
        path: path.to_owned(),
        created_at: now.to_owned(),
    };
    let ghost view = benchmark@;
    catalog.benchmarks.push(benchmark);
    catalog.next_benchmark = id + 1;
    proof {
        let new = catalog.benchmarks();
        assert(new =~= before.push(view));
        assert forall|i: int| 0 <= i < new.len() implies #[trigger] new[i] == (if i
            < before.len() {
            before[i]
        } else {
            view
        }) by {}
        assert(benchmarks_wf(catalog.projects(), new)) by {
            assert forall|i: int, j: int|
                0 <= i < j < new.len() && (#[trigger] new[i]).project_id
                    == (#[trigger] new[j]).project_id implies new[i].path != new[j].path by {
                if j < before.len() {
                    assert(before[i].project_id == before[j].project_id);
                } else {
                    assert(!(before[i].project_id == project_id && before[i].path == path@));
                }
            }
            assert forall|i: int| 0 <= i < new.len() implies has_project(
                catalog.projects(),
                (#[trigger] new[i]).project_id,
            ) by {
                if i < before.len() {
                    assert(has_project(catalog.projects(), before[i].project_id));
                }
            }
        }
    }
    Ok(id)
}

/// Adds a file to a project as a benchmark now.
pub fn insert_benchmark(catalog: &mut Catalog, project_id: i64, name: &str, path: &str) -> (r:
    Result<i64, CatalogError>)
    requires
        old(catalog).wf(),
    ensures
        final(catalog).wf(),
        final(catalog).projects() == old(catalog).projects(),
        r is Ok == benchmark_refusal(old(catalog), project_id, path@) is None,
        r is Err ==> Some(r->Err_0) == benchmark_refusal(old(catalog), project_id, path@)
            && final(catalog).benchmarks() == old(catalog).benchmarks(),
        r is Ok ==> final(catalog).benchmarks().len() == old(catalog).benchmarks().len() + 1
            && final(catalog).benchmarks() == old(catalog).benchmarks().push(
            fresh_benchmark(
                r->Ok_0,
                project_id,
                name@,
                path@,
                final(catalog).benchmarks().last().created_at,
            ),
        ) && r->Ok_0 == old(catalog).next_benchmark_id(),
{
    let now = now_rfc3339();
    insert_benchmark_at(catalog, project_id, name, path, now.as_str())
}

/// The benchmark with the id.
pub fn get_benchmark_by_id(catalog: &Catalog, id: i64) -> (r: Result<Benchmark, CatalogError>)
    requires
        catalog.wf(),
    ensures
        r is Ok == has_benchmark(catalog.benchmarks(), id),
        r is Ok ==> r->Ok_0@ == catalog.benchmarks()[benchmark_index(catalog.benchmarks(), id)],
        r is Err ==> r->Err_0 == CatalogError::UnknownBenchmark,
{
    match catalog.find_benchmark(id) {
        Some(at) => {
            assert(catalog.benchmarks()[at as int] == catalog.benchmarks@[at as int]@);
            Ok(copy_benchmark(&catalog.benchmarks[at]))
        },
        None => Err(CatalogError::UnknownBenchmark),
    }
}

/// Deletes a benchmark. Without a benchmark of that id nothing happens.
pub fn delete_benchmark(catalog: &mut Catalog, id: i64)
    requires
        old(catalog).wf(),
    ensures
        final(catalog).wf(),
        final(catalog).projects() == old(catalog).projects(),
        final(catalog).next_project_id() == old(catalog).next_project_id(),
        final(catalog).next_benchmark_id() == old(catalog).next_benchmark_id(),
        final(catalog).benchmarks() == (if has_benchmark(old(catalog).benchmarks(), id) {
            old(catalog).benchmarks().remove(benchmark_index(old(catalog).benchmarks(), id))
        } else {
            old(catalog).benchmarks()
        }),
{
    match catalog.find_benchmark(id) {
        None => {},
        Some(at) => {
            let ghost bs = catalog.benchmarks();
            let _ = catalog.benchmarks.remove(at);
            proof {
                let nb = catalog.benchmarks();
                assert(nb =~= bs.remove(at as int));
                assert forall|i: int| 0 <= i < nb.len() implies #[trigger] nb[i] == bs[if i
                    < at {
                    i
                } else {
                    i + 1
                }] by {}
                assert(benchmarks_wf(catalog.projects(), nb)) by {
                    assert forall|i: int| 0 <= i < nb.len() implies (#[trigger] nb[i]).id >= 1
                        && has_project(catalog.projects(), nb[i].project_id) by {
                        let oi = if i < at { i } else { i + 1 };
                        assert(bs[oi].id >= 1);
                        assert(has_project(catalog.projects(), bs[oi].project_id));
                    }
                    assert forall|i: int, j: int| 0 <= i < j < nb.len() implies (
                    #[trigger] nb[i]).id < (#[trigger] nb[j]).id && (nb[i].project_id
                        == nb[j].project_id ==> nb[i].path != nb[j].path) by {
                        let oi = if i < at { i } else { i + 1 };
                        let oj = if j < at { j } else { j + 1 };
                        assert(bs[oi].id < bs[oj].id);
                    }
                }
                assert forall|i: int| 0 <= i < nb.len() implies (#[trigger] nb[i]).id
                    < catalog.next_benchmark_id() by {
                    let oi = if i < at { i } else { i + 1 };
                    assert(bs[oi].id < catalog.next_benchmark_id());
                }
            }
        },
    }
}

// ---------------------------------------------------------------------------
// Listing by name
// ---------------------------------------------------------------------------

/// The projects stand in the order of their names.
pub open spec fn projects_by_name(projects: Seq<ProjectView>) -> bool {
    forall|i: int, j: int| 0 <= i < j < projects.len() ==> text_le(projects[i].name, projects[j].name)
}

/// The benchmarks stand in the order of their names.
pub open spec fn benchmarks_by_name(benchmarks: Seq<BenchmarkView>) -> bool {
    forall|i: int, j: int|
        0 <= i < j < benchmarks.len() ==> text_le(benchmarks[i].name, benchmarks[j].name)
}

/// All projects, in the order of their names.
pub fn list_projects(catalog: &Catalog) -> (out: Vec<Project>)
    ensures
        projects_by_name(project_views(out@)),
        project_views(out@).to_multiset() == catalog.projects().to_multiset(),
        out.len() == catalog.projects().len(),
{
    broadcast use vstd::seq_lib::group_to_multiset_ensures;

    let ghost all = catalog.projects();
    let mut out: Vec<Project> = Vec::new();
    let mut i: usize = 0;
    proof {
        assert(all.take(0) =~= project_views(out@));
    }
    while i < catalog.projects.len()
        invariant
            i <= catalog.projects.len(),
            all == project_views(catalog.projects@),
            out.len() == i,
            projects_by_name(project_views(out@)),
            project_views(out@).to_multiset() == all.take(i as int).to_multiset(),
        decreases catalog.projects.len() - i,
    {
        let item = copy_project(&catalog.projects[i]);
        let key = chars_of(item.name.as_str());
        let ghost cur = project_views(out@);
        let mut k: usize = 0;
        while k < out.len() && text_before(&chars_of(out[k].name.as_str()), &key)
            invariant
                k <= out.len(),
                cur == project_views(out@),
                key@ == item@.name,
                forall|t: int| 0 <= t < k ==> text_le(cur[t].name, item@.name),
            decreases out.len() - k,
        {
            assert(cur[k as int] == out[k as int]@);
            k += 1;
        }
        proof {
            if k < out.len() {
                assert(cur[k as int] == out[k as int]@);
                lemma_text_le_total(cur[k as int].name, item@.name, 0);
                assert forall|t: int| k <= t < cur.len() implies text_le(
                    item@.name,
                    cur[t].name,
                ) by {
                    if t > k {
                        assert(text_le(cur[k as int].name, cur[t].name));
                        lemma_text_le_trans(item@.name, cur[k as int].name, cur[t].name, 0);
                    }
                }
            }
        }
        out.insert(k, item);
        proof {
            let new = project_views(out@);
            let v = all[i as int];
            assert(new =~= cur.insert(k as int, v));
            assert forall|a: int, b: int| 0 <= a < b < new.len() implies text_le(
                new[a].name,
                new[b].name,
            ) by {
                if a < k && b > k {
                    assert(new[a] == cur[a]);
                    assert(new[b] == cur[b - 1]);
                } else if a < k && b < k {
                    assert(new[a] == cur[a] && new[b] == cur[b]);
                } else if a > k {
                    assert(new[a] == cur[a - 1] && new[b] == cur[b - 1]);
                }
            }
            assert(all.take(i + 1) =~= all.take(i as int).push(v));
            vstd::seq_lib::to_multiset_insert(cur, k as int, v);
            vstd::seq_lib::to_multiset_build(all.take(i as int), v);
        }
        i += 1;
    }
    proof {
        assert(all.take(i as int) =~= all);
    }
    out
}

/// The benchmarks of a project, in the order of their names.
pub fn get_benchmarks_for_project(catalog: &Catalog, project_id: i64) -> (out: Vec<Benchmark>)
    ensures
        benchmarks_by_name(bench_views(out@)),
        bench_views(out@).to_multiset() == of_project(catalog.benchmarks(), project_id).to_multiset(),
        out.len() == of_project(catalog.benchmarks(), project_id).len(),
{
    broadcast use vstd::seq_lib::group_to_multiset_ensures;

    let ghost all = catalog.benchmarks();
    let mut out: Vec<Benchmark> = Vec::new();
    let mut i: usize = 0;
    proof {
        assert(all.take(0) =~= bench_views(out@));
    }
    while i < catalog.benchmarks.len()
        invariant
            i <= catalog.benchmarks.len(),
            all == bench_views(catalog.benchmarks@),
            benchmarks_by_name(bench_views(out@)),
            bench_views(out@).to_multiset() == of_project(all.take(i as int), project_id).to_multiset(),
            out.len() == of_project(all.take(i as int), project_id).len(),
        decreases catalog.benchmarks.len() - i,
    {
        proof {
            assert(all.take(i + 1).drop_last() =~= all.take(i as int));
            assert(all.take(i + 1).last() == catalog.benchmarks[i as int]@);
        }
        if catalog.benchmarks[i].project_id == project_id {
            let item = copy_benchmark(&catalog.benchmarks[i]);
            let key = chars_of(item.name.as_str());
            let ghost cur = bench_views(out@);
            let mut k: usize = 0;
            while k < out.len() && text_before(&chars_of(out[k].name.as_str()), &key)
                invariant
                    k <= out.len(),
                    cur == bench_views(out@),
                    key@ == item@.name,
                    forall|t: int| 0 <= t < k ==> text_le(cur[t].name, item@.name),
                decreases out.len() - k,
            {
                assert(cur[k as int] == out[k as int]@);
                k += 1;
            }
            proof {
                if k < out.len() {
                    assert(cur[k as int] == out[k as int]@);
                    lemma_text_le_total(cur[k as int].name, item@.name, 0);
                    assert forall|t: int| k <= t < cur.len() implies text_le(
                        item@.name,
                        cur[t].name,
                    ) by {
                        if t > k {
                            assert(text_le(cur[k as int].name, cur[t].name));
                            lemma_text_le_trans(item@.name, cur[k as int].name, cur[t].name, 0);
                        }
                    }
                }
            }
            out.insert(k, item);
            proof {
                let new = bench_views(out@);
                let v = all[i as int];
                assert(new =~= cur.insert(k as int, v));
                assert forall|a: int, b: int| 0 <= a < b < new.len() implies text_le(
                    new[a].name,
                    new[b].name,
                ) by {
                    if a < k && b > k {
                        assert(new[a] == cur[a]);
                        assert(new[b] == cur[b - 1]);
                    } else if a < k && b < k {
                        assert(new[a] == cur[a] && new[b] == cur[b]);
                    } else if a > k {
                        assert(new[a] == cur[a - 1] && new[b] == cur[b - 1]);
                    }
                }
                vstd::seq_lib::to_multiset_insert(cur, k as int, v);
                vstd::seq_lib::to_multiset_build(of_project(all.take(i as int), project_id), v);
            }
        }
        i += 1;
    }
    proof {
        assert(all.take(i as int) =~= all);
    }
    out
}

// ---------------------------------------------------------------------------
// Taking over projects and benchmarks
// ---------------------------------------------------------------------------

fn projects_valid(projects: &Vec<Project>) -> (ok: bool)
    ensures
        ok == projects_wf(project_views(projects@)),
{
    let ghost all = project_views(projects@);
    let mut i: usize = 0;
    while i < projects.len()
        invariant
            i <= projects.len(),
            all == project_views(projects@),
            forall|j: int| 0 <= j < i ==> (#[trigger] all[j]).id >= 1,
            forall|a: int, b: int| 0 <= a < b < i ==> (#[trigger] all[a]).id < (#[trigger] all[b]).id,
            forall|a: int, b: int|
                0 <= a < b < i ==> (#[trigger] all[a]).name != (#[trigger] all[b]).name,
        decreases projects.len() - i,
    {
        assert(all[i as int] == projects@[i as int]@);
        if projects[i].id < 1 {
            return false;
        }
        if i > 0 {
            assert(all[i - 1] == projects@[i - 1]@);
            if projects[i - 1].id >= projects[i].id {
                return false;
            }
            assert forall|a: int| 0 <= a < i implies (#[trigger] all[a]).id < all[i as int].id by {
                if a < i - 1 {
                    assert(all[a].id < all[i - 1].id);
                }
            }
        }
        let name = chars_of(projects[i].name.as_str());
        let mut k: usize = 0;
        while k < i
            invariant
                k <= i < projects.len(),
                all == project_views(projects@),
                name@ == all[i as int].name,
                forall|a: int| 0 <= a < k ==> (#[trigger] all[a]).name != all[i as int].name,
            decreases i - k,
        {
            assert(all[k as int] == projects@[k as int]@);
            if vec_eq(&chars_of(projects[k].name.as_str()), &name) {
                return false;
            }
            k += 1;
        }
        i += 1;
    }
    true
}

fn project_known(projects: &Vec<Project>, id: i64) -> (b: bool)
    ensures
        b == has_project(project_views(projects@), id),
{
    let ghost all = project_views(projects@);
    let mut i: usize = 0;
    while i < projects.len()
        invariant
            i <= projects.len(),
            all == project_views(projects@),
            forall|j: int| 0 <= j < i ==> (#[trigger] all[j]).id != id,
        decreases projects.len() - i,
    {
        assert(all[i as int] == projects@[i as int]@);
        if projects[i].id == id {
            return true;
        }
        i += 1;
    }
    false
}

fn benchmarks_valid(projects: &Vec<Project>, benchmarks: &Vec<Benchmark>) -> (ok: bool)
    ensures
        ok == benchmarks_wf(project_views(projects@), bench_views(benchmarks@)),
{
    let ghost ps = project_views(projects@);
    let ghost all = bench_views(benchmarks@);
    let mut i: usize = 0;
    while i < benchmarks.len()
        invariant
            i <= benchmarks.len(),
            ps == project_views(projects@),
            all == bench_views(benchmarks@),
            forall|j: int| 0 <= j < i ==> (#[trigger] all[j]).id >= 1,
            forall|a: int, b: int| 0 <= a < b < i ==> (#[trigger] all[a]).id < (#[trigger] all[b]).id,
            forall|j: int| 0 <= j < i ==> has_project(ps, (#[trigger] all[j]).project_id),
            forall|a: int, b: int|
                0 <= a < b < i && (#[trigger] all[a]).project_id == (#[trigger] all[b]).project_id
                    ==> all[a].path != all[b].path,
        decreases benchmarks.len() - i,
    {
        assert(all[i as int] == benchmarks@[i as int]@);
        if benchmarks[i].id < 1 {
            return false;
        }
        if i > 0 {
            assert(all[i - 1] == benchmarks@[i - 1]@);
            if benchmarks[i - 1].id >= benchmarks[i].id {
                return false;
            }
            assert forall|a: int| 0 <= a < i implies (#[trigger] all[a]).id < all[i as int].id by {
                if a < i - 1 {
                    assert(all[a].id < all[i - 1].id);
                }
            }
        }
        if !project_known(projects, benchmarks[i].project_id) {
            return false;
        }
        let path = chars_of(benchmarks[i].path.as_str());
        let mut k: usize = 0;
        while k < i
            invariant
                k <= i < benchmarks.len(),
                all == bench_views(benchmarks@),
                path@ == all[i as int].path,
                forall|a: int|
                    0 <= a < k && (#[trigger] all[a]).project_id == all[i as int].project_id
                        ==> all[a].path != all[i as int].path,
            decreases i - k,
        {
            assert(all[k as int] == benchmarks@[k as int]@);
            if benchmarks[k].project_id == benchmarks[i].project_id && vec_eq(
                &chars_of(benchmarks[k].path.as_str()),
                &path,
            ) {
                return false;
            }
            k += 1;
        }
        i += 1;
    }
    true
}

impl Catalog {
    /// Takes over projects and benchmarks read from elsewhere, each in the
    /// order of their ids. Refused unless they are valid and their ids leave
    /// room for next ones.
    pub fn from_parts(projects: Vec<Project>, benchmarks: Vec<Benchmark>) -> (catalog: Option<
        Catalog,
    >)
        ensures
            catalog is Some == (projects_wf(project_views(projects@)) && benchmarks_wf(
                project_views(projects@),
                bench_views(benchmarks@),
            ) && (projects.len() > 0 ==> projects@.last().id < i64::MAX) && (benchmarks.len() > 0
                ==> benchmarks@.last().id < i64::MAX)),
            catalog is Some ==> {
                &&& catalog->0.wf()
                &&& catalog->0.projects() == project_views(projects@)
                &&& catalog->0.benchmarks() == bench_views(benchmarks@)
            },
    {
        let ghost ps = project_views(projects@);
        let ghost bs = bench_views(benchmarks@);
        if !projects_valid(&projects) || !benchmarks_valid(&projects, &benchmarks) {
            return None;
        }
        let next_project: i64 = if projects.len() == 0 {
            1
        } else {
            assert(ps[projects.len() - 1] == projects@.last()@);
            let last = projects[projects.len() - 1].id;
            if last == i64::MAX {
                return None;
            }
            last + 1
        };
        let next_benchmark: i64 = if benchmarks.len() == 0 {
            1
        } else {
            assert(bs[benchmarks.len() - 1] == benchmarks@.last()@);
            let last = benchmarks[benchmarks.len() - 1].id;
            if last == i64::MAX {
                return None;
            }
            last + 1
        };
        let catalog = Catalog { projects, benchmarks, next_project, next_benchmark };
        proof {
            assert forall|i: int| 0 <= i < ps.len() implies (#[trigger] ps[i]).id
                < catalog.next_project_id() by {
                if i < ps.len() - 1 {
                    assert(ps[i].id < ps[ps.len() - 1].id);
                }
            }
            assert forall|i: int| 0 <= i < bs.len() implies (#[trigger] bs[i]).id
                < catalog.next_benchmark_id() by {
                if i < bs.len() - 1 {
                    assert(bs[i].id < bs[bs.len() - 1].id);
                }
            }
        }
        Some(catalog)
    }
}

} // verus!
