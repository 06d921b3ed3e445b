use vstd::prelude::*;

use crate::counters::add_fits;
use crate::counters::cov_totals;
use crate::counters::spec_add;
use crate::counters::spec_zero;
use crate::counters::t6_add;
use crate::counters::t6_fits;
use crate::counters::t6_le;
use crate::counters::t6_nonneg;
use crate::counters::t6_zero;
use crate::counters::AggregatedCoverage;
use crate::tested_file::FileView;
use crate::tested_file::TestedCodeFile;
use crate::text::str_eq;

verus! {

/// An intermediate directory-like node: child files, child modules in
/// first-seen order, and the aggregate of all descendants.
#[derive(Debug, PartialEq)]
pub struct TestedModule {
    pub name: String,
    pub path: String,
    pub source_files: Vec<TestedCodeFile>,
    pub modules: Vec<TestedModule>,
    pub aggregated: AggregatedCoverage,
}

/// The mathematical shape of a module node.
#[verifier::ext_equal]
pub struct ModuleView {
    pub name: Seq<char>,
    pub path: Seq<char>,
    pub source_files: Seq<FileView>,
    pub modules: Seq<ModuleView>,
    pub aggregated: AggregatedCoverage,
}

/// The view of a module node, children included.
pub open spec fn module_view(m: TestedModule) -> ModuleView
    decreases m,
{
    ModuleView {
        name: m.name@,
        path: m.path@,
        source_files: m.source_files.deep_view(),
        modules: modules_view(m.modules@),
        aggregated: m.aggregated,
    }
}

/// The views of a sequence of module nodes.
pub open spec fn modules_view(s: Seq<TestedModule>) -> Seq<ModuleView>
    decreases s,
{
    if s.len() == 0 {
        Seq::empty()
    } else {
        modules_view(s.drop_last()).push(module_view(s.last()))
    }
}

/// The view of a sequence of module nodes is its nodes' views, index by
/// index.
pub proof fn lemma_modules_view(s: Seq<TestedModule>)
    ensures
        modules_view(s).len() == s.len(),
        forall|i: int| 0 <= i < s.len() ==> modules_view(s)[i] == module_view(s[i]),
    decreases s.len(),
{
    if s.len() > 0 {
        lemma_modules_view(s.drop_last());
        assert(forall|i: int|
            0 <= i < s.len() - 1 ==> s.drop_last()[i] == s[i]);
    }
}

impl View for TestedModule {
    type V = ModuleView;

    open spec fn view(&self) -> ModuleView {
        module_view(*self)
    }
}

impl DeepView for TestedModule {
    type V = ModuleView;

    open spec fn deep_view(&self) -> ModuleView {
        module_view(*self)
    }
}

/// The summed totals of a sequence of leaves' own aggregates.
pub open spec fn files_totals(s: Seq<FileView>) -> (int, int, int, int, int, int)
    decreases s.len(),
{
    if s.len() == 0 {
        t6_zero()
    } else {
        t6_add(files_totals(s.drop_last()), cov_totals(s.last().aggregated))
    }
}

/// The summed totals of a sequence of modules' stored aggregates.
pub open spec fn modules_totals(s: Seq<ModuleView>) -> (int, int, int, int, int, int)
    decreases s.len(),
{
    if s.len() == 0 {
        t6_zero()
    } else {
        t6_add(modules_totals(s.drop_last()), cov_totals(s.last().aggregated))
    }
}

/// Well-formedness of a module node: its aggregate equals its direct leaves'
/// sum plus its direct children's sums, recursively at every node.
pub open spec fn module_wf(m: ModuleView) -> bool
    decreases m,
{
    &&& cov_totals(m.aggregated) == t6_add(
        files_totals(m.source_files),
        modules_totals(m.modules),
    )
    &&& forall|i: int| 0 <= i < m.modules.len() ==> module_wf(#[trigger] m.modules[i])
}

/// The index of the first module with the given name, or the length when no
/// module has it.
pub open spec fn find_named(ms: Seq<ModuleView>, name: Seq<char>) -> int
    decreases ms.len(),
{
    if ms.len() == 0 {
        0
    } else if ms[0].name == name {
        0
    } else {
        1 + find_named(ms.drop_first(), name)
    }
}

pub proof fn lemma_find_named(ms: Seq<ModuleView>, name: Seq<char>)
    ensures
        0 <= find_named(ms, name) <= ms.len(),
        find_named(ms, name) < ms.len() ==> ms[find_named(ms, name)].name == name,
        forall|j: int| 0 <= j < find_named(ms, name) ==> ms[j].name != name,
    decreases ms.len(),
{
    if ms.len() > 0 && ms[0].name != name {
        lemma_find_named(ms.drop_first(), name);
        let k = find_named(ms.drop_first(), name);
        assert(forall|j: int| 1 <= j < 1 + k ==> ms[j] == ms.drop_first()[j - 1]);
    }
}

/// A fresh module node with the given path and name and nothing in it.
pub open spec fn spec_new_module(path: Seq<char>, name: Seq<char>) -> ModuleView {
    ModuleView {
        name: name,
        path: path,
        source_files: Seq::empty(),
        modules: Seq::empty(),
        aggregated: spec_zero(),
    }
}

/// Insertion of one leaf below a module: the leaf's aggregate is added to
/// every node on the way; an empty path puts the leaf here; otherwise the
/// first path component names the child module to descend into, reusing the
/// first child of that name or appending a fresh one.
pub open spec fn spec_add_file(m: ModuleView, path: Seq<Seq<char>>, file: FileView) -> ModuleView
    decreases path.len(),
{
    let new_aggregated = spec_add(m.aggregated, file.aggregated);
    if path.len() == 0 {
        ModuleView {
            name: m.name,
            path: m.path,
            source_files: m.source_files.push(file),
            modules: m.modules,
            aggregated: new_aggregated,
        }
    } else {
        let child_name = path[0];
        let k = find_named(m.modules, child_name);
        let new_modules = if k < m.modules.len() {
            m.modules.update(k, spec_add_file(m.modules[k], path.drop_first(), file))
        } else {
            m.modules.push(
                spec_add_file(
                    spec_new_module(m.path + seq!['/'] + child_name, child_name),
                    path.drop_first(),
                    file,
                ),
            )
        };
        ModuleView {
            name: m.name,
            path: m.path,
            source_files: m.source_files,
            modules: new_modules,
            aggregated: new_aggregated,
        }
    }
}

pub proof fn lemma_files_totals_push(s: Seq<FileView>, f: FileView)
    ensures
        files_totals(s.push(f)) == t6_add(files_totals(s), cov_totals(f.aggregated)),
{
    assert(s.push(f).drop_last() =~= s);
}

pub proof fn lemma_modules_totals_push(s: Seq<ModuleView>, m: ModuleView)
    ensures
        modules_totals(s.push(m)) == t6_add(modules_totals(s), cov_totals(m.aggregated)),
{
    assert(s.push(m).drop_last() =~= s);
}

pub proof fn lemma_modules_totals_update(s: Seq<ModuleView>, k: int, m: ModuleView)
    requires
        0 <= k < s.len(),
    ensures
        t6_add(modules_totals(s.update(k, m)), cov_totals(s[k].aggregated)) == t6_add(
            modules_totals(s),
            cov_totals(m.aggregated),
        ),
    decreases s.len(),
{
    if k == s.len() - 1 {
        assert(s.update(k, m).drop_last() =~= s.drop_last());
        assert(s.update(k, m).last() == m);
    } else {
        lemma_modules_totals_update(s.drop_last(), k, m);
        assert(s.update(k, m).drop_last() =~= s.drop_last().update(k, m));
        assert(s.update(k, m).last() == s.last());
    }
}

pub proof fn lemma_files_totals_nonneg(s: Seq<FileView>)
    ensures
        t6_nonneg(files_totals(s)),
    decreases s.len(),
{
    if s.len() > 0 {
        lemma_files_totals_nonneg(s.drop_last());
    }
}

pub proof fn lemma_modules_totals_nonneg(s: Seq<ModuleView>)
    ensures
        t6_nonneg(modules_totals(s)),
    decreases s.len(),
{
    if s.len() > 0 {
        lemma_modules_totals_nonneg(s.drop_last());
    }
}

/// Any one child's stored aggregate is bounded by the children's sum.
pub proof fn lemma_modules_totals_elem_le(s: Seq<ModuleView>, k: int)
    requires
        0 <= k < s.len(),
    ensures
        t6_le(cov_totals(s[k].aggregated), modules_totals(s)),
    decreases s.len(),
{
    if k == s.len() - 1 {
        lemma_modules_totals_nonneg(s.drop_last());
    } else {
        lemma_modules_totals_elem_le(s.drop_last(), k);
    }
}

/// Inserting a leaf preserves well-formedness and adds exactly the leaf's
/// aggregate to the node, provided the new totals stay in range.
pub proof fn lemma_add_file_wf(m: ModuleView, path: Seq<Seq<char>>, file: FileView)
    requires
        module_wf(m),
        t6_fits(t6_add(cov_totals(m.aggregated), cov_totals(file.aggregated))),
    ensures
        module_wf(spec_add_file(m, path, file)),
        spec_add_file(m, path, file).aggregated == spec_add(m.aggregated, file.aggregated),
        add_fits(m.aggregated, file.aggregated),
        spec_add_file(m, path, file).name == m.name,
        spec_add_file(m, path, file).path == m.path,
    decreases path.len(),
{
    let r = spec_add_file(m, path, file);
    if path.len() == 0 {
        lemma_files_totals_push(m.source_files, file);
    } else {
        let child_name = path[0];
        let k = find_named(m.modules, child_name);
        lemma_find_named(m.modules, child_name);
        if k < m.modules.len() {
            let child = m.modules[k];
            lemma_modules_totals_elem_le(m.modules, k);
            lemma_files_totals_nonneg(m.source_files);
            assert(t6_fits(t6_add(cov_totals(child.aggregated), cov_totals(file.aggregated))));
            lemma_add_file_wf(child, path.drop_first(), file);
            let child2 = spec_add_file(child, path.drop_first(), file);
            lemma_modules_totals_update(m.modules, k, child2);
            assert(forall|i: int|
                0 <= i < r.modules.len() && i != k ==> r.modules[i] == m.modules[i]);
            assert(module_wf(r)) by {
                assert(forall|i: int| 0 <= i < r.modules.len() ==> module_wf(#[trigger] r.modules[i]));
            }
        } else {
            let fresh = spec_new_module(m.path + seq!['/'] + child_name, child_name);
            assert(module_wf(fresh));
            lemma_add_file_wf(fresh, path.drop_first(), file);
            let sub = spec_add_file(fresh, path.drop_first(), file);
            assert(sub.aggregated == spec_add(spec_zero(), file.aggregated));
            assert(cov_totals(sub.aggregated) == cov_totals(file.aggregated));
            lemma_modules_totals_push(m.modules, sub);
            assert(forall|i: int|
                0 <= i < m.modules.len() ==> r.modules[i] == m.modules[i]);
            assert(module_wf(r)) by {
                assert(forall|i: int| 0 <= i < r.modules.len() ==> module_wf(#[trigger] r.modules[i]));
            }
        }
    }
}

impl TestedModule {
    /// An empty module node with the given path and name.
    pub fn new(path: String, name: String) -> (r: Self)
        ensures
            r@ == spec_new_module(path@, name@),
    {
        let r = TestedModule {
            name,
            path,
            source_files: Vec::new(),
            modules: Vec::new(),
            aggregated: AggregatedCoverage::default(),
        };
        proof {
            assert(r@.source_files =~= Seq::<FileView>::empty());
            assert(modules_view(r.modules@) =~= Seq::<ModuleView>::empty());
        }
        r
    }

    pub fn get_name(&self) -> (r: &String)
        ensures
            r@ == self@.name,
    {
        &self.name
    }

    pub fn get_module_path(&self) -> (r: &String)
        ensures
            r@ == self@.path,
    {
        &self.path
    }

    pub fn get_aggregated_coverage(&self) -> (r: &AggregatedCoverage)
        ensures
            *r == self@.aggregated,
    {
        &self.aggregated
    }

    /// A module is always directory-like.
    pub fn is_dir(&self) -> (r: bool)
        ensures
            r == true,
    {
        true
    }

    pub fn get_path_string(&self) -> (r: String)
        ensures
            r@ == self@.path,
    {
        self.path.clone()
    }

    /// The node's position for link computation.
    pub fn location(&self) -> (r: crate::links::NodeLocation)
        ensures
            r@.name == self@.name,
            r@.path == self@.path,
            r@.is_dir == true,
    {
        crate::links::NodeLocation::new(self.name.as_str(), self.path.as_str(), true)
    }

    /// The child module at an index.
    pub fn get_module_at(&self, i: usize) -> (r: &TestedModule)
        requires
            i < self@.modules.len(),
        ensures
            r@ == self@.modules[i as int],
    {
        proof {
            lemma_modules_view(self.modules@);
        }
        &self.modules[i]
    }

    /// The child file at an index.
    pub fn get_source_file_at(&self, i: usize) -> (r: &TestedCodeFile)
        requires
            i < self@.source_files.len(),
        ensures
            r@ == self@.source_files[i as int],
    {
        &self.source_files[i]
    }

    /// Inserts one leaf at the given path of module names below this node,
    /// adding its aggregate to every node on the way.
    pub fn add_file(&mut self, path: Vec<String>, file: TestedCodeFile)
        requires
            module_wf(old(self)@),
            t6_fits(
                t6_add(cov_totals(old(self)@.aggregated), cov_totals(file@.aggregated)),
            ),
        ensures
            final(self)@ == spec_add_file(old(self)@, path.deep_view(), file@),
            module_wf(final(self)@),
        decreases path@.len(),
    {
        proof {
            lemma_add_file_wf(self@, path.deep_view(), file@);
        }
        let ghost old_view = self@;
        let file_agg = file.aggregated;
        self.aggregated.add(&file_agg);

        if path.len() == 0 {
            self.source_files.push(file);
            proof {
                assert(self@.source_files =~= old_view.source_files.push(file@));
                assert(self@ =~= spec_add_file(old_view, path.deep_view(), file@));
            }
            return ;
        }

        let module_name = path[0].clone();
        let ghost ms = old_view.modules;
        proof {
            lemma_find_named(ms, module_name@);
        }
        let mut idx: usize = 0;
        let mut found = false;
        let modules_len = self.modules.len();
        proof {
            lemma_modules_view(self.modules@);
            assert(ms.len() == modules_len);
        }
        while idx < modules_len && !found
            invariant
                idx <= modules_len,
                modules_len == self.modules@.len(),
                ms == modules_view(self.modules@),
                ms.len() == modules_len,
                forall|j: int| 0 <= j < idx ==> ms[j].name != module_name@,
                found ==> idx < modules_len && ms[idx as int].name == module_name@,
            decreases modules_len - idx, (if found { 0int } else { 1int }),
        {
            proof {
                lemma_modules_view(self.modules@);
            }
            if str_eq(self.modules[idx].name.as_str(), module_name.as_str()) {
                found = true;
            } else {
                idx = idx + 1;
            }
        }
        proof {
            lemma_find_named(ms, module_name@);
            if found {
                assert(idx == find_named(ms, module_name@));
            } else {
                assert(idx == modules_len);
                assert(find_named(ms, module_name@) == ms.len());
            }
        }

        let mut tail: Vec<String> = Vec::new();
        let mut j: usize = 1;
        proof {
            assert(tail.deep_view() =~= path.deep_view().subrange(1, 1));
        }
        while j < path.len()
            invariant
                1 <= j <= path.len(),
                path.deep_view().len() == path.len(),
                tail.deep_view() == path.deep_view().subrange(1, j as int),
            decreases path.len() - j,
        {
            let ghost before = tail.deep_view();
            let elem = path[j].clone();
            proof {
                assert(elem@ == path@[j as int]@);
            }
            tail.push(elem);
            proof {
                assert(tail.deep_view() =~= before.push(path.deep_view()[j as int]));
                assert(tail.deep_view() =~= path.deep_view().subrange(1, j + 1));
            }
            j = j + 1;
        }
        proof {
            assert(tail.deep_view() =~= path.deep_view().drop_first());
        }

        if found {
            proof {
                lemma_modules_totals_elem_le(ms, idx as int);
                lemma_files_totals_nonneg(old_view.source_files);
            }
            let ghost entry_modules = self.modules@;
            let mut child = self.modules.remove(idx);
            let ghost child_before = child;
            child.add_file(tail, file);
            self.modules.insert(idx, child);
            proof {
                let child_after = self.modules@[idx as int];
                assert(self.modules@ =~= entry_modules.update(idx as int, child_after));
                lemma_modules_view(self.modules@);
                lemma_modules_view(entry_modules);
                assert(module_view(child_before) == ms[idx as int]);
                assert(module_view(child_after) == spec_add_file(
                    ms[idx as int],
                    path.deep_view().drop_first(),
                    file@,
                ));
                assert(modules_view(self.modules@) =~= ms.update(
                    idx as int,
                    spec_add_file(ms[idx as int], path.deep_view().drop_first(), file@),
                ));
                assert(self@ =~= spec_add_file(old_view, path.deep_view(), file@));
            }
        } else {
            let mut child_path = self.path.clone();
            child_path.append("/");
            child_path.append(module_name.as_str());
            proof {
                reveal_strlit("/");
                assert(child_path@ =~= old_view.path + seq!['/'] + module_name@);
            }
            let ghost entry_modules = self.modules@;
            let mut child = TestedModule::new(child_path, module_name);
            child.add_file(tail, file);
            self.modules.push(child);
            proof {
                let child_after = self.modules@[self.modules@.len() - 1];
                assert(self.modules@ =~= entry_modules.push(child_after));
                lemma_modules_view(self.modules@);
                lemma_modules_view(entry_modules);
                assert(module_view(child_after) == spec_add_file(
                    spec_new_module(
                        old_view.path + seq!['/'] + path.deep_view()[0],
                        path.deep_view()[0],
                    ),
                    path.deep_view().drop_first(),
                    file@,
                ));
                assert(modules_view(self.modules@) =~= ms.push(
                    spec_add_file(
                        spec_new_module(
                            old_view.path + seq!['/'] + path.deep_view()[0],
                            path.deep_view()[0],
                        ),
                        path.deep_view().drop_first(),
                        file@,
                    ),
                ));
                assert(self@ =~= spec_add_file(old_view, path.deep_view(), file@));
            }
        }
    }
}

impl TestedModule {
    /// A module holding the given files directly, its aggregate their sum.
    pub fn from_source_files(path: &str, name: &str, source_files: Vec<TestedCodeFile>) -> (r:
        Self)
        requires
            t6_fits(files_totals(source_files.deep_view())),
        ensures
            r@.name == name@,
            r@.path == path@,
            r@.source_files == source_files.deep_view(),
            r@.modules == Seq::<ModuleView>::empty(),
            module_wf(r@),
    {
        let ghost files = source_files.deep_view();
        let mut aggregated = AggregatedCoverage::default();
        let mut i: usize = 0;
        proof {
            assert(files.take(0) =~= Seq::<FileView>::empty());
        }
        while i < source_files.len()
            invariant
                i <= source_files.len(),
                files == source_files.deep_view(),
                files.len() == source_files.len(),
                cov_totals(aggregated) == files_totals(files.take(i as int)),
                t6_fits(files_totals(files)),
            decreases source_files.len() - i,
        {
            proof {
                assert(files.take(i + 1).drop_last() =~= files.take(i as int));
                assert(files.take(i + 1).last() == files[i as int]);
                lemma_files_totals_prefix_le(files, i + 1);
                lemma_files_totals_nonneg(files.take(i as int));
            }
            let file_agg = source_files[i].aggregated;
            proof {
                assert(cov_totals(file_agg) == cov_totals(files[i as int].aggregated));
            }
            aggregated.add(&file_agg);
            i = i + 1;
        }
        proof {
            assert(files.take(files.len() as int) =~= files);
        }
        let r = TestedModule {
            name: String::from_str(name),
            path: String::from_str(path),
            source_files,
            modules: Vec::new(),
            aggregated,
        };
        proof {
            assert(modules_view(r.modules@) =~= Seq::<ModuleView>::empty());
        }
        r
    }

    /// A module holding the given child modules; as with the original
    /// builder, nothing is aggregated for them.
    pub fn from_modules(path: &str, name: &str, modules: Vec<TestedModule>) -> (r: Self)
        ensures
            r@.name == name@,
            r@.path == path@,
            r@.source_files == Seq::<FileView>::empty(),
            r@.modules == modules_view(modules@),
            r@.aggregated == spec_zero(),
    {
        let r = TestedModule {
            name: String::from_str(name),
            path: String::from_str(path),
            source_files: Vec::new(),
            modules,
            aggregated: AggregatedCoverage::default(),
        };
        proof {
            assert(r@.source_files =~= Seq::<FileView>::empty());
        }
        r
    }
}

/// The total of any prefix of the leaves stays below the total of all of
/// them.
pub proof fn lemma_files_totals_prefix_le(s: Seq<FileView>, i: int)
    requires
        0 <= i <= s.len(),
    ensures
        t6_le(files_totals(s.take(i)), files_totals(s)),
        t6_fits(files_totals(s)) ==> t6_fits(files_totals(s.take(i))),
    decreases s.len() - i,
{
    if i == s.len() {
        assert(s.take(i) =~= s);
    } else {
        lemma_files_totals_prefix_le(s, i + 1);
        assert(s.take(i + 1).drop_last() =~= s.take(i));
        assert(s.take(i + 1).last() == s[i]);
        lemma_files_totals_nonneg(s.take(i));
    }
}


/// Every leaf under a module: its own files first, then each child module's
/// subtree in order.
pub open spec fn all_files(m: ModuleView) -> Seq<FileView>
    decreases m, 1int,
{
    m.source_files + all_files_of(m.modules)
}

/// Every leaf under a sequence of modules, in order.
pub open spec fn all_files_of(ms: Seq<ModuleView>) -> Seq<FileView>
    decreases ms, 0int,
{
    if ms.len() == 0 {
        Seq::empty()
    } else {
        all_files_of(ms.drop_last()) + all_files(ms.last())
    }
}

impl TestedModule {
    /// Every tested file under this module: its own, then its child modules'
    /// recursively, in tree order.
    #[verifier::rlimit(80)]
    pub fn enumerate_code_files(&self) -> (r: Vec<&TestedCodeFile>)
        ensures
            r.deep_view() == all_files(self@),
        decreases *self,
    {
        let mut out: Vec<&TestedCodeFile> = Vec::new();
        let ghost files = self@.source_files;
        let mut i: usize = 0;
        proof {
            assert(out.deep_view() =~= files.take(0));
        }
        while i < self.source_files.len()
            invariant
                i <= self.source_files@.len(),
                files == self@.source_files,
                files.len() == self.source_files@.len(),
                out.deep_view() == files.take(i as int),
            decreases self.source_files@.len() - i,
        {
            let ghost before = out.deep_view();
            out.push(&self.source_files[i]);
            i = i + 1;
            proof {
                assert(out.deep_view() =~= before.push(files[i - 1]));
                assert(out.deep_view() =~= files.take(i as int));
            }
        }
        proof {
            assert(files.take(files.len() as int) =~= files);
        }
        let ghost mods = self@.modules;
        let mut j: usize = 0;
        proof {
            lemma_modules_view(self.modules@);
            assert(all_files_of(mods.take(0)) =~= Seq::<FileView>::empty());
            assert(out.deep_view() =~= files + all_files_of(mods.take(0)));
        }
        while j < self.modules.len()
            invariant
                j <= self.modules@.len(),
                files == self@.source_files,
                mods == self@.modules,
                mods.len() == self.modules@.len(),
                out.deep_view() == files + all_files_of(mods.take(j as int)),
            decreases self.modules@.len() - j,
        {
            let child = &self.modules[j];
            proof {
                lemma_modules_view(self.modules@);
                assert(child@ == mods[j as int]);
                assert(decreases_to!(*self => *child));
            }
            let sub = child.enumerate_code_files();
            let ghost sub_view = sub.deep_view();
            let mut k: usize = 0;
            let ghost base = out.deep_view();
            proof {
                assert(base + sub_view.take(0) =~= base);
            }
            while k < sub.len()
                invariant
                    k <= sub@.len(),
                    sub_view == sub.deep_view(),
                    sub_view.len() == sub@.len(),
                    out.deep_view() == base + sub_view.take(k as int),
                decreases sub@.len() - k,
            {
                let ghost before = out.deep_view();
                out.push(sub[k]);
                k = k + 1;
                proof {
                    assert(out.deep_view() =~= before.push(sub_view[k - 1]));
                    assert(out.deep_view() =~= base + sub_view.take(k as int));
                }
            }
            j = j + 1;
            proof {
                assert(sub_view.take(sub_view.len() as int) =~= sub_view);
                assert(mods.take(j as int).drop_last() =~= mods.take(j - 1));
                assert(mods.take(j as int).last() == mods[j - 1]);
                assert(out.deep_view() =~= files + all_files_of(mods.take(j as int)));
            }
        }
        proof {
            assert(mods.take(mods.len() as int) =~= mods);
        }
        out
    }
}

/// No two modules of a sequence share a name.
pub open spec fn distinct_sibling_names(ms: Seq<ModuleView>) -> bool {
    forall|i: int, j: int| 0 <= i < j < ms.len() ==> ms[i].name != ms[j].name
}

/// No two sibling modules anywhere in a subtree share a name.
pub open spec fn module_names_distinct(m: ModuleView) -> bool
    decreases m,
{
    &&& distinct_sibling_names(m.modules)
    &&& forall|i: int| 0 <= i < m.modules.len() ==> module_names_distinct(#[trigger] m.modules[i])
}

/// Insertion keeps sibling module names distinct at every node: a path
/// component reuses the first child of its name, and a fresh child is
/// appended only when no sibling has its name yet.
pub proof fn lemma_add_file_names_distinct(m: ModuleView, path: Seq<Seq<char>>, file: FileView)
    requires
        module_names_distinct(m),
    ensures
        module_names_distinct(spec_add_file(m, path, file)),
        spec_add_file(m, path, file).name == m.name,
    decreases path.len(),
{
    let r = spec_add_file(m, path, file);
    if path.len() == 0 {
    } else {
        let child_name = path[0];
        let k = find_named(m.modules, child_name);
        lemma_find_named(m.modules, child_name);
        if k < m.modules.len() {
            let child = m.modules[k];
            lemma_add_file_names_distinct(child, path.drop_first(), file);
            let child2 = spec_add_file(child, path.drop_first(), file);
            assert(child2.name == child.name);
            assert(forall|i: int|
                0 <= i < r.modules.len() && i != k ==> r.modules[i] == m.modules[i]);
            assert(forall|i: int| 0 <= i < r.modules.len() ==> (#[trigger] r.modules[i]).name
                == m.modules[i].name);
            assert(distinct_sibling_names(r.modules));
            assert(forall|i: int|
                0 <= i < r.modules.len() ==> module_names_distinct(#[trigger] r.modules[i]));
        } else {
            let fresh = spec_new_module(m.path + seq!['/'] + child_name, child_name);
            assert(module_names_distinct(fresh));
            lemma_add_file_names_distinct(fresh, path.drop_first(), file);
            let sub = spec_add_file(fresh, path.drop_first(), file);
            assert(sub.name == child_name);
            assert(forall|j: int| 0 <= j < m.modules.len() ==> (#[trigger] m.modules[j]).name
                != child_name);
            assert(forall|i: int|
                0 <= i < m.modules.len() ==> r.modules[i] == m.modules[i]);
            assert(distinct_sibling_names(r.modules));
            assert(forall|i: int|
                0 <= i < r.modules.len() ==> module_names_distinct(#[trigger] r.modules[i]));
        }
    }
}

} // verus!
