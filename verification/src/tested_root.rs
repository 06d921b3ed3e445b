use vstd::prelude::*;

use crate::counters::cov_totals;
use crate::counters::spec_add;
use crate::counters::spec_zero;
use crate::counters::t6_add;
use crate::counters::t6_fits;
use crate::counters::t6_le;
use crate::counters::t6_nonneg;
use crate::counters::t6_zero;
use crate::counters::AggregatedCoverage;
use crate::input::AggregatorInput;
use crate::paths::components;
use crate::paths::split_path;
use crate::records::record_aggregate;
use crate::records::report_sections;
use crate::records::FileRecord;
use crate::tested_file::file_name_of;
use crate::tested_file::stripped_under_key;
use crate::tested_file::FileView;
use crate::tested_file::TestedCodeFile;
use crate::tested_module::files_totals;
use crate::tested_module::find_named;
use crate::tested_module::lemma_add_file_wf;
use crate::tested_module::lemma_files_totals_nonneg;
use crate::tested_module::lemma_files_totals_push;
use crate::tested_module::lemma_find_named;
use crate::tested_module::lemma_modules_totals_elem_le;
use crate::tested_module::lemma_modules_totals_push;
use crate::tested_module::lemma_modules_totals_update;
use crate::tested_module::lemma_modules_view;
use crate::tested_module::module_view;
use crate::tested_module::module_wf;
use crate::tested_module::modules_totals;
use crate::tested_module::modules_view;
use crate::tested_module::spec_add_file;
use crate::tested_module::spec_new_module;
use crate::tested_module::ModuleView;
use crate::tested_module::TestedModule;
use crate::text::str_eq;

verus! {

/// The root of one aggregated input: the stripped prefix, the deduplicated
/// output key, a display name, and the tree of modules and files built from
/// the input's records.
#[derive(Debug, PartialEq)]
pub struct TestedRoot {
    pub key: String,
    pub name: String,
    pub modules: Vec<TestedModule>,
    pub source_files: Vec<TestedCodeFile>,
    pub aggregated: AggregatedCoverage,
    pub prefix: String,
}

/// The mathematical shape of a root node.
#[verifier::ext_equal]
pub struct RootView {
    pub key: Seq<char>,
    pub name: Seq<char>,
    pub modules: Seq<ModuleView>,
    pub source_files: Seq<FileView>,
    pub aggregated: AggregatedCoverage,
    pub prefix: Seq<char>,
}

impl View for TestedRoot {
    type V = RootView;

    open spec fn view(&self) -> RootView {
        RootView {
            key: self.key@,
            name: self.name@,
            modules: modules_view(self.modules@),
            source_files: self.source_files.deep_view(),
            aggregated: self.aggregated,
            prefix: self.prefix@,
        }
    }
}

/// Well-formedness of a root: its aggregate equals its direct leaves' sum
/// plus its direct children's sums, and every child is well-formed.
pub open spec fn root_wf(r: RootView) -> bool {
    &&& cov_totals(r.aggregated) == t6_add(files_totals(r.source_files), modules_totals(r.modules))
    &&& forall|i: int| 0 <= i < r.modules.len() ==> module_wf(#[trigger] r.modules[i])
}

/// The display name of a root with the given prefix: the prefix's last
/// component, or a fixed fallback when the prefix has none.
pub open spec fn root_name_of(prefix: Seq<char>) -> Seq<char> {
    if components(prefix).len() == 0 {
        "Test report"@
    } else {
        components(prefix).last()
    }
}

/// An empty root for the given prefix and key.
pub open spec fn spec_empty_root(prefix: Seq<char>, key: Seq<char>) -> RootView {
    RootView {
        key: key,
        name: root_name_of(prefix),
        modules: Seq::empty(),
        source_files: Seq::empty(),
        aggregated: spec_zero(),
        prefix: prefix,
    }
}

/// The path of a fresh top-level module: the module name under the root key,
/// with no separator when the key is empty.
pub open spec fn root_child_path(key: Seq<char>, name: Seq<char>) -> Seq<char> {
    if key.len() == 0 {
        name
    } else {
        key + seq!['/'] + name
    }
}

/// The components of a record's path past the root prefix; the record is
/// dropped when none remain.
pub open spec fn rel_of(path: Seq<char>, prefix_len: nat) -> Seq<Seq<char>> {
    if prefix_len <= components(path).len() {
        components(path).skip(prefix_len as int)
    } else {
        Seq::empty()
    }
}

/// Insertion of one leaf into the root. A leaf whose path strips to nothing
/// is dropped; one component puts the leaf directly at the root; otherwise
/// the first component names the top-level module and the middle components
/// the modules below it.
pub open spec fn spec_root_add(root: RootView, file: FileView, rel: Seq<Seq<char>>) -> RootView {
    if rel.len() == 0 {
        root
    } else {
        let new_aggregated = spec_add(root.aggregated, file.aggregated);
        if rel.len() == 1 {
            RootView { source_files: root.source_files.push(file), aggregated: new_aggregated, ..root }
        } else {
            let child_name = rel[0];
            let queue = rel.subrange(1, rel.len() - 1);
            let k = find_named(root.modules, child_name);
            let new_modules = if k < root.modules.len() {
                root.modules.update(k, spec_add_file(root.modules[k], queue, file))
            } else {
                root.modules.push(
                    spec_add_file(
                        spec_new_module(root_child_path(root.key, child_name), child_name),
                        queue,
                        file,
                    ),
                )
            };
            RootView { modules: new_modules, aggregated: new_aggregated, ..root }
        }
    }
}

/// The view of the leaf that one record produces under a root.
pub open spec fn record_leaf_view(
    rec: (Seq<char>, Seq<(u32, u64)>, Seq<(Seq<char>, u64)>, Seq<Option<u64>>),
    prefix: Seq<char>,
    key: Seq<char>,
) -> FileView {
    FileView {
        file_name: file_name_of(rec.0),
        path: rec.0,
        path_relative_to_prefix: crate::paths::joined(
            stripped_under_key(rec.0, components(prefix).len(), key),
        ),
        aggregated: record_aggregate(rec.1, rec.2, rec.3),
        lines: rec.1,
        functions: rec.2,
    }
}

/// Insertion of one record into the root.
pub open spec fn spec_root_add_record(
    root: RootView,
    rec: (Seq<char>, Seq<(u32, u64)>, Seq<(Seq<char>, u64)>, Seq<Option<u64>>),
) -> RootView {
    spec_root_add(
        root,
        record_leaf_view(rec, root.prefix, root.key),
        rel_of(rec.0, components(root.prefix).len()),
    )
}

/// The root built from a sequence of records, inserted in order.
pub open spec fn spec_build_root(
    records: Seq<(Seq<char>, Seq<(u32, u64)>, Seq<(Seq<char>, u64)>, Seq<Option<u64>>)>,
    prefix: Seq<char>,
    key: Seq<char>,
) -> RootView
    decreases records.len(),
{
    if records.len() == 0 {
        spec_empty_root(prefix, key)
    } else {
        spec_root_add_record(spec_build_root(records.drop_last(), prefix, key), records.last())
    }
}

/// Whether a record survives prefix stripping.
pub open spec fn kept(path: Seq<char>, prefix_len: nat) -> bool {
    components(path).len() > prefix_len
}

/// The pointwise total of the records that survive prefix stripping.
pub open spec fn records_total(
    records: Seq<(Seq<char>, Seq<(u32, u64)>, Seq<(Seq<char>, u64)>, Seq<Option<u64>>)>,
    prefix_len: nat,
) -> (int, int, int, int, int, int)
    decreases records.len(),
{
    if records.len() == 0 {
        t6_zero()
    } else {
        t6_add(
            records_total(records.drop_last(), prefix_len),
            if kept(records.last().0, prefix_len) {
                cov_totals(record_aggregate(records.last().1, records.last().2, records.last().3))
            } else {
                t6_zero()
            },
        )
    }
}

pub proof fn lemma_record_aggregate_nonneg(
    rec: (Seq<char>, Seq<(u32, u64)>, Seq<(Seq<char>, u64)>, Seq<Option<u64>>),
)
    ensures
        t6_nonneg(cov_totals(record_aggregate(rec.1, rec.2, rec.3))),
{
}

/// Inserting one record preserves well-formedness, adds the record's
/// aggregate to the root when it is kept, and touches nothing else.
pub proof fn lemma_root_add_record_wf(
    root: RootView,
    rec: (Seq<char>, Seq<(u32, u64)>, Seq<(Seq<char>, u64)>, Seq<Option<u64>>),
)
    requires
        root_wf(root),
        kept(rec.0, components(root.prefix).len()) ==> t6_fits(
            t6_add(
                cov_totals(root.aggregated),
                cov_totals(record_aggregate(rec.1, rec.2, rec.3)),
            ),
        ),
    ensures
        root_wf(spec_root_add_record(root, rec)),
        cov_totals(spec_root_add_record(root, rec).aggregated) == t6_add(
            cov_totals(root.aggregated),
            if kept(rec.0, components(root.prefix).len()) {
                cov_totals(record_aggregate(rec.1, rec.2, rec.3))
            } else {
                t6_zero()
            },
        ),
        spec_root_add_record(root, rec).key == root.key,
        spec_root_add_record(root, rec).name == root.name,
        spec_root_add_record(root, rec).prefix == root.prefix,
{
    let plen = components(root.prefix).len();
    let rel = rel_of(rec.0, plen);
    let file = record_leaf_view(rec, root.prefix, root.key);
    let r = spec_root_add(root, file, rel);
    if rel.len() == 0 {
    } else if rel.len() == 1 {
        lemma_files_totals_push(root.source_files, file);
    } else {
        let child_name = rel[0];
        let queue = rel.subrange(1, rel.len() - 1);
        let k = find_named(root.modules, child_name);
        lemma_find_named(root.modules, child_name);
        if k < root.modules.len() {
            let child = root.modules[k];
            lemma_modules_totals_elem_le(root.modules, k);
            lemma_files_totals_nonneg(root.source_files);
            lemma_add_file_wf(child, queue, file);
            let child2 = spec_add_file(child, queue, file);
            lemma_modules_totals_update(root.modules, k, child2);
            assert(forall|i: int|
                0 <= i < r.modules.len() && i != k ==> r.modules[i] == root.modules[i]);
            assert(forall|i: int| 0 <= i < r.modules.len() ==> module_wf(#[trigger] r.modules[i]));
        } else {
            let fresh = spec_new_module(root_child_path(root.key, child_name), child_name);
            assert(module_wf(fresh));
            lemma_add_file_wf(fresh, queue, file);
            let sub = spec_add_file(fresh, queue, file);
            assert(cov_totals(sub.aggregated) == cov_totals(file.aggregated));
            lemma_modules_totals_push(root.modules, sub);
            assert(forall|i: int| 0 <= i < root.modules.len() ==> r.modules[i] == root.modules[i]);
            assert(forall|i: int| 0 <= i < r.modules.len() ==> module_wf(#[trigger] r.modules[i]));
        }
    }
}

/// A built root is well-formed and its aggregate is exactly the sum of the
/// kept records, whatever the records.
pub proof fn lemma_build_root_wf(
    records: Seq<(Seq<char>, Seq<(u32, u64)>, Seq<(Seq<char>, u64)>, Seq<Option<u64>>)>,
    prefix: Seq<char>,
    key: Seq<char>,
)
    requires
        t6_fits(records_total(records, components(prefix).len())),
    ensures
        root_wf(spec_build_root(records, prefix, key)),
        cov_totals(spec_build_root(records, prefix, key).aggregated) == records_total(
            records,
            components(prefix).len(),
        ),
        spec_build_root(records, prefix, key).key == key,
        spec_build_root(records, prefix, key).name == root_name_of(prefix),
        spec_build_root(records, prefix, key).prefix == prefix,
    decreases records.len(),
{
    let plen = components(prefix).len();
    if records.len() == 0 {
    } else {
        let init = records.drop_last();
        let rec = records.last();
        lemma_records_total_nonneg(init, plen);
        lemma_record_aggregate_nonneg(rec);
        lemma_build_root_wf(init, prefix, key);
        lemma_root_add_record_wf(spec_build_root(init, prefix, key), rec);
    }
}

pub proof fn lemma_records_total_nonneg(
    records: Seq<(Seq<char>, Seq<(u32, u64)>, Seq<(Seq<char>, u64)>, Seq<Option<u64>>)>,
    prefix_len: nat,
)
    ensures
        t6_nonneg(records_total(records, prefix_len)),
    decreases records.len(),
{
    if records.len() > 0 {
        lemma_records_total_nonneg(records.drop_last(), prefix_len);
        lemma_record_aggregate_nonneg(records.last());
    }
}

impl TestedRoot {
    /// Builds the whole tree for one input: every record is inserted in
    /// order; a record whose path strips to nothing is dropped. The root's
    /// aggregate ends up as exactly the sum of the kept records' aggregates.
    pub fn new(input: AggregatorInput) -> (r: TestedRoot)
        requires
            t6_fits(
                records_total(
                    crate::input::records_view(input.records@),
                    components(input.prefix@).len(),
                ),
            ),
        ensures
            r@ == spec_build_root(
                crate::input::records_view(input.records@),
                input.prefix@,
                input.key@,
            ),
            root_wf(r@),
            cov_totals(r@.aggregated) == records_total(
                crate::input::records_view(input.records@),
                components(input.prefix@).len(),
            ),
    {
        let AggregatorInput { mut records, prefix, name: _, key } = input;
        let ghost all = crate::input::records_view(records@);
        let prefix_comps = split_path(prefix.as_str());
        let name = if prefix_comps.len() == 0 {
            proof {
                reveal_strlit("Test report");
            }
            String::from_str("Test report")
        } else {
            prefix_comps[prefix_comps.len() - 1].clone()
        };
        let mut tree = TestedRoot {
            key,
            name,
            modules: Vec::new(),
            source_files: Vec::new(),
            aggregated: AggregatedCoverage::default(),
            prefix,
        };
        let ghost prefix_view = tree.prefix@;
        let ghost key_view = tree.key@;
        proof {
            assert(modules_view(tree.modules@) =~= Seq::<ModuleView>::empty());
            assert(tree@.source_files =~= Seq::<FileView>::empty());
            assert(tree@ =~= spec_empty_root(prefix_view, key_view));
            assert(all.take(0) =~= Seq::<
                (Seq<char>, Seq<(u32, u64)>, Seq<(Seq<char>, u64)>, Seq<Option<u64>>),
            >::empty());
        }
        let mut i: usize = 0;
        let total = records.len();
        while i < total
            invariant
                i <= total,
                records@.len() == total - i,
                all.len() == total,
                forall|j: int| 0 <= j < records@.len() ==> records@[j].deep_view() == all[i + j],
                tree@ == spec_build_root(all.take(i as int), prefix_view, key_view),
                t6_fits(records_total(all, components(prefix_view).len())),
            decreases total - i,
        {
            let record = records.remove(0);
            proof {
                assert(record.deep_view() == all[i as int]);
                assert(forall|j: int|
                    0 <= j < records@.len() ==> records@[j].deep_view() == all[i + 1 + j]);
                lemma_records_total_prefix_fits(all, components(prefix_view).len(), i as int);
                lemma_records_total_prefix_fits(all, components(prefix_view).len(), i + 1);
                lemma_build_root_wf(all.take(i as int), prefix_view, key_view);
                assert(all.take(i + 1).drop_last() =~= all.take(i as int));
                assert(all.take(i + 1).last() == all[i as int]);
                assert(tree@.prefix == prefix_view);
                assert(tree@.key == key_view);
                lemma_record_aggregate_nonneg(all[i as int]);
            }
            tree.add_record(record);
            i = i + 1;
            proof {
                assert(tree@ == spec_build_root(all.take(i as int), prefix_view, key_view));
            }
        }
        proof {
            assert(all.take(total as int) =~= all);
            lemma_records_total_prefix_fits(all, components(prefix_view).len(), total as int);
            lemma_build_root_wf(all, prefix_view, key_view);
        }
        tree
    }

    /// Inserts one record into the tree, adding its aggregate to the root and
    /// to every module on its path.
    pub fn add_record(&mut self, record: FileRecord)
        requires
            root_wf(old(self)@),
            kept(record.path@, components(old(self)@.prefix).len()) ==> t6_fits(
                t6_add(
                    cov_totals(old(self)@.aggregated),
                    cov_totals(
                        record_aggregate(
                            record.lines.deep_view(),
                            record.functions.deep_view(),
                            record.branches.deep_view(),
                        ),
                    ),
                ),
            ),
        ensures
            final(self)@ == spec_root_add_record(old(self)@, record.deep_view()),
            root_wf(final(self)@),
    {
        proof {
            lemma_root_add_record_wf(self@, record.deep_view());
        }
        let ghost old_view = self@;
        let ghost rec = record.deep_view();
        let path_comps = split_path(record.path.as_str());
        let prefix_comps = split_path(self.prefix.as_str());
        let mut rel: Vec<String> = Vec::new();
        let mut i: usize = prefix_comps.len();
        proof {
            assert(rel.deep_view() =~= Seq::<Seq<char>>::empty());
        }
        while i < path_comps.len()
            invariant
                prefix_comps.deep_view().len() <= i,
                path_comps.deep_view().len() == path_comps.len(),
                prefix_comps.deep_view().len() <= path_comps.deep_view().len() ==> i
                    <= path_comps.deep_view().len() && rel.deep_view()
                    == path_comps.deep_view().subrange(
                    prefix_comps.deep_view().len() as int,
                    i as int,
                ),
                prefix_comps.deep_view().len() > path_comps.deep_view().len() ==> i
                    == prefix_comps.deep_view().len() && rel.deep_view().len() == 0,
            decreases path_comps.len() - i,
        {
            let elem = path_comps[i].clone();
            proof {
                assert(elem@ == path_comps@[i as int]@);
            }
            let ghost before = rel.deep_view();
            rel.push(elem);
            i = i + 1;
            proof {
                assert(rel.deep_view() =~= before.push(path_comps.deep_view()[i - 1]));
                assert(rel.deep_view() =~= path_comps.deep_view().subrange(
                    prefix_comps.deep_view().len() as int,
                    i as int,
                ));
            }
        }
        proof {
            let plen = prefix_comps.deep_view().len();
            let pc = path_comps.deep_view();
            if plen <= pc.len() {
                assert(i == pc.len());
                assert(pc.skip(plen as int) =~= pc.subrange(plen as int, pc.len() as int));
                assert(rel.deep_view() =~= rel_of(record.path@, components(self.prefix@).len()));
            } else {
                assert(rel.deep_view() =~= Seq::<Seq<char>>::empty());
                assert(rel.deep_view() =~= rel_of(record.path@, components(self.prefix@).len()));
            }
        }
        let file = TestedCodeFile::from_record(record, self.prefix.as_str(), self.key.as_str());
        proof {
            assert(file@ =~= record_leaf_view(rec, old_view.prefix, old_view.key));
        }

        if rel.len() == 0 {
            proof {
                assert(self@ =~= spec_root_add_record(old_view, rec));
            }
            return ;
        }

        let file_agg = file.aggregated;
        self.aggregated.add(&file_agg);

        if rel.len() == 1 {
            self.source_files.push(file);
            proof {
                assert(self@.source_files =~= old_view.source_files.push(file@));
                assert(self@ =~= spec_root_add_record(old_view, rec));
            }
            return ;
        }

        let module_name = rel[0].clone();
        let ghost ms = old_view.modules;
        proof {
            lemma_find_named(ms, module_name@);
            lemma_modules_view(self.modules@);
        }
        let mut idx: usize = 0;
        let mut found = false;
        let modules_len = self.modules.len();
        while idx < modules_len && !found
            invariant
                idx <= modules_len,
                modules_len == self.modules@.len(),
                ms == modules_view(self.modules@),
                ms.len() == modules_len,
                forall|j: int| 0 <= j < idx ==> ms[j].name != module_name@,
                found ==> idx < modules_len && ms[idx as int].name == module_name@,
            decreases modules_len - idx, (if found { 0int } else { 1int }),
        {
            proof {
                lemma_modules_view(self.modules@);
            }
            if str_eq(self.modules[idx].name.as_str(), module_name.as_str()) {
                found = true;
            } else {
                idx = idx + 1;
            }
        }
        proof {
            lemma_find_named(ms, module_name@);
            if found {
                assert(idx == find_named(ms, module_name@));
            } else {
                assert(find_named(ms, module_name@) == ms.len());
            }
        }

        let mut queue: Vec<String> = Vec::new();
        let mut j: usize = 1;
        proof {
            assert(queue.deep_view() =~= rel.deep_view().subrange(1, 1));
        }
        while j + 1 < rel.len()
            invariant
                1 <= j,
                j + 1 <= rel.len() || j == 1,
                rel.deep_view().len() == rel.len(),
                queue.deep_view() == rel.deep_view().subrange(1, j as int),
            decreases rel.len() - j,
        {
            let ghost before = queue.deep_view();
            let elem = rel[j].clone();
            proof {
                assert(elem@ == rel@[j as int]@);
            }
            queue.push(elem);
            proof {
                assert(queue.deep_view() =~= before.push(rel.deep_view()[j as int]));
                assert(queue.deep_view() =~= rel.deep_view().subrange(1, j + 1));
            }
            j = j + 1;
        }
        let ghost rel_full = rel_of(rec.0, components(old_view.prefix).len());
        proof {
            assert(queue.deep_view() =~= rel_full.subrange(1, rel_full.len() - 1));
        }

        if found {
            proof {
                lemma_modules_totals_elem_le(ms, idx as int);
                lemma_files_totals_nonneg(old_view.source_files);
            }
            let ghost entry_modules = self.modules@;
            let mut child = self.modules.remove(idx);
            let ghost child_before = child;
            child.add_file(queue, file);
            self.modules.insert(idx, child);
            proof {
                let child_after = self.modules@[idx as int];
                assert(self.modules@ =~= entry_modules.update(idx as int, child_after));
                lemma_modules_view(self.modules@);
                lemma_modules_view(entry_modules);
                assert(module_view(child_before) == ms[idx as int]);
                assert(module_view(child_after) == spec_add_file(
                    ms[idx as int],
                    rel_full.subrange(1, rel_full.len() - 1),
                    file@,
                ));
                assert(modules_view(self.modules@) =~= ms.update(
                    idx as int,
                    spec_add_file(
                        ms[idx as int],
                        rel_full.subrange(1, rel_full.len() - 1),
                        file@,
                    ),
                ));
                assert(self@ =~= spec_root_add_record(old_view, rec));
            }
        } else {
            let child_path = if self.key.unicode_len() == 0 {
                module_name.clone()
            } else {
                let mut p = self.key.clone();
                p.append("/");
                p.append(module_name.as_str());
                p
            };
            proof {
                reveal_strlit("/");
                assert(child_path@ =~= root_child_path(old_view.key, module_name@));
            }
            let ghost entry_modules = self.modules@;
            let mut child = TestedModule::new(child_path, module_name);
            child.add_file(queue, file);
            self.modules.push(child);
            proof {
                let child_after = self.modules@[self.modules@.len() - 1];
                assert(self.modules@ =~= entry_modules.push(child_after));
                lemma_modules_view(self.modules@);
                lemma_modules_view(entry_modules);
                assert(module_view(child_after) == spec_add_file(
                    spec_new_module(root_child_path(old_view.key, rel_full[0]), rel_full[0]),
                    rel_full.subrange(1, rel_full.len() - 1),
                    file@,
                ));
                assert(modules_view(self.modules@) =~= ms.push(
                    spec_add_file(
                        spec_new_module(root_child_path(old_view.key, rel_full[0]), rel_full[0]),
                        rel_full.subrange(1, rel_full.len() - 1),
                        file@,
                    ),
                ));
                assert(self@ =~= spec_root_add_record(old_view, rec));
            }
        }
    }
}


impl TestedRoot {
    /// A root holding the given files directly, with empty prefix and key and
    /// the fallback display name; as with the original builder, nothing is
    /// aggregated for them.
    pub fn from_source_files(source_files: Vec<TestedCodeFile>) -> (r: Self)
        ensures
            r@.key == Seq::<char>::empty(),
            r@.prefix == Seq::<char>::empty(),
            r@.name == "Test report"@,
            r@.modules == Seq::<ModuleView>::empty(),
            r@.source_files == source_files.deep_view(),
            r@.aggregated == spec_zero(),
    {
        proof {
            reveal_strlit("Test report");
        }
        let r = TestedRoot {
            key: String::new(),
            name: String::from_str("Test report"),
            modules: Vec::new(),
            source_files,
            aggregated: AggregatedCoverage::default(),
            prefix: String::new(),
        };
        proof {
            assert(modules_view(r.modules@) =~= Seq::<ModuleView>::empty());
        }
        r
    }

    /// A root holding the given modules, with empty prefix and key and the
    /// fallback display name; nothing is aggregated for them.
    pub fn from_modules(modules: Vec<TestedModule>) -> (r: Self)
        ensures
            r@.key == Seq::<char>::empty(),
            r@.prefix == Seq::<char>::empty(),
            r@.name == "Test report"@,
            r@.modules == modules_view(modules@),
            r@.source_files == Seq::<FileView>::empty(),
            r@.aggregated == spec_zero(),
    {
        proof {
            reveal_strlit("Test report");
        }
        let r = TestedRoot {
            key: String::new(),
            name: String::from_str("Test report"),
            modules,
            source_files: Vec::new(),
            aggregated: AggregatedCoverage::default(),
            prefix: String::new(),
        };
        proof {
            assert(r@.source_files =~= Seq::<FileView>::empty());
        }
        r
    }

    /// A root holding the given files and modules; nothing is aggregated.
    pub fn from_source_files_and_modules(
        source_files: Vec<TestedCodeFile>,
        modules: Vec<TestedModule>,
    ) -> (r: Self)
        ensures
            r@.key == Seq::<char>::empty(),
            r@.prefix == Seq::<char>::empty(),
            r@.name == "Test report"@,
            r@.modules == modules_view(modules@),
            r@.source_files == source_files.deep_view(),
            r@.aggregated == spec_zero(),
    {
        proof {
            reveal_strlit("Test report");
        }
        TestedRoot {
            key: String::new(),
            name: String::from_str("Test report"),
            modules,
            source_files,
            aggregated: AggregatedCoverage::default(),
            prefix: String::new(),
        }
    }

    /// Builds the tree for a report as it stands, with no prefix stripped and
    /// an empty key.
    pub fn from_original_report(report: lcov::report::Report) -> (r: Self)
        requires
            t6_fits(records_total(report_sections(report), 0)),
        ensures
            r@ == spec_build_root(report_sections(report), Seq::empty(), Seq::empty()),
            root_wf(r@),
    {
        let input = AggregatorInput::new(report);
        proof {
            assert(components(input.prefix@) =~= Seq::<Seq<char>>::empty());
        }
        TestedRoot::new(input)
    }

    pub fn get_prefix(&self) -> (r: &String)
        ensures
            r@ == self@.prefix,
    {
        &self.prefix
    }

    pub fn get_key(&self) -> (r: &String)
        ensures
            r@ == self@.key,
    {
        &self.key
    }

    /// The display name: the last prefix component, or the fallback.
    pub fn get_root_name(&self) -> (r: &String)
        ensures
            r@ == self@.name,
    {
        &self.name
    }

    pub fn get_name(&self) -> (r: &String)
        ensures
            r@ == self@.name,
    {
        &self.name
    }

    /// A root is directory-like.
    pub fn is_dir(&self) -> (r: bool)
        ensures
            r == true,
    {
        true
    }

    /// The root's place in the output tree is its key.
    pub fn get_path_string(&self) -> (r: String)
        ensures
            r@ == self@.key,
    {
        self.key.clone()
    }

    /// The node's position for link computation: a root sits at its key.
    pub fn location(&self) -> (r: crate::links::NodeLocation)
        ensures
            r@.name == self@.name,
            r@.path == self@.key,
            r@.is_dir == true,
    {
        crate::links::NodeLocation::new(self.name.as_str(), self.key.as_str(), true)
    }

    pub fn get_aggregated_coverage(&self) -> (r: &AggregatedCoverage)
        ensures
            *r == self@.aggregated,
    {
        &self.aggregated
    }

    /// The child module at an index.
    pub fn get_module_at(&self, i: usize) -> (r: &TestedModule)
        requires
            i < self@.modules.len(),
        ensures
            r@ == self@.modules[i as int],
    {
        proof {
            lemma_modules_view(self.modules@);
        }
        &self.modules[i]
    }

    /// The child file at an index.
    pub fn get_source_file_at(&self, i: usize) -> (r: &TestedCodeFile)
        requires
            i < self@.source_files.len(),
        ensures
            r@ == self@.source_files[i as int],
    {
        &self.source_files[i]
    }
}

impl Default for TestedRoot {
    /// An empty root: empty prefix and key, fallback name, nothing inside.
    fn default() -> (r: Self)
        ensures
            r@ == spec_empty_root(Seq::empty(), Seq::empty()),
            root_wf(r@),
    {
        proof {
            reveal_strlit("Test report");
        }
        let r = TestedRoot {
            key: String::new(),
            name: String::from_str("Test report"),
            modules: Vec::new(),
            source_files: Vec::new(),
            aggregated: AggregatedCoverage::default(),
            prefix: String::new(),
        };
        proof {
            assert(components(Seq::<char>::empty()) =~= Seq::<Seq<char>>::empty());
            assert(modules_view(r.modules@) =~= Seq::<ModuleView>::empty());
            assert(r@.source_files =~= Seq::<FileView>::empty());
            assert(r@ =~= spec_empty_root(Seq::empty(), Seq::empty()));
        }
        r
    }
}

/// Tests whether the summed aggregate of the records kept under the given
/// prefix stays within the counters' range, so that a whole tree can be
/// built from them.
pub fn records_fit(records: &Vec<FileRecord>, prefix: &str) -> (r: bool)
    ensures
        r == t6_fits(
            records_total(
                crate::input::records_view(records@),
                components(prefix@).len(),
            ),
        ),
{
    let ghost all = crate::input::records_view(records@);
    let ghost plen = components(prefix@).len();
    let prefix_comps = split_path(prefix);
    let mut a0: u64 = 0;
    let mut a1: u64 = 0;
    let mut a2: u64 = 0;
    let mut a3: u64 = 0;
    let mut a4: u64 = 0;
    let mut a5: u64 = 0;
    let mut i: usize = 0;
    proof {
        assert(all.take(0) =~= Seq::<
            (Seq<char>, Seq<(u32, u64)>, Seq<(Seq<char>, u64)>, Seq<Option<u64>>),
        >::empty());
    }
    while i < records.len()
        invariant
            i <= records.len(),
            all == crate::input::records_view(records@),
            all.len() == records.len(),
            forall|j: int| 0 <= j < records@.len() ==> records@[j].deep_view() == all[j],
            prefix_comps.deep_view() == components(prefix@),
            plen == components(prefix@).len(),
            a0 <= u32::MAX && a1 <= u32::MAX && a2 <= u32::MAX && a3 <= u32::MAX && a4 <= u32::MAX
                && a5 <= u32::MAX,
            records_total(all.take(i as int), plen) == (
                a0 as int,
                a1 as int,
                a2 as int,
                a3 as int,
                a4 as int,
                a5 as int,
            ),
        decreases records.len() - i,
    {
        proof {
            assert(all.take(i + 1).drop_last() =~= all.take(i as int));
            assert(all.take(i + 1).last() == all[i as int]);
        }
        let path_comps = split_path(records[i].path.as_str());
        proof {
            assert(all[i as int] == records@[i as int].deep_view());
            assert(all[i as int].0 == records@[i as int].path@);
            assert(path_comps.deep_view() == components(all[i as int].0));
        }
        if path_comps.len() > prefix_comps.len() {
            let agg = AggregatedCoverage::from_record(&records[i]);
            proof {
                assert(kept(all[i as int].0, plen));
                assert(agg == record_aggregate(
                    all[i as int].1,
                    all[i as int].2,
                    all[i as int].3,
                ));
            }
            a0 = a0 + agg.lines.count as u64;
            a1 = a1 + agg.lines.covered_count as u64;
            a2 = a2 + agg.functions.count as u64;
            a3 = a3 + agg.functions.covered_count as u64;
            a4 = a4 + agg.branches.count as u64;
            a5 = a5 + agg.branches.covered_count as u64;
            proof {
                assert(records_total(all.take(i + 1), plen) == (
                    a0 as int,
                    a1 as int,
                    a2 as int,
                    a3 as int,
                    a4 as int,
                    a5 as int,
                ));
            }
            if a0 > u32::MAX as u64 || a1 > u32::MAX as u64 || a2 > u32::MAX as u64 || a3
                > u32::MAX as u64 || a4 > u32::MAX as u64 || a5 > u32::MAX as u64 {
                proof {
                    lemma_records_total_grows(all, plen, i + 1);
                    assert(!t6_fits(records_total(all, plen)));
                }
                return false;
            }
        } else {
            proof {
                assert(!kept(all[i as int].0, plen));
                assert(records_total(all.take(i + 1), plen) == records_total(
                    all.take(i as int),
                    plen,
                ));
            }
        }
        i = i + 1;
    }
    proof {
        assert(all.take(records@.len() as int) =~= all);
        assert(t6_fits(records_total(all, plen)));
    }
    true
}

/// The total over all records dominates the total over any prefix of them.
pub proof fn lemma_records_total_grows(
    records: Seq<(Seq<char>, Seq<(u32, u64)>, Seq<(Seq<char>, u64)>, Seq<Option<u64>>)>,
    prefix_len: nat,
    i: int,
)
    requires
        0 <= i <= records.len(),
    ensures
        t6_le(records_total(records.take(i), prefix_len), records_total(records, prefix_len)),
    decreases records.len() - i,
{
    if i == records.len() {
        assert(records.take(i) =~= records);
    } else {
        lemma_records_total_grows(records, prefix_len, i + 1);
        assert(records.take(i + 1).drop_last() =~= records.take(i));
        assert(records.take(i + 1).last() == records[i]);
        lemma_record_aggregate_nonneg(records[i]);
        lemma_records_total_nonneg(records.take(i), prefix_len);
    }
}


/// The contribution of one record to the root total: its aggregate when it
/// is kept, nothing when it is dropped.
pub open spec fn record_contribution(
    rec: (Seq<char>, Seq<(u32, u64)>, Seq<(Seq<char>, u64)>, Seq<Option<u64>>),
    prefix_len: nat,
) -> (int, int, int, int, int, int) {
    if kept(rec.0, prefix_len) {
        cov_totals(record_aggregate(rec.1, rec.2, rec.3))
    } else {
        t6_zero()
    }
}

/// Removing one record takes exactly its contribution out of the total.
pub proof fn lemma_records_total_remove(
    records: Seq<(Seq<char>, Seq<(u32, u64)>, Seq<(Seq<char>, u64)>, Seq<Option<u64>>)>,
    prefix_len: nat,
    j: int,
)
    requires
        0 <= j < records.len(),
    ensures
        records_total(records, prefix_len) == t6_add(
            records_total(records.remove(j), prefix_len),
            record_contribution(records[j], prefix_len),
        ),
    decreases records.len(),
{
    if j == records.len() - 1 {
        assert(records.remove(j) =~= records.drop_last());
    } else {
        lemma_records_total_remove(records.drop_last(), prefix_len, j);
        assert(records.remove(j).drop_last() =~= records.drop_last().remove(j));
        assert(records.remove(j).last() == records.last());
    }
}

/// The root's total over a set of records does not depend on the order in
/// which they are inserted: two inputs whose records are the same multiset
/// aggregate to the same totals.
pub proof fn lemma_records_total_order_independent(
    rs1: Seq<(Seq<char>, Seq<(u32, u64)>, Seq<(Seq<char>, u64)>, Seq<Option<u64>>)>,
    rs2: Seq<(Seq<char>, Seq<(u32, u64)>, Seq<(Seq<char>, u64)>, Seq<Option<u64>>)>,
    prefix_len: nat,
)
    requires
        rs1.to_multiset() == rs2.to_multiset(),
    ensures
        records_total(rs1, prefix_len) == records_total(rs2, prefix_len),
    decreases rs1.len(),
{
    broadcast use vstd::seq_lib::group_to_multiset_ensures;

    if rs1.len() == 0 {
        assert(rs2.to_multiset().len() == 0);
        assert(rs2.len() == 0);
    } else {
        let x = rs1.last();
        assert(rs1 =~= rs1.drop_last().push(x));
        assert(rs1.to_multiset().count(x) > 0);
        assert(rs2.to_multiset().count(x) > 0);
        assert(rs2.contains(x));
        let j = choose|j: int| 0 <= j < rs2.len() && rs2[j] == x;
        assert(rs2.remove(j).to_multiset() =~= rs2.to_multiset().remove(x));
        assert(rs1.drop_last().push(x).to_multiset() =~= rs1.drop_last().to_multiset().insert(x));
        assert(rs1.drop_last().to_multiset() =~= rs1.to_multiset().remove(x));
        lemma_records_total_order_independent(rs1.drop_last(), rs2.remove(j), prefix_len);
        lemma_records_total_remove(rs2, prefix_len, j);
    }
}

/// The root's aggregate is independent of insertion order: trees built from
/// two orderings of the same records end with the same aggregate.
pub proof fn lemma_root_aggregate_order_independent(
    rs1: Seq<(Seq<char>, Seq<(u32, u64)>, Seq<(Seq<char>, u64)>, Seq<Option<u64>>)>,
    rs2: Seq<(Seq<char>, Seq<(u32, u64)>, Seq<(Seq<char>, u64)>, Seq<Option<u64>>)>,
    prefix: Seq<char>,
    key: Seq<char>,
)
    requires
        rs1.to_multiset() == rs2.to_multiset(),
        t6_fits(records_total(rs1, components(prefix).len())),
    ensures
        spec_build_root(rs1, prefix, key).aggregated == spec_build_root(
            rs2,
            prefix,
            key,
        ).aggregated,
{
    let plen = components(prefix).len();
    lemma_records_total_order_independent(rs1, rs2, plen);
    lemma_build_root_wf(rs1, prefix, key);
    lemma_build_root_wf(rs2, prefix, key);
}

/// Building a tree is a function of the records alone: two trees built from
/// the same record sequence, under the same prefix and key, are equal in
/// every node, leaf and counter.
pub proof fn lemma_build_deterministic(
    a: RootView,
    b: RootView,
    records: Seq<(Seq<char>, Seq<(u32, u64)>, Seq<(Seq<char>, u64)>, Seq<Option<u64>>)>,
    prefix: Seq<char>,
    key: Seq<char>,
)
    requires
        a == spec_build_root(records, prefix, key),
        b == spec_build_root(records, prefix, key),
    ensures
        a == b,
{
}


impl TestedRoot {
    /// Every tested file in the tree: the child modules' subtrees first in
    /// order, then the root's own files.
    #[verifier::rlimit(80)]
    pub fn enumerate_code_files(&self) -> (r: Vec<&TestedCodeFile>)
        ensures
            r.deep_view() == crate::tested_module::all_files_of(self@.modules)
                + self@.source_files,
    {
        let mut out: Vec<&TestedCodeFile> = Vec::new();
        let ghost mods = self@.modules;
        let mut j: usize = 0;
        proof {
            lemma_modules_view(self.modules@);
            assert(crate::tested_module::all_files_of(mods.take(0)) =~= Seq::<FileView>::empty());
            assert(out.deep_view() =~= crate::tested_module::all_files_of(mods.take(0)));
        }
        while j < self.modules.len()
            invariant
                j <= self.modules@.len(),
                mods == self@.modules,
                mods.len() == self.modules@.len(),
                out.deep_view() == crate::tested_module::all_files_of(mods.take(j as int)),
            decreases self.modules@.len() - j,
        {
            let child = &self.modules[j];
            proof {
                lemma_modules_view(self.modules@);
                assert(child@ == mods[j as int]);
            }
            let sub = child.enumerate_code_files();
            let ghost sub_view = sub.deep_view();
            let mut k: usize = 0;
            let ghost base = out.deep_view();
            proof {
                assert(base + sub_view.take(0) =~= base);
            }
            while k < sub.len()
                invariant
                    k <= sub@.len(),
                    sub_view == sub.deep_view(),
                    sub_view.len() == sub@.len(),
                    out.deep_view() == base + sub_view.take(k as int),
                decreases sub@.len() - k,
            {
                let ghost before = out.deep_view();
                out.push(sub[k]);
                k = k + 1;
                proof {
                    assert(out.deep_view() =~= before.push(sub_view[k - 1]));
                    assert(out.deep_view() =~= base + sub_view.take(k as int));
                }
            }
            j = j + 1;
            proof {
                assert(sub_view.take(sub_view.len() as int) =~= sub_view);
                assert(mods.take(j as int).drop_last() =~= mods.take(j - 1));
                assert(mods.take(j as int).last() == mods[j - 1]);
                assert(out.deep_view() =~= crate::tested_module::all_files_of(mods.take(j as int)));
            }
        }
        proof {
            assert(mods.take(mods.len() as int) =~= mods);
        }
        let ghost files = self@.source_files;
        let ghost base = out.deep_view();
        let mut i: usize = 0;
        proof {
            assert(base + files.take(0) =~= base);
        }
        while i < self.source_files.len()
            invariant
                i <= self.source_files@.len(),
                files == self@.source_files,
                files.len() == self.source_files@.len(),
                base == crate::tested_module::all_files_of(self@.modules),
                out.deep_view() == base + files.take(i as int),
            decreases self.source_files@.len() - i,
        {
            let ghost before = out.deep_view();
            out.push(&self.source_files[i]);
            i = i + 1;
            proof {
                assert(out.deep_view() =~= before.push(files[i - 1]));
                assert(out.deep_view() =~= base + files.take(i as int));
            }
        }
        proof {
            assert(files.take(files.len() as int) =~= files);
        }
        out
    }
}

/// No two sibling modules anywhere in the tree share a name.
pub open spec fn root_names_distinct(r: RootView) -> bool {
    &&& crate::tested_module::distinct_sibling_names(r.modules)
    &&& forall|i: int|
        0 <= i < r.modules.len() ==> crate::tested_module::module_names_distinct(
            #[trigger] r.modules[i],
        )
}

/// Inserting one record keeps sibling module names distinct at every node.
pub proof fn lemma_root_add_record_names_distinct(
    root: RootView,
    rec: (Seq<char>, Seq<(u32, u64)>, Seq<(Seq<char>, u64)>, Seq<Option<u64>>),
)
    requires
        root_names_distinct(root),
    ensures
        root_names_distinct(spec_root_add_record(root, rec)),
{
    let plen = components(root.prefix).len();
    let rel = rel_of(rec.0, plen);
    let file = record_leaf_view(rec, root.prefix, root.key);
    let r = spec_root_add(root, file, rel);
    if rel.len() <= 1 {
    } else {
        let child_name = rel[0];
        let queue = rel.subrange(1, rel.len() - 1);
        let k = find_named(root.modules, child_name);
        lemma_find_named(root.modules, child_name);
        if k < root.modules.len() {
            let child = root.modules[k];
            crate::tested_module::lemma_add_file_names_distinct(child, queue, file);
            let child2 = spec_add_file(child, queue, file);
            assert(child2.name == child.name);
            assert(forall|i: int|
                0 <= i < r.modules.len() && i != k ==> r.modules[i] == root.modules[i]);
            assert(forall|i: int| 0 <= i < r.modules.len() ==> (#[trigger] r.modules[i]).name
                == root.modules[i].name);
            assert(crate::tested_module::distinct_sibling_names(r.modules));
            assert(forall|i: int|
                0 <= i < r.modules.len() ==> crate::tested_module::module_names_distinct(
                    #[trigger] r.modules[i],
                ));
        } else {
            let fresh = spec_new_module(root_child_path(root.key, child_name), child_name);
            crate::tested_module::lemma_add_file_names_distinct(fresh, queue, file);
            let sub = spec_add_file(fresh, queue, file);
            assert(sub.name == child_name);
            assert(forall|j: int| 0 <= j < root.modules.len() ==> (
            #[trigger] root.modules[j]).name != child_name);
            assert(forall|i: int|
                0 <= i < root.modules.len() ==> r.modules[i] == root.modules[i]);
            assert(crate::tested_module::distinct_sibling_names(r.modules));
            assert(forall|i: int|
                0 <= i < r.modules.len() ==> crate::tested_module::module_names_distinct(
                    #[trigger] r.modules[i],
                ));
        }
    }
}

/// No two sibling modules of a built tree ever share a name, whatever the
/// records: insertion reuses the first child of each name and appends a
/// fresh child only when the name is new among its siblings.
pub proof fn lemma_build_root_names_distinct(
    records: Seq<(Seq<char>, Seq<(u32, u64)>, Seq<(Seq<char>, u64)>, Seq<Option<u64>>)>,
    prefix: Seq<char>,
    key: Seq<char>,
)
    ensures
        root_names_distinct(spec_build_root(records, prefix, key)),
    decreases records.len(),
{
    if records.len() == 0 {
    } else {
        lemma_build_root_names_distinct(records.drop_last(), prefix, key);
        lemma_root_add_record_names_distinct(
            spec_build_root(records.drop_last(), prefix, key),
            records.last(),
        );
    }
}
/// Every prefix of the records keeps its total within range when the whole
/// sequence does.
pub proof fn lemma_records_total_prefix_fits(
    records: Seq<(Seq<char>, Seq<(u32, u64)>, Seq<(Seq<char>, u64)>, Seq<Option<u64>>)>,
    prefix_len: nat,
    i: int,
)
    requires
        0 <= i <= records.len(),
        t6_fits(records_total(records, prefix_len)),
    ensures
        t6_fits(records_total(records.take(i), prefix_len)),
        t6_le(records_total(records.take(i), prefix_len), records_total(records, prefix_len)),
    decreases records.len() - i,
{
    if i == records.len() {
        assert(records.take(i) =~= records);
    } else {
        lemma_records_total_prefix_fits(records, prefix_len, i + 1);
        let a = records.take(i);
        let b = records.take(i + 1);
        assert(b.drop_last() =~= a);
        assert(b.last() == records[i]);
        lemma_record_aggregate_nonneg(records[i]);
        lemma_records_total_nonneg(a, prefix_len);
    }
}

} // verus!
