use vstd::prelude::*;

use crate::paths::common_prefix_len;
use crate::paths::common_prefix_length;
use crate::paths::components;
use crate::paths::joined;
use crate::paths::join_path;
use crate::paths::split_path;
use crate::records::report_records;
use crate::records::report_sections;
use crate::records::FileRecord;

verus! {

/// One coverage input: its file records, the root prefix to strip, an
/// optional display name, and the output key assigned to it.
#[derive(Debug)]
pub struct AggregatorInput {
    pub records: Vec<FileRecord>,
    pub prefix: String,
    pub name: Option<String>,
    pub key: String,
}

/// The records of a sequence of file records, as mathematical values.
pub open spec fn records_view(records: Seq<FileRecord>) -> Seq<
    (Seq<char>, Seq<(u32, u64)>, Seq<(Seq<char>, u64)>, Seq<Option<u64>>),
> {
    Seq::new(records.len(), |i: int| records[i].deep_view())
}

/// The directory part of a path: its components with the file name dropped.
pub open spec fn dir_components(path: Seq<char>) -> Seq<Seq<char>> {
    if components(path).len() == 0 {
        Seq::empty()
    } else {
        components(path).drop_last()
    }
}

/// The longest common prefix of two component sequences.
pub open spec fn lcp2(a: Seq<Seq<char>>, b: Seq<Seq<char>>) -> Seq<Seq<char>> {
    a.take(common_prefix_len(a, b) as int)
}

/// The longest prefix shared by every record's directory, folded over the
/// records in order; empty when there are no records or the first components
/// already disagree.
pub open spec fn longest_prefix(records: Seq<FileRecord>) -> Seq<Seq<char>>
    decreases records.len(),
{
    if records.len() == 0 {
        Seq::empty()
    } else if records.len() == 1 {
        dir_components(records[0].path@)
    } else {
        lcp2(longest_prefix(records.drop_last()), dir_components(records.last().path@))
    }
}

/// Whether a record path starts with the given prefix components.
pub open spec fn path_has_prefix(path: Seq<char>, prefix_comps: Seq<Seq<char>>) -> bool {
    prefix_comps.len() <= components(path).len() && components(path).take(prefix_comps.len() as int)
        == prefix_comps
}

/// The message naming a path that does not start with the declared prefix.
pub open spec fn prefix_error_message(prefix: Seq<char>, path: Seq<char>) -> Seq<char> {
    "Some tested files do not start with the prefix '"@ + prefix + "'. For example, "@ + path
}

impl AggregatorInput {
    /// Takes a parsed report in, converting each section to a plain record;
    /// prefix, name and key start out empty.
    pub fn new(report: lcov::report::Report) -> (r: Self)
        ensures
            records_view(r.records@) == report_sections(report),
            r.prefix@ == Seq::<char>::empty(),
            r.key@ == Seq::<char>::empty(),
            r.name is None,
    {
        let records = report_records(&report);
        proof {
            assert(records_view(records@) =~= report_sections(report));
        }
        AggregatorInput { records, prefix: String::new(), name: None, key: String::new() }
    }

    /// The records of this input.
    pub fn list_records(&self) -> (r: &Vec<FileRecord>)
        ensures
            r == self.records,
    {
        &self.records
    }

    /// Declares an explicit root prefix, validating that every record's path
    /// starts with it; the error names the prefix and the first path that
    /// does not.
    pub fn with_prefix(self, prefix: &str) -> (r: Result<AggregatorInput, String>)
        ensures
            (forall|i: int|
                0 <= i < self.records@.len() ==> path_has_prefix(
                    (#[trigger] self.records@[i]).path@,
                    components(prefix@),
                )) <==> r is Ok,
            r matches Ok(out) ==> out.records == self.records && out.prefix@ == prefix@ && out.key
                == self.key && out.name == self.name,
            r matches Err(msg) ==> exists|i: int|
                {
                    &&& 0 <= i < self.records@.len()
                    &&& !path_has_prefix((#[trigger] self.records@[i]).path@, components(prefix@))
                    &&& msg@ == prefix_error_message(prefix@, self.records@[i].path@)
                },
    {
        let prefix_comps = split_path(prefix);
        let mut i: usize = 0;
        while i < self.records.len()
            invariant
                i <= self.records@.len(),
                prefix_comps.deep_view() == components(prefix@),
                forall|j: int|
                    0 <= j < i ==> path_has_prefix(
                        (#[trigger] self.records@[j]).path@,
                        components(prefix@),
                    ),
            decreases self.records@.len() - i,
        {
            let path_comps = split_path(self.records[i].path.as_str());
            if !starts_with_components(&path_comps, &prefix_comps) {
                let mut msg = String::from_str(
                    "Some tested files do not start with the prefix '",
                );
                msg.append(prefix);
                msg.append("'. For example, ");
                msg.append(self.records[i].path.as_str());
                proof {
                    reveal_strlit("Some tested files do not start with the prefix '");
                    reveal_strlit("'. For example, ");
                    assert(msg@ =~= prefix_error_message(prefix@, self.records@[i as int].path@));
                }
                return Err(msg);
            }
            i = i + 1;
        }
        Ok(
            AggregatorInput {
                records: self.records,
                prefix: String::from_str(prefix),
                name: self.name,
                key: self.key,
            },
        )
    }

    /// Replaces the output key.
    pub fn with_key(self, key: &str) -> (r: AggregatorInput)
        ensures
            r.records == self.records,
            r.prefix == self.prefix,
            r.name == self.name,
            r.key@ == key@,
    {
        AggregatorInput {
            records: self.records,
            prefix: self.prefix,
            name: self.name,
            key: String::from_str(key),
        }
    }

    /// Replaces the display name.
    pub fn with_name(self, name: &str) -> (r: AggregatorInput)
        ensures
            r.records == self.records,
            r.prefix == self.prefix,
            r.key == self.key,
            r.name matches Some(n) && n@ == name@,
    {
        AggregatorInput {
            records: self.records,
            prefix: self.prefix,
            name: Some(String::from_str(name)),
            key: self.key,
        }
    }

    /// The longest prefix shared by every record's directory.
    pub fn find_longest_prefix(&self) -> (r: String)
        ensures
            r@ == joined(longest_prefix(self.records@)),
    {
        if self.records.len() == 0 {
            proof {
                assert(joined(longest_prefix(self.records@)) =~= Seq::<char>::empty());
            }
            return String::new();
        }
        let mut prefix: Vec<String> = dir_components_of(self.records[0].path.as_str());
        let mut i: usize = 1;
        while i < self.records.len()
            invariant
                1 <= i <= self.records@.len(),
                self.records@.len() > 0,
                prefix.deep_view() == longest_prefix(self.records@.take(i as int)),
            decreases self.records@.len() - i,
        {
            let dirs = dir_components_of(self.records[i].path.as_str());
            let k = common_prefix_length(&prefix, &dirs);
            let ghost before = prefix.deep_view();
            proof {
                crate::paths::lemma_common_prefix_len(prefix.deep_view(), dirs.deep_view());
            }
            prefix.truncate(k);
            i = i + 1;
            proof {
                assert(prefix.deep_view() =~= before.take(k as int));
                assert(self.records@.take(i as int).drop_last() =~= self.records@.take(i - 1));
                assert(self.records@.take(i as int).last() == self.records@[i - 1]);
                assert(prefix.deep_view() =~= longest_prefix(self.records@.take(i as int)));
            }
        }
        proof {
            assert(self.records@.take(self.records@.len() as int) =~= self.records@);
        }
        join_path(&prefix)
    }

    /// Infers the prefix as the longest common prefix of the records.
    pub fn with_longest_prefix(self) -> (r: AggregatorInput)
        ensures
            r.records == self.records,
            r.name == self.name,
            r.key == self.key,
            r.prefix@ == joined(longest_prefix(self.records@)),
    {
        let prefix = self.find_longest_prefix();
        AggregatorInput { prefix, records: self.records, name: self.name, key: self.key }
    }

    pub fn get_prefix(&self) -> (r: &String)
        ensures
            r == self.prefix,
    {
        &self.prefix
    }

    pub fn get_key(&self) -> (r: &String)
        ensures
            r == self.key,
    {
        &self.key
    }

    /// The display name: the given one, or the last prefix component.
    pub fn get_name(&self) -> (r: String)
        ensures
            self.name matches Some(n) ==> r@ == n@,
            self.name is None ==> r@ == last_part_of(self.prefix@),
    {
        match &self.name {
            Some(n) => n.clone(),
            None => self.last_part_of_prefix(),
        }
    }

    /// The last component of the prefix, or the empty string when the prefix
    /// has no components.
    pub fn last_part_of_prefix(&self) -> (r: String)
        ensures
            r@ == last_part_of(self.prefix@),
    {
        let comps = split_path(self.prefix.as_str());
        if comps.len() == 0 {
            String::new()
        } else {
            let mut out = comps;
            let r = out.pop().unwrap();
            r
        }
    }
}

/// The last component of a path, or the empty sequence.
pub open spec fn last_part_of(path: Seq<char>) -> Seq<char> {
    if components(path).len() == 0 {
        Seq::empty()
    } else {
        components(path).last()
    }
}

/// The directory components of a path string.
fn dir_components_of(path: &str) -> (r: Vec<String>)
    ensures
        r.deep_view() == dir_components(path@),
{
    let mut comps = split_path(path);
    if comps.len() > 0 {
        let _last = comps.pop();
        proof {
            assert(comps.deep_view() =~= dir_components(path@));
        }
    }
    comps
}

/// Whether one component vector starts with another.
fn starts_with_components(path_comps: &Vec<String>, prefix_comps: &Vec<String>) -> (r: bool)
    ensures
        r == (prefix_comps.deep_view().len() <= path_comps.deep_view().len()
            && path_comps.deep_view().take(prefix_comps.deep_view().len() as int)
            == prefix_comps.deep_view()),
{
    if prefix_comps.len() > path_comps.len() {
        return false;
    }
    let k = common_prefix_length(path_comps, prefix_comps);
    proof {
        crate::paths::lemma_common_prefix_len(path_comps.deep_view(), prefix_comps.deep_view());
        if k == prefix_comps.deep_view().len() {
            assert(path_comps.deep_view().take(prefix_comps.deep_view().len() as int)
                =~= prefix_comps.deep_view());
        } else {
            assert(path_comps.deep_view().take(prefix_comps.deep_view().len() as int)[k as int]
                != prefix_comps.deep_view()[k as int]);
        }
    }
    k == prefix_comps.len()
}

/// The candidate key of each input: the last component of its prefix.
pub open spec fn wanted_keys(inputs: Seq<AggregatorInput>) -> Seq<Seq<char>> {
    Seq::new(inputs.len(), |i: int| last_part_of(inputs[i].prefix@))
}

/// How many of the keys equal the given one.
pub open spec fn key_count(keys: Seq<Seq<char>>, k: Seq<char>) -> nat
    decreases keys.len(),
{
    if keys.len() == 0 {
        0
    } else {
        key_count(keys.drop_last(), k) + if keys.last() == k {
            1nat
        } else {
            0nat
        }
    }
}

/// The key assigned to the input at an index: its candidate key, suffixed
/// with an underscore and its one-based rank among equal candidates when the
/// candidate occurs more than once, and bare otherwise.
pub open spec fn spec_dedup_key(keys: Seq<Seq<char>>, i: int) -> Seq<char> {
    if key_count(keys, keys[i]) > 1 {
        keys[i] + "_"@ + crate::text::dec_str((key_count(keys.take(i), keys[i]) + 1) as nat)
    } else {
        keys[i]
    }
}

/// Counts the keys before `upto` that equal the given one.
fn count_keys_before(keys: &Vec<String>, k: &str, upto: usize) -> (r: usize)
    requires
        upto <= keys@.len(),
    ensures
        r == key_count(keys.deep_view().take(upto as int), k@),
        r <= upto,
{
    let mut n: usize = 0;
    let mut i: usize = 0;
    proof {
        assert(keys.deep_view().take(0) =~= Seq::<Seq<char>>::empty());
    }
    while i < upto
        invariant
            i <= upto,
            upto <= keys@.len(),
            keys.deep_view().len() == keys@.len(),
            n == key_count(keys.deep_view().take(i as int), k@),
            n <= i,
        decreases upto - i,
    {
        proof {
            assert(keys.deep_view().take(i + 1).drop_last() =~= keys.deep_view().take(i as int));
            assert(keys.deep_view().take(i + 1).last() == keys.deep_view()[i as int]);
        }
        if crate::text::str_eq(keys[i].as_str(), k) {
            n = n + 1;
        }
        i = i + 1;
    }
    n
}

impl AggregatorInput {
    /// Assigns each input its output key. The candidate is the last prefix
    /// component; a candidate that several inputs share gets an underscore
    /// and a one-based counter in input order, while unique candidates stay
    /// bare. The result is deterministic for a fixed input order, so reruns
    /// name the same output paths.
    pub fn build_from_inputs(inputs: Vec<AggregatorInput>) -> (r: Vec<AggregatorInput>)
        ensures
            r@.len() == inputs@.len(),
            forall|i: int|
                0 <= i < r@.len() ==> {
                    &&& (#[trigger] r@[i]).records == inputs@[i].records
                    &&& r@[i].prefix == inputs@[i].prefix
                    &&& r@[i].name == inputs@[i].name
                    &&& r@[i].key@ == spec_dedup_key(wanted_keys(inputs@), i)
                },
    {
        let ghost original = inputs@;
        let mut keys: Vec<String> = Vec::new();
        let mut i: usize = 0;
        let n = inputs.len();
        while i < n
            invariant
                i <= n,
                n == inputs@.len(),
                inputs@ == original,
                keys.deep_view() == wanted_keys(original).take(i as int),
            decreases n - i,
        {
            let ghost before = keys.deep_view();
            let k = inputs[i].last_part_of_prefix();
            keys.push(k);
            i = i + 1;
            proof {
                assert(keys.deep_view() =~= before.push(last_part_of(original[i - 1].prefix@)));
                assert(keys.deep_view() =~= wanted_keys(original).take(i as int));
            }
        }
        proof {
            assert(keys.deep_view() =~= wanted_keys(original));
        }

        let mut out: Vec<AggregatorInput> = Vec::new();
        let mut remaining = inputs;
        let mut i: usize = 0;
        while i < n
            invariant
                i <= n,
                n == original.len(),
                keys.deep_view() == wanted_keys(original),
                keys@.len() == n,
                remaining@.len() == n - i,
                forall|j: int| 0 <= j < remaining@.len() ==> remaining@[j] == original[i + j],
                out@.len() == i,
                forall|j: int|
                    0 <= j < i ==> {
                        &&& (#[trigger] out@[j]).records == original[j].records
                        &&& out@[j].prefix == original[j].prefix
                        &&& out@[j].name == original[j].name
                        &&& out@[j].key@ == spec_dedup_key(wanted_keys(original), j)
                    },
            decreases n - i,
        {
            let input = remaining.remove(0);
            proof {
                assert(input == original[i as int]);
                assert(forall|j: int|
                    0 <= j < remaining@.len() ==> remaining@[j] == original[i + 1 + j]);
            }
            let total = count_keys_before(&keys, keys[i].as_str(), n);
            proof {
                assert(keys.deep_view().take(n as int) =~= keys.deep_view());
            }
            let key = if total > 1 {
                let rank = count_keys_before(&keys, keys[i].as_str(), i);
                let mut key = keys[i].clone();
                key.append("_");
                let counter = crate::text::u64_to_dec_string((rank as u64) + 1);
                key.append(counter.as_str());
                proof {
                    reveal_strlit("_");
                    assert(key@ =~= spec_dedup_key(wanted_keys(original), i as int));
                }
                key
            } else {
                let key = keys[i].clone();
                proof {
                    assert(key@ =~= spec_dedup_key(wanted_keys(original), i as int));
                }
                key
            };
            let with_key = AggregatorInput {
                records: input.records,
                prefix: input.prefix,
                name: input.name,
                key,
            };
            out.push(with_key);
            i = i + 1;
        }
        out
    }
}

} // verus!
