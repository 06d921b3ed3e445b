use vstd::prelude::*;

use crate::paths::components;
use crate::paths::joined;
use crate::paths::plain_component;
use crate::paths::plain_components;
use crate::paths::relative_components;
use crate::paths::split_path;

verus! {

/// One hyperlink: its target, relative to the page being rendered, and its
/// label.
#[derive(Debug, PartialEq)]
pub struct LinkPayload {
    pub link: String,
    pub text: String,
}

/// A node's position in the report tree, as the link computation sees it:
/// display name, tree path, and whether the node is directory-like.
#[derive(Debug, PartialEq)]
pub struct NodeLocation {
    pub name: String,
    pub path: String,
    pub is_dir: bool,
}

/// The mathematical shape of a position.
#[verifier::ext_equal]
pub struct LocationView {
    pub name: Seq<char>,
    pub path: Seq<char>,
    pub is_dir: bool,
}

impl View for NodeLocation {
    type V = LocationView;

    open spec fn view(&self) -> LocationView {
        LocationView { name: self.name@, path: self.path@, is_dir: self.is_dir }
    }
}

impl NodeLocation {
    pub fn new(name: &str, path: &str, is_dir: bool) -> (r: Self)
        ensures
            r@.name == name@,
            r@.path == path@,
            r@.is_dir == is_dir,
    {
        NodeLocation { name: String::from_str(name), path: String::from_str(path), is_dir }
    }
}

/// Whether a position's path is made of plain components, so that relative
/// links to and from it are meaningful.
pub open spec fn clean_location(l: LocationView) -> bool {
    plain_components(components(l.path))
}

/// The directory a node's page lives in: the node's own path for a
/// directory-like node, its parent for a file.
pub open spec fn page_dir(l: LocationView) -> Seq<Seq<char>> {
    if l.is_dir {
        components(l.path)
    } else {
        components(l.path).drop_last()
    }
}

/// The link to the index page of `target`, relative to the directory
/// `from_dir`.
pub open spec fn index_link(target: Seq<Seq<char>>, from_dir: Seq<Seq<char>>) -> Seq<char> {
    let rel = relative_components(target, from_dir);
    if rel.len() == 0 {
        "index.html"@
    } else {
        joined(rel) + seq!['/'] + "index.html"@
    }
}

/// The link to the detail page of the file `target`, relative to the
/// directory of `root`: the relative path with the page extension appended,
/// never substituted, so a file cannot collide with a same-named directory.
pub open spec fn file_link(target: Seq<Seq<char>>, root: Seq<Seq<char>>) -> Seq<char> {
    joined(relative_components(target, root)) + ".html"@
}

/// Relies on `pathdiff::diff_paths`: for two relative paths whose components
/// are plain names (non-empty, no separator, no dot step), the result is one
/// parent step per component of `base` past the shared prefix, then the
/// remainder of `target`. The joined form assumes the platform's path
/// separator is the slash.
#[verifier::external_body]
fn diff_component_paths(target: &Vec<String>, base: &Vec<String>) -> (r: String)
    requires
        plain_components(target.deep_view()),
        plain_components(base.deep_view()),
    ensures
        r@ == joined(relative_components(target.deep_view(), base.deep_view())),
{
    let t: std::path::PathBuf = target.iter().collect();
    let b: std::path::PathBuf = base.iter().collect();
    match pathdiff::diff_paths(&t, &b) {
        Some(p) => p.to_string_lossy().into_owned(),
        None => String::new(),
    }
}

/// Computes breadcrumbs, direct links and shared-resource links for the
/// multi-page report, each relative to the target page's own location.
pub struct MpaLinksComputer;

impl MpaLinksComputer {
    /// The link to a node's own page, seen from the root's directory:
    /// directory-like nodes point at their index page, files at a detail page
    /// named after the file with the page extension appended.
    pub fn get_link_to(&self, root: &NodeLocation, file: &NodeLocation) -> (r: LinkPayload)
        requires
            clean_location(root@),
            clean_location(file@),
        ensures
            r.text@ == file@.name,
            file@.is_dir ==> r.link@ == index_link(
                components(file@.path),
                components(root@.path),
            ),
            !file@.is_dir ==> r.link@ == file_link(components(file@.path), components(root@.path)),
    {
        let file_comps = split_path(file.path.as_str());
        let root_comps = split_path(root.path.as_str());
        proof {
            assert(plain_components(file_comps.deep_view()));
            assert(plain_components(root_comps.deep_view()));
        }
        let rel = diff_component_paths(&file_comps, &root_comps);
        proof {
            let rc = relative_components(components(file@.path), components(root@.path));
            crate::paths::lemma_relative_components_nonempty(
                components(file@.path),
                components(root@.path),
            );
            if rc.len() > 0 {
                crate::paths::lemma_joined_nonempty(rc);
            }
        }
        let link = if file.is_dir {
            join_index(rel)
        } else {
            let mut link = rel;
            link.append(".html");
            proof {
                reveal_strlit(".html");
            }
            link
        };
        LinkPayload { link, text: file.name.clone() }
    }

    /// The breadcrumbs for a node's page: one link per ancestor from the root
    /// (inclusive) down to the node's parent, each relative to the node's own
    /// page location; a page for the root itself has none.
    pub fn get_links_from_file(&self, root: &NodeLocation, file: &NodeLocation) -> (r: Vec<
        LinkPayload,
    >)
        requires
            clean_location(root@),
            clean_location(file@),
            !file@.is_dir ==> components(file@.path).len() > 0,
            components(root@.path).len() <= components(file@.path).len(),
            components(file@.path).take(components(root@.path).len() as int) == components(
                root@.path,
            ),
        ensures
            components(root@.path) == components(file@.path) ==> r@.len() == 0,
            components(root@.path) != components(file@.path) ==> {
                let fc = components(file@.path);
                let rl = components(root@.path).len() as int;
                &&& r@.len() == fc.len() - rl
                &&& forall|j: int|
                    0 <= j < r@.len() ==> (#[trigger] r@[j]).link@ == index_link(
                        fc.take(rl + j),
                        page_dir(file@),
                    )
                &&& forall|j: int|
                    1 <= j < r@.len() ==> (#[trigger] r@[j]).text@ == fc[rl + j - 1]
                &&& r@.len() > 0 ==> r@[0].text@ == root@.name
            },
    {
        let file_comps = split_path(file.path.as_str());
        let root_comps = split_path(root.path.as_str());
        let mut out: Vec<LinkPayload> = Vec::new();
        if file_comps.len() == root_comps.len() {
            proof {
                assert(components(file@.path) =~= components(root@.path));
            }
            return out;
        }
        let mut dir_comps: Vec<String> = copy_prefix(
            &file_comps,
            if file.is_dir {
                file_comps.len()
            } else {
                file_comps.len() - 1
            },
        );
        proof {
            if file@.is_dir {
                assert(dir_comps.deep_view() =~= page_dir(file@));
            } else {
                assert(dir_comps.deep_view() =~= page_dir(file@));
            }
        }
        let mut target: Vec<String> = copy_prefix(&root_comps, root_comps.len());
        let ghost fc = components(file@.path);
        let ghost rl = components(root@.path).len() as int;
        proof {
            assert(plain_components(page_dir(file@))) by {
                assert(forall|i: int|
                    0 <= i < page_dir(file@).len() ==> page_dir(file@)[i] == fc[i]);
            }
            assert(root_comps.deep_view().take(root_comps.deep_view().len() as int)
                =~= root_comps.deep_view());
            assert(target.deep_view() =~= fc.take(rl));
        }
        let mut j: usize = 0;
        let count = file_comps.len() - root_comps.len();
        while j < count
            invariant
                j <= count,
                count == fc.len() - rl,
                rl + count <= usize::MAX,
                0 <= rl <= fc.len(),
                fc == file_comps.deep_view(),
                file_comps@.len() == fc.len(),
                root_comps@.len() == rl,
                plain_components(fc),
                plain_components(page_dir(file@)),
                dir_comps.deep_view() == page_dir(file@),
                target.deep_view() == fc.take(rl + j),
                out@.len() == j,
                forall|k: int|
                    0 <= k < j ==> (#[trigger] out@[k]).link@ == index_link(
                        fc.take(rl + k),
                        page_dir(file@),
                    ),
                forall|k: int| 1 <= k < j ==> (#[trigger] out@[k]).text@ == fc[rl + k - 1],
                j > 0 ==> out@[0].text@ == root@.name,
            decreases count - j,
        {
            proof {
                assert(forall|i: int|
                    0 <= i < target.deep_view().len() ==> plain_component(
                        #[trigger] target.deep_view()[i],
                    ));
            }
            let rel = diff_component_paths(&target, &dir_comps);
            let link = join_index(rel);
            proof {
                let rc = relative_components(fc.take(rl + j), page_dir(file@));
                crate::paths::lemma_relative_components_nonempty(
                    fc.take(rl + j),
                    page_dir(file@),
                );
                if rc.len() > 0 {
                    crate::paths::lemma_joined_nonempty(rc);
                }
                assert(link@ == index_link(fc.take(rl + j), page_dir(file@)));
            }
            let text = if j == 0 {
                root.name.clone()
            } else {
                file_comps[root_comps.len() + j - 1].clone()
            };
            out.push(LinkPayload { link, text });
            let ghost before = target.deep_view();
            let next = file_comps[root_comps.len() + j].clone();
            proof {
                assert(next@ == fc[rl + j]);
            }
            target.push(next);
            j = j + 1;
            proof {
                assert(target.deep_view() =~= before.push(fc[rl + j - 1]));
                assert(target.deep_view() =~= fc.take(rl + j));
            }
        }
        out
    }

    /// The link from a node's page to a file in the shared resource
    /// directory, which sits beside the root.
    pub fn get_link_to_resource(
        &self,
        root: &NodeLocation,
        current: &NodeLocation,
        resource_name: &str,
    ) -> (r: String)
        requires
            clean_location(root@),
            clean_location(current@),
            !current@.is_dir ==> components(current@.path).len() > 0,
        ensures
            r@ == joined(
                relative_components(components(root@.path), page_dir(current@)).push(
                    "_resources"@,
                ).push(resource_name@),
            ),
    {
        let current_comps = split_path(current.path.as_str());
        let root_comps = split_path(root.path.as_str());
        let dir_comps: Vec<String> = copy_prefix(
            &current_comps,
            if current.is_dir {
                current_comps.len()
            } else {
                current_comps.len() - 1
            },
        );
        proof {
            assert(plain_components(root_comps.deep_view()));
            assert(dir_comps.deep_view() =~= page_dir(current@));
        }
        proof {
            assert(plain_components(dir_comps.deep_view()));
        }
        let rel = diff_component_paths(&root_comps, &dir_comps);
        let ghost rel_comps = relative_components(components(root@.path), page_dir(current@));
        let mut r = rel;
        if r.unicode_len() == 0 {
            proof {
                crate::paths::lemma_relative_components_nonempty(
                    components(root@.path),
                    page_dir(current@),
                );
                if rel_comps.len() > 0 {
                    crate::paths::lemma_joined_nonempty(rel_comps);
                }
                assert(rel_comps.len() == 0);
            }
            r.append("_resources");
        } else {
            r.append("/");
            r.append("_resources");
        }
        r.append("/");
        r.append(resource_name);
        proof {
            reveal_strlit("_resources");
            reveal_strlit("/");
            crate::paths::lemma_joined_push(rel_comps, "_resources"@);
            crate::paths::lemma_joined_push(rel_comps.push("_resources"@), resource_name@);
            assert(rel_comps.push("_resources"@).len() > 0);
            assert(r@ =~= joined(rel_comps.push("_resources"@).push(resource_name@)));
        }
        r
    }
}


/// Tests whether a position's path is made of plain components. Splitting
/// yields non-empty, separator-free parts by construction, so only the dot
/// steps remain to check; this lets an embedding program test the link
/// functions' preconditions on positions taken from a built tree.
pub fn location_is_clean(location: &NodeLocation) -> (r: bool)
    ensures
        r == clean_location(location@),
{
    let comps = split_path(location.path.as_str());
    proof {
        crate::paths::lemma_components_nonempty(location.path@);
    }
    let mut i: usize = 0;
    while i < comps.len()
        invariant
            i <= comps@.len(),
            comps.deep_view() == components(location.path@),
            comps.deep_view().len() == comps@.len(),
            forall|j: int|
                0 <= j < i ==> crate::paths::plain_component(#[trigger] comps.deep_view()[j]),
        decreases comps@.len() - i,
    {
        proof {
            crate::paths::lemma_components_nonempty(location.path@);
        }
        if crate::text::str_eq(comps[i].as_str(), ".") || crate::text::str_eq(
            comps[i].as_str(),
            "..",
        ) {
            proof {
                reveal_strlit(".");
                reveal_strlit("..");
                assert("."@ =~= seq!['.']);
                assert(".."@ =~= crate::paths::parent_step());
                assert(!crate::paths::plain_component(comps.deep_view()[i as int]));
            }
            return false;
        }
        proof {
            reveal_strlit(".");
            reveal_strlit("..");
            assert("."@ =~= seq!['.']);
            assert(".."@ =~= crate::paths::parent_step());
        }
        i = i + 1;
    }
    true
}

/// Tests whether breadcrumbs from `root` to `file` are well-posed: both
/// positions clean, the root's components a prefix of the file's, and a file
/// position below the root rather than at it.
pub fn location_is_under(root: &NodeLocation, file: &NodeLocation) -> (r: bool)
    ensures
        r == (clean_location(root@) && clean_location(file@) && (!file@.is_dir ==> components(
            file@.path,
        ).len() > 0) && components(root@.path).len() <= components(file@.path).len()
            && components(file@.path).take(components(root@.path).len() as int) == components(
            root@.path,
        )),
{
    if !location_is_clean(root) || !location_is_clean(file) {
        return false;
    }
    let root_comps = split_path(root.path.as_str());
    let file_comps = split_path(file.path.as_str());
    if !file.is_dir && file_comps.len() == 0 {
        return false;
    }
    if root_comps.len() > file_comps.len() {
        return false;
    }
    let k = crate::paths::common_prefix_length(&file_comps, &root_comps);
    proof {
        crate::paths::lemma_common_prefix_len(file_comps.deep_view(), root_comps.deep_view());
        if k == root_comps.deep_view().len() {
            assert(file_comps.deep_view().take(root_comps.deep_view().len() as int)
                =~= root_comps.deep_view());
        } else {
            assert(file_comps.deep_view().take(root_comps.deep_view().len() as int)[k as int]
                != root_comps.deep_view()[k as int]);
        }
    }
    k == root_comps.len()
}

/// Appends the index page name to a relative directory path.
fn join_index(rel: String) -> (r: String)
    ensures
        rel@.len() == 0 ==> r@ == "index.html"@,
        rel@.len() > 0 ==> r@ == rel@ + seq!['/'] + "index.html"@,
{
    let mut r = rel;
    if r.unicode_len() == 0 {
        r.append("index.html");
        proof {
            assert(r@ =~= "index.html"@);
        }
    } else {
        r.append("/");
        r.append("index.html");
        proof {
            reveal_strlit("/");
        }
    }
    r
}

/// The first `n` components of a component vector, as fresh strings.
fn copy_prefix(comps: &Vec<String>, n: usize) -> (r: Vec<String>)
    requires
        n <= comps@.len(),
    ensures
        r.deep_view() == comps.deep_view().take(n as int),
{
    let mut out: Vec<String> = Vec::new();
    let mut i: usize = 0;
    proof {
        assert(out.deep_view() =~= comps.deep_view().take(0));
    }
    while i < n
        invariant
            i <= n,
            n <= comps@.len(),
            comps.deep_view().len() == comps@.len(),
            out.deep_view() == comps.deep_view().take(i as int),
        decreases n - i,
    {
        let ghost before = out.deep_view();
        let elem = comps[i].clone();
        proof {
            assert(elem@ == comps@[i as int]@);
        }
        out.push(elem);
        i = i + 1;
        proof {
            assert(out.deep_view() =~= before.push(comps.deep_view()[i - 1]));
            assert(out.deep_view() =~= comps.deep_view().take(i as int));
        }
    }
    out
}

} // verus!
