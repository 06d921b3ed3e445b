use vstd::prelude::*;

use crate::paths::components;
use crate::text::str_eq;

verus! {

/// The extension of a path: what follows the last dot of its last component,
/// when that dot is neither the component's first nor past its last
/// character.
pub open spec fn extension_of(path: Seq<char>) -> Seq<char> {
    if components(path).len() == 0 {
        Seq::empty()
    } else {
        let name = components(path).last();
        if exists|i: int| 0 < i < name.len() && name[i] == '.' {
            let dot = last_dot(name);
            name.skip(dot + 1)
        } else {
            Seq::empty()
        }
    }
}

/// The index of the last inner dot of a file name.
pub open spec fn last_dot(name: Seq<char>) -> int {
    choose|i: int| 0 < i < name.len() && name[i] == '.' && forall|j: int|
        i < j < name.len() ==> name[j] != '.'
}

/// Picks icons for well-known source kinds.
pub struct FileIcon;

impl FileIcon {
    /// The icon resource for a file, by its extension; files of other kinds
    /// have no icon.
    pub fn get_icon_key(path: &str) -> (r: Option<&'static str>)
        ensures
            extension_of(path@) == "rs"@ ==> (r matches Some(k) && k@ == "rust.svg"@),
            extension_of(path@) == "dart"@ ==> (r matches Some(k) && k@ == "dart.svg"@),
            extension_of(path@) != "rs"@ && extension_of(path@) != "dart"@ ==> r is None,
    {
        let ext = extension_text(path);
        proof {
            reveal_strlit("rs");
            reveal_strlit("dart");
            assert("rs"@.len() == 2 && "dart"@.len() == 4);
        }
        if str_eq(ext.as_str(), "rs") {
            Some("rust.svg")
        } else if str_eq(ext.as_str(), "dart") {
            Some("dart.svg")
        } else {
            None
        }
    }

    /// The icon resource a file needs written out beside the report, with its
    /// content; files of other kinds need none.
    pub fn get_resources_required_by_file(path: &str) -> (r: Option<(
        &'static str,
        &'static str,
    )>)
        ensures
            extension_of(path@) == "rs"@ ==> (r matches Some(p) && p.0@ == "rust.svg"@ && p.1@
                == RUST_ICON_SVG@),
            extension_of(path@) == "dart"@ ==> (r matches Some(p) && p.0@ == "dart.svg"@ && p.1@
                == DART_ICON_SVG@),
            extension_of(path@) != "rs"@ && extension_of(path@) != "dart"@ ==> r is None,
    {
        let ext = extension_text(path);
        proof {
            reveal_strlit("rs");
            reveal_strlit("dart");
            assert("rs"@.len() == 2 && "dart"@.len() == 4);
        }
        if str_eq(ext.as_str(), "rs") {
            Some(("rust.svg", RUST_ICON_SVG))
        } else if str_eq(ext.as_str(), "dart") {
            Some(("dart.svg", DART_ICON_SVG))
        } else {
            None
        }
    }
}

/// A minimal icon for Rust sources.
pub const RUST_ICON_SVG: &'static str = "<svg xmlns=\"http://www.w3.org/2000/svg\" viewBox=\"0 0 16 16\"><circle cx=\"8\" cy=\"8\" r=\"7\" fill=\"#ce422b\"/><text x=\"8\" y=\"11\" font-size=\"8\" text-anchor=\"middle\" fill=\"#fff\">R</text></svg>";

/// A minimal icon for Dart sources.
pub const DART_ICON_SVG: &'static str = "<svg xmlns=\"http://www.w3.org/2000/svg\" viewBox=\"0 0 16 16\"><circle cx=\"8\" cy=\"8\" r=\"7\" fill=\"#0175c2\"/><text x=\"8\" y=\"11\" font-size=\"8\" text-anchor=\"middle\" fill=\"#fff\">D</text></svg>";

/// The extension of a path's file name, or the empty string.
pub fn extension_text(path: &str) -> (r: String)
    ensures
        r@ == extension_of(path@),
{
    let comps = crate::paths::split_path(path);
    if comps.len() == 0 {
        proof {
            assert(extension_of(path@) =~= Seq::<char>::empty());
        }
        return String::new();
    }
    let name: &String = &comps[comps.len() - 1];
    let n = name.as_str().unicode_len();
    let ghost nm = components(path@).last();
    proof {
        assert(name@ == nm);
    }
    let mut dot: usize = 0;
    let mut found = false;
    let mut i: usize = 1;
    while i < n
        invariant
            1 <= i <= n || (n == 0 && i == 1),
            n == nm.len(),
            name@ == nm,
            found ==> 0 < dot < i && nm[dot as int] == '.' && (forall|j: int|
                dot < j < i ==> nm[j] != '.'),
            !found ==> forall|j: int| 0 < j < i ==> nm[j] != '.',
        decreases n - i,
    {
        if name.as_str().get_char(i) == '.' {
            dot = i;
            found = true;
        }
        i = i + 1;
    }
    if found {
        proof {
            assert(exists|k: int| 0 < k < nm.len() && nm[k] == '.');
            assert(0 < dot < nm.len() && nm[dot as int] == '.' && (forall|j: int|
                dot < j < nm.len() ==> nm[j] != '.'));
            assert(last_dot(nm) == dot) by {
                let c = last_dot(nm);
                assert(0 < c < nm.len() && nm[c] == '.' && (forall|j: int|
                    c < j < nm.len() ==> nm[j] != '.'));
                if c < dot {
                    assert(nm[dot as int] == '.');
                } else if c > dot {
                    assert(nm[c] == '.');
                }
            }
        }
        let ext = name.as_str().substring_char(dot + 1, n);
        let r = String::from_str(ext);
        proof {
            assert(nm.skip(dot + 1) =~= nm.subrange(dot + 1, nm.len() as int));
            assert(r@ =~= extension_of(path@));
        }
        r
    } else {
        proof {
            assert(forall|j: int| 0 < j < nm.len() ==> nm[j] != '.');
            assert(extension_of(path@) =~= Seq::<char>::empty());
        }
        String::new()
    }
}

} // verus!
