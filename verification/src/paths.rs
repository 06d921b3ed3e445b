use vstd::prelude::*;

verus! {

/// The ordered, non-empty components of a slash-separated path, in the sense
/// of the data model: leading, trailing and doubled separators carry no
/// meaning, and two paths are the same path exactly when their components are.
pub open spec fn components(s: Seq<char>) -> Seq<Seq<char>>
    decreases s.len(),
{
    if s.len() == 0 {
        Seq::empty()
    } else if s.last() == '/' {
        components(s.drop_last())
    } else if s.len() == 1 || s[s.len() - 2] == '/' {
        components(s.drop_last()).push(seq![s.last()])
    } else {
        let r = components(s.drop_last());
        r.update(r.len() - 1, r.last().push(s.last()))
    }
}

/// Every component of a path is non-empty and holds no separator, and a path
/// that ends in something other than a separator has at least one component.
pub proof fn lemma_components_nonempty(s: Seq<char>)
    ensures
        forall|i: int| 0 <= i < components(s).len() ==> #[trigger] components(s)[i].len() > 0,
        forall|i: int| 0 <= i < components(s).len() ==> !(#[trigger] components(s)[i]).contains('/'),
        s.len() > 0 && s.last() != '/' ==> components(s).len() > 0,
    decreases s.len(),
{
    if s.len() == 0 {
    } else {
        lemma_components_nonempty(s.drop_last());
        if s.last() != '/' && s.len() > 1 && s[s.len() - 2] != '/' {
            assert(s.drop_last().last() == s[s.len() - 2]);
            assert(components(s.drop_last()).len() > 0);
            let r = components(s.drop_last());
            let grown = r.last().push(s.last());
            assert(!grown.contains('/')) by {
                assert(forall|j: int|
                    0 <= j < grown.len() ==> #[trigger] grown[j] != '/');
            }
        } else if s.last() != '/' {
            let c = seq![s.last()];
            assert(!c.contains('/')) by {
                assert(forall|j: int| 0 <= j < c.len() ==> #[trigger] c[j] != '/');
            }
        }
    }
}

/// The components of a string, as owned strings.
pub fn split_path(s: &str) -> (r: Vec<String>)
    ensures
        r.deep_view() == components(s@),
{
    let n = s.unicode_len();
    let mut out: Vec<String> = Vec::new();
    let mut comp_start: usize = 0;
    let mut i: usize = 0;
    proof {
        assert(s@.take(0) =~= Seq::<char>::empty());
        assert(out.deep_view() =~= Seq::<Seq<char>>::empty());
    }
    while i < n
        invariant
            0 <= comp_start <= i <= n,
            n == s@.len(),
            forall|j: int| comp_start <= j < i ==> s@[j] != '/',
            comp_start < i ==> (comp_start == 0 || s@[comp_start - 1] == '/'),
            comp_start == i ==> (i == 0 || s@[i - 1] == '/'),
            comp_start == i ==> out.deep_view() == components(s@.take(i as int)),
            comp_start < i ==> out.deep_view().push(s@.subrange(comp_start as int, i as int))
                == components(s@.take(i as int)),
        decreases n - i,
    {
        let ghost pre = s@.take(i as int);
        let c = s.get_char(i);
        proof {
            assert(s@.take(i + 1).drop_last() =~= pre);
            assert(s@.take(i + 1).last() == s@[i as int]);
        }
        if c == '/' {
            if comp_start < i {
                let comp = s.substring_char(comp_start, i);
                out.push(String::from_str(comp));
                proof {
                    assert(out.deep_view() =~= out.deep_view().drop_last().push(
                        s@.subrange(comp_start as int, i as int),
                    ));
                }
            }
            comp_start = i + 1;
        } else {
            if comp_start == i {
                proof {
                    if i > 0 {
                        assert(s@.take(i + 1)[i - 1] == s@[i - 1]);
                    }
                    assert(components(s@.take(i + 1)) == components(pre).push(
                        seq![s@[i as int]],
                    ));
                    assert(s@.subrange(comp_start as int, i + 1) =~= seq![s@[i as int]]);
                }
            } else {
                proof {
                    assert(s@.take(i + 1)[i - 1] == s@[i - 1]);
                    assert(s@[i - 1] != '/');
                    let r = components(pre);
                    assert(r == out.deep_view().push(
                        s@.subrange(comp_start as int, i as int),
                    ));
                    assert(r.last() == s@.subrange(comp_start as int, i as int));
                    assert(components(s@.take(i + 1)) == r.update(
                        r.len() - 1,
                        r.last().push(s@[i as int]),
                    ));
                    assert(s@.subrange(comp_start as int, i as int).push(s@[i as int])
                        =~= s@.subrange(comp_start as int, i + 1));
                    assert(r.update(r.len() - 1, r.last().push(s@[i as int])) =~= out.deep_view()
                        .push(s@.subrange(comp_start as int, i + 1)));
                }
            }
        }
        i = i + 1;
    }
    if comp_start < n {
        let comp = s.substring_char(comp_start, n);
        out.push(String::from_str(comp));
        proof {
            assert(s@.take(n as int) =~= s@);
            assert(out.deep_view() =~= out.deep_view().drop_last().push(
                s@.subrange(comp_start as int, n as int),
            ));
        }
    } else {
        proof {
            assert(s@.take(n as int) =~= s@);
        }
    }
    out
}

/// Components joined with a single separator, no leading or trailing one.
pub open spec fn joined(parts: Seq<Seq<char>>) -> Seq<char>
    decreases parts.len(),
{
    if parts.len() == 0 {
        Seq::empty()
    } else if parts.len() == 1 {
        parts[0]
    } else {
        joined(parts.drop_last()) + seq!['/'] + parts.last()
    }
}

/// Joins components with slashes.
pub fn join_path(parts: &Vec<String>) -> (r: String)
    ensures
        r@ == joined(parts.deep_view()),
{
    let mut out = String::new();
    let mut i: usize = 0;
    proof {
        assert(out@ =~= joined(parts.deep_view().take(0)));
    }
    while i < parts.len()
        invariant
            i <= parts.len(),
            out@ == joined(parts.deep_view().take(i as int)),
        decreases parts.len() - i,
    {
        if i > 0 {
            out.append("/");
        }
        out.append(parts[i].as_str());
        proof {
            reveal_strlit("/");
            let pre = parts.deep_view().take(i as int);
            let now = parts.deep_view().take(i + 1);
            assert(now.drop_last() =~= pre);
            assert(now.last() == parts.deep_view()[i as int]);
            if i > 0 {
                assert(out@ =~= joined(now));
            } else {
                assert(out@ =~= joined(now));
            }
        }
        i = i + 1;
    }
    proof {
        assert(parts.deep_view().take(parts.deep_view().len() as int) =~= parts.deep_view());
    }
    out
}

/// The length of the longest shared prefix of two component sequences.
pub open spec fn common_prefix_len(a: Seq<Seq<char>>, b: Seq<Seq<char>>) -> nat
    decreases a.len(),
{
    if a.len() == 0 || b.len() == 0 || a[0] != b[0] {
        0
    } else {
        1 + common_prefix_len(a.drop_first(), b.drop_first())
    }
}

pub proof fn lemma_common_prefix_len(a: Seq<Seq<char>>, b: Seq<Seq<char>>)
    ensures
        common_prefix_len(a, b) <= a.len(),
        common_prefix_len(a, b) <= b.len(),
        forall|i: int| 0 <= i < common_prefix_len(a, b) ==> a[i] == b[i],
        common_prefix_len(a, b) < a.len() && common_prefix_len(a, b) < b.len()
            ==> a[common_prefix_len(a, b) as int] != b[common_prefix_len(a, b) as int],
    decreases a.len(),
{
    if a.len() == 0 || b.len() == 0 || a[0] != b[0] {
    } else {
        lemma_common_prefix_len(a.drop_first(), b.drop_first());
        let k = common_prefix_len(a.drop_first(), b.drop_first());
        assert(forall|i: int|
            1 <= i < 1 + k ==> a[i] == a.drop_first()[i - 1] && b[i] == b.drop_first()[i - 1]);
    }
}

/// The index of the first position where two component vectors differ.
pub fn common_prefix_length(a: &Vec<String>, b: &Vec<String>) -> (r: usize)
    ensures
        r == common_prefix_len(a.deep_view(), b.deep_view()),
{
    let mut i: usize = 0;
    let n = if a.len() < b.len() {
        a.len()
    } else {
        b.len()
    };
    proof {
        lemma_common_prefix_rec(a.deep_view(), b.deep_view(), 0);
    }
    while i < n
        invariant
            0 <= i <= n,
            n <= a.len(),
            n <= b.len(),
            n == vstd::math::min(a.len() as int, b.len() as int),
            common_prefix_len(a.deep_view(), b.deep_view()) == i + common_prefix_len(
                a.deep_view().skip(i as int),
                b.deep_view().skip(i as int),
            ),
            forall|j: int| 0 <= j < i ==> a.deep_view()[j] == b.deep_view()[j],
        decreases n - i,
    {
        if !crate::text::str_eq(a[i].as_str(), b[i].as_str()) {
            proof {
                assert(a.deep_view().skip(i as int)[0] == a.deep_view()[i as int]);
                assert(b.deep_view().skip(i as int)[0] == b.deep_view()[i as int]);
            }
            return i;
        }
        proof {
            let sa = a.deep_view().skip(i as int);
            let sb = b.deep_view().skip(i as int);
            assert(sa[0] == a.deep_view()[i as int]);
            assert(sb[0] == b.deep_view()[i as int]);
            assert(sa.drop_first() =~= a.deep_view().skip(i + 1));
            assert(sb.drop_first() =~= b.deep_view().skip(i + 1));
        }
        i = i + 1;
    }
    proof {
        let sa = a.deep_view().skip(n as int);
        let sb = b.deep_view().skip(n as int);
        assert(sa.len() == 0 || sb.len() == 0);
        assert(common_prefix_len(sa, sb) == 0);
    }
    i
}

proof fn lemma_common_prefix_rec(a: Seq<Seq<char>>, b: Seq<Seq<char>>, i: int)
    requires
        i == 0,
    ensures
        common_prefix_len(a, b) == i + common_prefix_len(a.skip(i), b.skip(i)),
{
    assert(a.skip(0) =~= a);
    assert(b.skip(0) =~= b);
}

/// The component whose sequence is a parent-directory step.
pub open spec fn parent_step() -> Seq<char> {
    seq!['.', '.']
}

/// The components that lead from `base` to `target`: one parent step for each
/// component of `base` past the shared prefix, then the remainder of `target`.
pub open spec fn relative_components(target: Seq<Seq<char>>, base: Seq<Seq<char>>) -> Seq<
    Seq<char>,
> {
    let k = common_prefix_len(target, base);
    Seq::new((base.len() - k) as nat, |i: int| parent_step()) + target.skip(k as int)
}


/// Appending one component extends the joined string by a separator and the
/// component, except at the front.
pub proof fn lemma_joined_push(s: Seq<Seq<char>>, c: Seq<char>)
    ensures
        s.len() == 0 ==> joined(s.push(c)) == c,
        s.len() > 0 ==> joined(s.push(c)) == joined(s) + seq!['/'] + c,
{
    assert(s.push(c).drop_last() =~= s);
    assert(s.push(c).last() == c);
    if s.len() == 0 {
        assert(joined(s.push(c)) == s.push(c)[0]);
    }
}

/// A path with at least one component, none of them empty, joins to a
/// non-empty string.
pub proof fn lemma_joined_nonempty(s: Seq<Seq<char>>)
    requires
        s.len() > 0,
        forall|i: int| 0 <= i < s.len() ==> (#[trigger] s[i]).len() > 0,
    ensures
        joined(s).len() > 0,
    decreases s.len(),
{
    if s.len() > 1 {
        lemma_joined_nonempty(s.drop_last());
    }
}

/// Every component of a relative path between plain-component paths is
/// non-empty: a parent step, or a plain component of the target.
pub proof fn lemma_relative_components_nonempty(target: Seq<Seq<char>>, base: Seq<Seq<char>>)
    requires
        plain_components(target),
    ensures
        forall|i: int|
            0 <= i < relative_components(target, base).len() ==> (#[trigger] relative_components(
                target,
                base,
            )[i]).len() > 0,
{
    let k = common_prefix_len(target, base);
    lemma_common_prefix_len(target, base);
    let r = relative_components(target, base);
    assert forall|i: int| 0 <= i < r.len() implies (#[trigger] r[i]).len() > 0 by {
        if i >= base.len() - k {
            assert(r[i] == target.skip(k as int)[i - (base.len() - k)]);
            assert(r[i] == target[k + i - (base.len() - k)]);
        }
    }
}

/// Whether a component is a plain name: non-empty, free of separators, and
/// not a dot step, so that relative-path arithmetic over it is meaningful.
pub open spec fn plain_component(c: Seq<char>) -> bool {
    c.len() > 0 && !c.contains('/') && c != seq!['.'] && c != parent_step()
}

/// Whether every component of a path is a plain name.
pub open spec fn plain_components(s: Seq<Seq<char>>) -> bool {
    forall|i: int| 0 <= i < s.len() ==> plain_component(#[trigger] s[i])
}

} // verus!
