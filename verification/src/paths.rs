//! Case-insensitive path comparison, component by component, as a Windows file system
//! compares paths.
use vstd::prelude::*;
use crate::text::{ascii_lower, char_ascii_lower, chars_of, split_on};

verus! {

/// Two texts are equal once ASCII letters are folded to lower case
/// (`str::eq_ignore_ascii_case`).
pub open spec fn eq_ignore_ascii_case(x: Seq<char>, y: Seq<char>) -> bool {
    &&& x.len() == y.len()
    &&& forall|i: int| 0 <= i < x.len() ==> #[trigger] ascii_lower(x[i]) == ascii_lower(y[i])
}

/// A component of a path: whether it is the root (`Component::RootDir`), and its text.
pub type PathComponent = (bool, String);

/// Two components are the same up to ASCII case: a root matches only a root (a platform
/// writes every root alike), other components match when their texts are equal up to ASCII
/// case.
pub open spec fn component_eq_ci(x: PathComponent, y: PathComponent) -> bool {
    if x.0 || y.0 {
        x.0 && y.0
    } else {
        eq_ignore_ascii_case(x.1@, y.1@)
    }
}

/// Two component lists name the same path on a case-insensitive file system: as many
/// components, each pair the same up to ASCII case.
pub open spec fn components_eq_ci_spec(ca: Seq<PathComponent>, cb: Seq<PathComponent>) -> bool {
    &&& ca.len() == cb.len()
    &&& forall|i: int| 0 <= i < ca.len() ==> #[trigger] component_eq_ci(ca[i], cb[i])
}

/// The texts of the components.
pub open spec fn component_texts(c: Seq<PathComponent>) -> Seq<Seq<char>> {
    c.map_values(|x: PathComponent| x.1@)
}

/// `x` and `y` are equal up to ASCII case.
pub fn text_eq_ignore_ascii_case(x: &str, y: &str) -> (r: bool)
    ensures
        r == eq_ignore_ascii_case(x@, y@),
{
    let xs = chars_of(x);
    let ys = chars_of(y);
    if xs.len() != ys.len() {
        return false;
    }
    let mut i: usize = 0;
    while i < xs.len()
        invariant
            xs@ == x@,
            ys@ == y@,
            xs.len() == ys.len(),
            i <= xs.len(),
            forall|k: int| 0 <= k < i ==> #[trigger] ascii_lower(xs@[k]) == ascii_lower(ys@[k]),
        decreases xs.len() - i,
    {
        if char_ascii_lower(xs[i]) != char_ascii_lower(ys[i]) {
            return false;
        }
        i = i + 1;
    }
    true
}

/// Whether two component lists name the same path on a case-insensitive file system.
pub fn components_eq_ci(ca: &Vec<PathComponent>, cb: &Vec<PathComponent>) -> (r: bool)
    ensures
        r == components_eq_ci_spec(ca@, cb@),
{
    if ca.len() != cb.len() {
        return false;
    }
    let mut i: usize = 0;
    while i < ca.len()
        invariant
            ca.len() == cb.len(),
            i <= ca.len(),
            forall|k: int| 0 <= k < i ==> #[trigger] component_eq_ci(ca@[k], cb@[k]),
        decreases ca.len() - i,
    {
        let same = if ca[i].0 || cb[i].0 {
            ca[i].0 && cb[i].0
        } else {
            text_eq_ignore_ascii_case(ca[i].1.as_str(), cb[i].1.as_str())
        };
        if !same {
            assert(!component_eq_ci(ca@[i as int], cb@[i as int]));
            return false;
        }
        i = i + 1;
    }
    true
}

/// A relative path written with `/` alone whose components every platform splits the same
/// way: not empty, no `\\` (a separator on Windows only) and no `:` (a drive prefix on
/// Windows), and no empty part (no leading, doubled or trailing `/`) nor `.` part (which the
/// splitting keeps at the start of a path and drops elsewhere).
pub open spec fn portable_relative(p: Seq<char>) -> bool {
    &&& p.len() > 0
    &&& forall|i: int| 0 <= i < p.len() ==> #[trigger] p[i] != '\\' && p[i] != ':'
    &&& forall|k: int|
        0 <= k < split_on(p, '/').len() ==> (#[trigger] split_on(p, '/')[k]).len() > 0
            && split_on(p, '/')[k] != seq!['.']
}

/// The components of a path that is empty or portable (see `portable_relative`): none for
/// the empty path, else its `/`-separated parts.
pub open spec fn portable_parts(p: Seq<char>) -> Seq<Seq<char>> {
    if p.len() == 0 {
        Seq::empty()
    } else {
        split_on(p, '/')
    }
}

/// Two lists of components name the same path up to ASCII case: as many, each pair equal
/// up to ASCII case.
pub open spec fn parts_eq_ci(x: Seq<Seq<char>>, y: Seq<Seq<char>>) -> bool {
    &&& x.len() == y.len()
    &&& forall|i: int| 0 <= i < x.len() ==> #[trigger] eq_ignore_ascii_case(x[i], y[i])
}

/// A rooted path written with `/` alone: a `/` and then a portable relative path (see
/// `portable_relative`).
pub open spec fn rooted_portable(p: Seq<char>) -> bool {
    p.len() > 1 && p[0] == '/' && portable_relative(p.skip(1))
}

/// The components of a path as the platform splits it (`std::path::Path::components`),
/// each with whether it is the root (`Component::RootDir`) and its text (`to_string_lossy`).
/// How a path splits depends on the platform the library is built for (prefixes and `\\`
/// separate components on Windows only), so only what holds on every platform is stated: the
/// empty path has no component; a portable relative path (see `portable_relative`) splits
/// into its `/`-separated parts, none of them the root; a rooted one (see `rooted_portable`)
/// into the root and then those parts. Nothing is stated of other paths, nor of the root's
/// text.
#[verifier::external_body]
fn path_components(p: &str) -> (r: Vec<PathComponent>)
    ensures
        p@.len() == 0 ==> r@.len() == 0,
        portable_relative(p@) ==> component_texts(r@) == split_on(p@, '/') && forall|i: int|
            0 <= i < r@.len() ==> !(#[trigger] r@[i]).0,
        rooted_portable(p@) ==> r@.len() > 0 && r@[0].0 && component_texts(r@).skip(1) == split_on(
            p@.skip(1),
            '/',
        ) && forall|i: int| 1 <= i < r@.len() ==> !(#[trigger] r@[i]).0,
{
    let mut out: Vec<PathComponent> = Vec::new();
    for c in std::path::Path::new(p).components() {
        out.push((matches!(c, std::path::Component::RootDir), c.as_os_str().to_string_lossy().into_owned()));
    }
    out
}

/// Whether `a` and `b` name the same path on a case-insensitive file system: same
/// components, each equal up to ASCII case. Separators and repeated separators do not
/// matter, as the platform's path splitting ignores them. For paths that are empty or
/// portable relative (see `portable_relative`) the result is stated exactly: their
/// `/`-separated parts are pairwise equal up to ASCII case. Two rooted paths (see
/// `rooted_portable`) are equal exactly when their parts are, and a rooted path never equals
/// an empty or portable relative one. For other paths the components, and so the result,
/// are the platform's and are not stated.
pub fn paths_eq_ci(a: &str, b: &str) -> (r: bool)
    ensures
        (a@.len() == 0 || portable_relative(a@)) && (b@.len() == 0 || portable_relative(b@)) ==> r
            == parts_eq_ci(portable_parts(a@), portable_parts(b@)),
        rooted_portable(a@) && rooted_portable(b@) ==> r == parts_eq_ci(
            split_on(a@.skip(1), '/'),
            split_on(b@.skip(1), '/'),
        ),
        rooted_portable(a@) && (b@.len() == 0 || portable_relative(b@)) ==> !r,
        rooted_portable(b@) && (a@.len() == 0 || portable_relative(a@)) ==> !r,
{
    let ca = path_components(a);
    let cb = path_components(b);
    let r = components_eq_ci(&ca, &cb);
    proof {
        let x = component_texts(ca@);
        let y = component_texts(cb@);
        if (a@.len() == 0 || portable_relative(a@)) && (b@.len() == 0 || portable_relative(b@)) {
            assert(x =~= portable_parts(a@));
            assert(y =~= portable_parts(b@));
            if r {
                assert forall|i: int| 0 <= i < x.len() implies #[trigger] eq_ignore_ascii_case(x[i], y[i]) by {
                    assert(component_eq_ci(ca@[i], cb@[i]));
                }
            }
            if parts_eq_ci(x, y) {
                assert forall|i: int| 0 <= i < ca@.len() implies #[trigger] component_eq_ci(ca@[i], cb@[i]) by {
                    assert(eq_ignore_ascii_case(x[i], y[i]));
                    assert(!ca@[i].0 && !cb@[i].0);
                }
            }
        }
        if rooted_portable(a@) && rooted_portable(b@) {
            let pa = split_on(a@.skip(1), '/');
            let pb = split_on(b@.skip(1), '/');
            if r {
                assert forall|i: int| 0 <= i < pa.len() implies #[trigger] eq_ignore_ascii_case(pa[i], pb[i]) by {
                    assert(pa[i] == x.skip(1)[i] && pb[i] == y.skip(1)[i]);
                    assert(component_eq_ci(ca@[i + 1], cb@[i + 1]));
                    assert(!ca@[i + 1].0);
                }
            }
            if parts_eq_ci(pa, pb) {
                assert forall|i: int| 0 <= i < ca@.len() implies #[trigger] component_eq_ci(ca@[i], cb@[i]) by {
                    if i > 0 {
                        assert(pa[i - 1] == x.skip(1)[i - 1] && pb[i - 1] == y.skip(1)[i - 1]);
                        assert(eq_ignore_ascii_case(pa[i - 1], pb[i - 1]));
                        assert(!ca@[i].0 && !cb@[i].0);
                    }
                }
            }
        }
        if rooted_portable(a@) && (b@.len() == 0 || portable_relative(b@)) && r {
            assert(component_eq_ci(ca@[0], cb@[0]));
        }
        if rooted_portable(b@) && (a@.len() == 0 || portable_relative(a@)) && r {
            assert(component_eq_ci(ca@[0], cb@[0]));
        }
    }
    r
}

} // verus!
