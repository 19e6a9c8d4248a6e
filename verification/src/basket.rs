//! The temporary basket: references to files gathered from anywhere, a list import prepared
//! off the UI thread, and keyboard moves inside the basket.
use vstd::prelude::*;

verus! {

/// The paths of `paths` whose flag in `exists` is false, in order.
pub open spec fn missing_of(paths: Seq<String>, exists: Seq<bool>) -> Seq<String>
    decreases paths.len(),
{
    if paths.len() == 0 || exists.len() == 0 {
        Seq::empty()
    } else {
        let rest = missing_of(paths.drop_last(), exists.drop_last());
        if exists.last() {
            rest
        } else {
            rest.push(paths.last())
        }
    }
}

/// A list of references read from a `.naygolist`, prepared off the UI thread: the paths,
/// and those of them that do not exist (the basket shows them as missing).
#[derive(Clone, Debug, PartialEq, Eq)]
pub struct BasketImport {
    paths: Vec<String>,
    missing: Vec<String>,
}

impl View for BasketImport {
    /// The paths and the missing paths.
    type V = (Seq<String>, Seq<String>);

    closed spec fn view(&self) -> (Seq<String>, Seq<String>) {
        (self.paths@, self.missing@)
    }
}

impl BasketImport {
    /// The import of `paths`, where `exists[i]` tells whether `paths[i]` exists.
    pub fn new(paths: Vec<String>, exists: &Vec<bool>) -> (r: Self)
        requires
            exists@.len() == paths@.len(),
        ensures
            r@ == (paths@, missing_of(paths@, exists@)),
    {
        let mut missing: Vec<String> = Vec::new();
        let mut i: usize = 0;
        while i < paths.len()
            invariant
                i <= paths.len(),
                exists@.len() == paths@.len(),
                missing@ == missing_of(paths@.take(i as int), exists@.take(i as int)),
            decreases paths.len() - i,
        {
            proof {
                assert(paths@.take(i + 1).drop_last() == paths@.take(i as int));
                assert(exists@.take(i + 1).drop_last() == exists@.take(i as int));
                assert(paths@.take(i + 1).last() == paths@[i as int]);
                assert(exists@.take(i + 1).last() == exists@[i as int]);
            }
            if !exists[i] {
                missing.push(paths[i].clone());
            }
            i = i + 1;
        }
        assert(paths@.take(paths.len() as int) == paths@);
        assert(exists@.take(paths.len() as int) == exists@);
        BasketImport { paths, missing }
    }

    /// The imported paths, in order.
    pub fn paths(&self) -> (r: &Vec<String>)
        ensures
            r@ == self@.0,
    {
        &self.paths
    }

    /// The imported paths that do not exist.
    pub fn missing(&self) -> (r: &Vec<String>)
        ensures
            r@ == self@.1,
    {
        &self.missing
    }

    /// Splits the import into its paths and its missing paths.
    pub fn into_parts(self) -> (r: (Vec<String>, Vec<String>))
        ensures
            r.0@ == self@.0,
            r.1@ == self@.1,
    {
        (self.paths, self.missing)
    }
}

/// The row a keyboard move of `delta` rows reaches in a basket of `len` rows: from the focused
/// row, clamped to the basket; without a focus, from the last row upwards or the first row
/// downwards. `None` for an empty basket.
pub open spec fn basket_move_spec(len: nat, current: Option<usize>, delta: int) -> Option<usize> {
    if len == 0 {
        None
    } else {
        let raw: int = match current {
            Some(i) => i + delta,
            None => if delta < 0 {
                len - 1
            } else {
                0
            },
        };
        Some((if raw < 0 {
            0
        } else if raw > len - 1 {
            len - 1
        } else {
            raw
        }) as usize)
    }
}

/// The row a keyboard move reaches (see `basket_move_spec`).
pub fn basket_move_target(len: usize, current: Option<usize>, delta: isize) -> (r: Option<usize>)
    requires
        len <= isize::MAX,
    ensures
        r == basket_move_spec(len as nat, current, delta as int),
{
    if len == 0 {
        return None;
    }
    let raw: i128 = match current {
        Some(i) => (i as i128) + (delta as i128),
        None => if delta < 0 {
            (len - 1) as i128
        } else {
            0
        },
    };
    let last: i128 = (len - 1) as i128;
    let clamped: i128 = if raw < 0 {
        0
    } else if raw > last {
        last
    } else {
        raw
    };
    Some(clamped as usize)
}

/// A keyboard move with Ctrl held and Shift not moves only the focus; any other move selects.
pub fn move_focus_only(keep: bool, shift: bool) -> (r: bool)
    ensures
        r == (keep && !shift),
{
    keep && !shift
}

/// The texts of the items, in order.
pub open spec fn item_texts(v: Seq<String>) -> Seq<Seq<char>> {
    v.map_values(|s: String| s@)
}

/// The basket item the preview and properties show: the focused item, while the basket has the
/// context and still holds it.
pub fn basket_selected(context: bool, focused: Option<&String>, items: &Vec<String>) -> (r: Option<String>)
    ensures
        r == (match focused {
            Some(f) => if context && item_texts(items@).contains(f@) {
                Some(*f)
            } else {
                None
            },
            None => None,
        }),
{
    if !context {
        return None;
    }
    match focused {
        None => None,
        Some(f) => {
            let mut i: usize = 0;
            while i < items.len()
                invariant
                    i <= items.len(),
                    focused == Some(f),
                    context,
                    forall|k: int| 0 <= k < i ==> items@[k]@ != f@,
                decreases items.len() - i,
            {
                if items[i] == *f {
                    proof {
                        let m = item_texts(items@);
                        assert(m[i as int] == f@);
                        assert(m.contains(f@));
                    }
                    let c = f.clone();
                    assert(c == *f);
                    return Some(c);
                }
                i = i + 1;
            }
            proof {
                let m = item_texts(items@);
                if m.contains(f@) {
                    let k = choose|k: int| 0 <= k < m.len() && m[k] == f@;
                    assert(items@[k]@ == f@);
                }
            }
            None
        },
    }
}

/// A move never leaves the basket: the row reached is a row of the basket.
pub proof fn lemma_move_stays_inside(len: nat, current: Option<usize>, delta: int)
    requires
        0 < len <= isize::MAX,
    ensures
        basket_move_spec(len, current, delta) matches Some(r) && r < len,
{
}

} // verus!
