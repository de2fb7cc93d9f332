//! Collision-safe naming for extracted attachment files. A registry
//! remembers every name handed out during a run; a wanted name that is
//! still free is granted as it is, a colliding one gets a deterministic
//! fallback, and no name is ever granted twice.

use vstd::prelude::*;

verus! {

/// The mathematical values of a sequence of strings.
pub open spec fn str_views(s: Seq<String>) -> Seq<Seq<char>> {
    s.map_values(|x: String| x@)
}

/// Whether the name `s` occurs among `used`.
pub open spec fn name_used(used: Seq<Seq<char>>, s: Seq<char>) -> bool {
    exists|i: int| 0 <= i < used.len() && used[i] == s
}

/// The length of the longest name in `s`.
pub open spec fn max_name_len(s: Seq<Seq<char>>) -> nat
    decreases s.len(),
{
    if s.len() == 0 {
        0
    } else {
        let rest = max_name_len(s.drop_last());
        if s.last().len() > rest {
            s.last().len()
        } else {
            rest
        }
    }
}

/// No name is longer than the longest.
proof fn lemma_member_le_max(s: Seq<Seq<char>>, i: int)
    requires
        0 <= i < s.len(),
    ensures
        s[i].len() <= max_name_len(s),
    decreases s.len(),
{
    if i < s.len() - 1 {
        lemma_member_le_max(s.drop_last(), i);
    }
}

/// A used name is never longer than the longest used name.
proof fn lemma_used_le_max(used: Seq<Seq<char>>, s: Seq<char>)
    requires
        name_used(used, s),
    ensures
        s.len() <= max_name_len(used),
{
    let i = choose|i: int| 0 <= i < used.len() && used[i] == s;
    lemma_member_le_max(used, i);
}

/// Whether `s` occurs in `used`, by scanning.
fn contains_name(used: &Vec<String>, s: &String) -> (r: bool)
    ensures
        r == name_used(str_views(used@), s@),
{
    let n = used.len();
    let mut i: usize = 0;
    while i < n
        invariant
            n == used@.len(),
            i <= n,
            forall|j: int| 0 <= j < i ==> str_views(used@)[j] != s@,
        decreases n - i,
    {
        if used[i] == *s {
            proof {
                assert(str_views(used@)[i as int] == s@);
            }
            return true;
        }
        i = i + 1;
    }
    false
}

/// The names handed out so far in one run.
pub struct NameRegistry {
    used: Vec<String>,
}

impl NameRegistry {
    /// Every name granted so far, in grant order.
    pub closed spec fn used_names(self) -> Seq<Seq<char>> {
        str_views(self.used@)
    }

    /// A fresh registry: no name granted yet.
    pub fn new() -> (r: NameRegistry)
        ensures
            r.used_names() == Seq::<Seq<char>>::empty(),
    {
        let r = NameRegistry { used: Vec::new() };
        proof {
            assert(r.used_names() =~= Seq::<Seq<char>>::empty());
        }
        r
    }

    /// Grant a name: `wanted` itself while it is still free, else `wanted`
    /// padded deterministically until it is free. The granted name is never
    /// one granted before, so no file of this run is overwritten.
    pub fn reserve(&mut self, wanted: &String) -> (r: String)
        ensures
            !name_used(old(self).used_names(), r@),
            final(self).used_names() == old(self).used_names().push(r@),
            !name_used(old(self).used_names(), wanted@) ==> r@ == wanted@,
    {
        let mut candidate = wanted.clone();
        let mut taken = contains_name(&self.used, &candidate);
        proof {
            if taken {
                lemma_used_le_max(self.used_names(), candidate@);
            }
        }
        while taken
            invariant
                *self == *old(self),
                taken == name_used(self.used_names(), candidate@),
                taken ==> candidate@.len() <= max_name_len(self.used_names()),
                !name_used(self.used_names(), wanted@) ==> candidate@ == wanted@,
            decreases max_name_len(self.used_names()) + 1 - candidate@.len(),
        {
            candidate.push_str("_");
            proof {
                reveal_strlit("_");
            }
            taken = contains_name(&self.used, &candidate);
            proof {
                if taken {
                    lemma_used_le_max(self.used_names(), candidate@);
                }
            }
        }
        let granted = candidate.clone();
        self.used.push(candidate);
        proof {
            assert(self.used_names() =~= old(self).used_names().push(granted@));
        }
        granted
    }
}

/// Names granted by one registry never repeat: whatever was granted before
/// is among the used names a later grant is kept away from.
pub proof fn lemma_granted_names_distinct(
    earlier: Seq<Seq<char>>,
    first: Seq<char>,
    second: Seq<char>,
)
    requires
        !name_used(earlier.push(first), second),
    ensures
        first != second,
{
    assert(earlier.push(first)[earlier.len() as int] == first);
}

} // verus!
