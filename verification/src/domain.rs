//! The set of accepted domains and the rule that matches a recipient domain
//! against it.

use vstd::prelude::*;
use vstd::hash_set::StringHashSet;
use vstd::string::*;
use crate::text::{chars_of, find_char, lemma_position_of, position_of};

verus! {

/// A set of domain names.
pub struct DomainSet {
    names: StringHashSet,
}

impl View for DomainSet {
    type V = Set<Seq<char>>;

    closed spec fn view(&self) -> Set<Seq<char>> {
        self.names@
    }
}

impl DomainSet {
    /// The empty set.
    pub fn new() -> (r: Self)
        ensures
            r@ == Set::<Seq<char>>::empty(),
    {
        DomainSet { names: StringHashSet::new() }
    }

    /// Adds a name; returns whether it was new.
    pub fn insert(&mut self, name: String) -> (r: bool)
        ensures
            final(self)@ == old(self)@.insert(name@),
            r == !old(self)@.contains(name@),
    {
        self.names.insert(name)
    }

    /// Whether the set holds exactly this name.
    pub fn contains(&self, name: &str) -> (r: bool)
        ensures
            r == self@.contains(name@),
    {
        self.names.contains(name)
    }
}

/// Whether `i` is the index of the first `c` in `s`.
pub open spec fn is_first_at(s: Seq<char>, c: char, i: int) -> bool {
    &&& 0 <= i < s.len()
    &&& s[i] == c
    &&& forall|j: int| 0 <= j < i ==> s[j] != c
}

/// A domain is accepted when it is in the set, or when what follows its first
/// dot is in the set.
pub open spec fn domain_accepted(domain: Seq<char>, accepted: Set<Seq<char>>) -> bool {
    ||| accepted.contains(domain)
    ||| exists|i: int|
        is_first_at(domain, '.', i) && accepted.contains(
            #[trigger] domain.subrange(i + 1, domain.len() as int),
        )
}

/// Checks whether a domain, or its parent one level up, is accepted.
///
/// Matching is exact and case-sensitive.
pub fn is_domain_accepted(domain: &str, accepted: &DomainSet) -> (r: bool)
    ensures
        r == domain_accepted(domain@, accepted@),
{
    if accepted.contains(domain) {
        return true;
    }
    let v = chars_of(domain);
    proof {
        assert(v@.subrange(0, v@.len() as int) =~= v@);
        lemma_position_of(domain@, '.');
    }
    match find_char(&v, '.', 0, v.len()) {
        Some(i) => {
            let parent = domain.substring_char(i + 1, v.len());
            let r = accepted.contains(parent);
            proof {
                assert(is_first_at(domain@, '.', i as int));
                if domain_accepted(domain@, accepted@) {
                    let k = choose|k: int|
                        is_first_at(domain@, '.', k) && accepted@.contains(
                            #[trigger] domain@.subrange(k + 1, domain@.len() as int),
                        );
                    assert(k == i);
                }
            }
            r
        },
        None => {
            proof {
                assert(forall|k: int| !is_first_at(domain@, '.', k));
            }
            false
        },
    }
}

} // verus!
