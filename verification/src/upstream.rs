//! The set of upstream addresses that are currently believed to be alive.
//!
//! A set knows the configured upstreams it was made for and never holds an
//! address outside them. It is kept as a listing without repetitions, so
//! that a member can be chosen by its position. Its view is the
//! mathematical set of the listed addresses.

use rand::rngs::StdRng;
use rand::seq::IteratorRandom;
use vstd::prelude::*;

verus! {

/// The random number generator of the `rand` crate that draws are made with.
#[verifier::external_type_specification]
#[verifier::external_body]
pub struct ExStdRng(StdRng);

/// Calls `rand::seq::IteratorRandom::choose` on the range `0..n`. The crate
/// documents that `choose` returns `None` if and only if the iterator is
/// empty; otherwise it returns one of the iterator's items, here a number
/// below `n`. Which one is left open.
#[verifier::external_body]
fn choose_index(rng: &mut StdRng, n: usize) -> (draw: Option<usize>)
    ensures
        n == 0 ==> draw.is_none(),
        n > 0 ==> draw.is_some() && draw.unwrap() < n,
{
    (0..n).choose(rng)
}

/// The addresses of a vector of strings, position by position.
pub open spec fn listing_of(v: Seq<String>) -> Seq<Seq<char>> {
    Seq::new(v.len(), |i: int| v[i]@)
}

/// The set of the addresses that occur in a vector of strings.
pub open spec fn addresses_of(v: Seq<String>) -> Set<Seq<char>> {
    Set::new(|a: Seq<char>| listing_of(v).contains(a))
}

/// Where `address` stands in `list`, if it occurs there: the first place.
fn find(list: &Vec<String>, address: &String) -> (found: Option<usize>)
    ensures
        found.is_some() == listing_of(list@).contains(address@),
        found.is_some() ==> found.unwrap() < list@.len() && list@[found.unwrap() as int]@
            == address@,
{
    let mut i: usize = 0;
    while i < list.len()
        invariant
            0 <= i <= list.len(),
            forall|k: int| 0 <= k < i ==> listing_of(list@)[k] != address@,
        decreases list.len() - i,
    {
        if list[i] == *address {
            assert(listing_of(list@)[i as int] == address@);
            return Some(i);
        }
        i += 1;
    }
    None
}

/// A copy of a vector of addresses.
fn copy_of(list: &Vec<String>) -> (copy: Vec<String>)
    ensures
        copy@ == list@,
{
    let mut copy: Vec<String> = Vec::new();
    let mut i: usize = 0;
    while i < list.len()
        invariant
            0 <= i <= list.len(),
            copy@ == list@.take(i as int),
        decreases list.len() - i,
    {
        copy.push(list[i].clone());
        assert(copy@ =~= list@.take(i + 1));
        i += 1;
    }
    assert(list@.take(i as int) =~= list@);
    copy
}

pub struct UpstreamSet {
    configured: Vec<String>,
    alive: Vec<String>,
}

impl View for UpstreamSet {
    type V = Set<Seq<char>>;

    open spec fn view(&self) -> Set<Seq<char>> {
        Set::new(|a: Seq<char>| self.listing().contains(a))
    }
}

impl UpstreamSet {
    #[verifier::type_invariant]
    spec fn well_formed(self) -> bool {
        &&& listing_of(self.alive@).no_duplicates()
        &&& forall|i: int|
            0 <= i < self.alive@.len() ==> listing_of(self.configured@).contains(
                #[trigger] listing_of(self.alive@)[i],
            )
    }

    /// The members in the order in which they joined; no address occurs
    /// twice in it.
    pub closed spec fn listing(&self) -> Seq<Seq<char>> {
        listing_of(self.alive@)
    }

    /// The configured upstreams: the addresses that can be members.
    pub closed spec fn configured(&self) -> Set<Seq<char>> {
        addresses_of(self.configured@)
    }

    /// The set over no upstreams: nothing is configured, nothing is alive.
    pub fn new() -> (set: UpstreamSet)
        ensures
            set.listing() == Seq::<Seq<char>>::empty(),
            set@ == Set::<Seq<char>>::empty(),
            set.configured() == Set::<Seq<char>>::empty(),
    {
        let set = UpstreamSet { configured: Vec::new(), alive: Vec::new() };
        assert(set.listing() =~= Seq::<Seq<char>>::empty());
        assert(set@ =~= Set::<Seq<char>>::empty());
        assert(set.configured() =~= Set::<Seq<char>>::empty());
        set
    }

    /// The empty set over the configured upstreams `addresses`.
    pub fn none_alive(addresses: &Vec<String>) -> (set: UpstreamSet)
        ensures
            set.listing() == Seq::<Seq<char>>::empty(),
            set@ == Set::<Seq<char>>::empty(),
            set.configured() == addresses_of(addresses@),
    {
        let set = UpstreamSet { configured: copy_of(addresses), alive: Vec::new() };
        assert(set.listing() =~= Seq::<Seq<char>>::empty());
        assert(set@ =~= Set::<Seq<char>>::empty());
        set
    }

    /// Every member is one of the configured upstreams, given the type's
    /// invariant.
    proof fn members_configured(&self)
        requires
            self.well_formed(),
        ensures
            self@.subset_of(self.configured()),
            self.listing().no_duplicates(),
    {
        assert forall|a: Seq<char>| self@.contains(a) implies self.configured().contains(a) by {
            let k = choose|k: int| 0 <= k < self.listing().len() && self.listing()[k] == a;
            assert(listing_of(self.configured@).contains(listing_of(self.alive@)[k]));
        }
    }

    /// Whether `address` is one of the configured upstreams.
    pub fn is_configured(&self, address: &String) -> (configured: bool)
        ensures
            configured == self.configured().contains(address@),
    {
        find(&self.configured, address).is_some()
    }

    /// The set of all the addresses in `addresses`, which are the
    /// configured upstreams: each counts as alive until a health round says
    /// otherwise.
    pub fn from_addresses(addresses: &Vec<String>) -> (set: UpstreamSet)
        ensures
            set@ == addresses_of(addresses@),
            set.configured() == addresses_of(addresses@),
    {
        let mut set = UpstreamSet::none_alive(addresses);
        let mut i: usize = 0;
        while i < addresses.len()
            invariant
                0 <= i <= addresses.len(),
                set.configured() == addresses_of(addresses@),
                set@ == addresses_of(addresses@.take(i as int)),
            decreases addresses.len() - i,
        {
            let ghost before = set@;
            assert(listing_of(addresses@)[i as int] == addresses@[i as int]@);
            set.insert(addresses[i].clone());
            proof {
                let now = addresses@.take(i + 1);
                let was = addresses@.take(i as int);
                assert forall|a: Seq<char>| #[trigger]
                    addresses_of(now).contains(a) <==> before.insert(addresses@[i as int]@).contains(
                    a,
                ) by {
                    if addresses_of(now).contains(a) {
                        let k = choose|k: int| 0 <= k < now.len() && listing_of(now)[k] == a;
                        if k < i {
                            assert(listing_of(was)[k] == a);
                        }
                    }
                    if before.contains(a) {
                        let k = choose|k: int| 0 <= k < was.len() && listing_of(was)[k] == a;
                        assert(listing_of(now)[k] == a);
                    }
                    if a == addresses@[i as int]@ {
                        assert(listing_of(now)[i as int] == a);
                    }
                }
                assert(set@ =~= addresses_of(now));
            }
            i += 1;
        }
        assert(addresses@.take(i as int) =~= addresses@);
        set
    }

    /// The number of members. No address is listed twice, so this is the
    /// length of the listing; and every member is a configured upstream.
    pub fn len(&self) -> (n: usize)
        ensures
            n == self.listing().len(),
            self.listing().no_duplicates(),
            self@.subset_of(self.configured()),
    {
        proof {
            use_type_invariant(self);
            self.members_configured();
        }
        self.alive.len()
    }

    pub fn is_empty(&self) -> (empty: bool)
        ensures
            empty == (self.listing().len() == 0),
            empty == (self@ == Set::<Seq<char>>::empty()),
    {
        proof {
            if self.listing().len() == 0 {
                assert(self@ =~= Set::<Seq<char>>::empty());
            } else {
                assert(self.listing().contains(self.listing()[0]));
                assert(self@.contains(self.listing()[0]));
            }
        }
        self.alive.len() == 0
    }

    /// Where `address` stands in the listing, if it is a member.
    pub fn position(&self, address: &String) -> (found: Option<usize>)
        ensures
            found.is_some() == self@.contains(address@),
            found.is_some() ==> found.unwrap() < self.listing().len() && self.listing()[found.unwrap() as int]
                == address@,
    {
        let found = find(&self.alive, address);
        assert(found.is_some() ==> self.listing()[found.unwrap() as int] == address@);
        found
    }

    pub fn contains(&self, address: &String) -> (found: bool)
        ensures
            found == self@.contains(address@),
    {
        self.position(address).is_some()
    }

    /// Marks the configured upstream `address` as alive: adds it at the end
    /// of the listing unless it is a member already. An address that is not
    /// configured is not added.
    pub fn insert(&mut self, address: String) -> (added: bool)
        ensures
            added == (old(self).configured().contains(address@) && !old(self)@.contains(address@)),
            added ==> final(self).listing() == old(self).listing().push(address@),
            !added ==> final(self).listing() == old(self).listing(),
            old(self).configured().contains(address@) ==> final(self)@ == old(self)@.insert(
                address@,
            ),
            final(self).configured() == old(self).configured(),
    {
        let ghost before = self.listing();
        if !self.is_configured(&address) {
            return false;
        }
        if self.position(&address).is_some() {
            assert(self@ =~= self@.insert(address@));
            return false;
        }
        let mut taken = UpstreamSet::new();
        core::mem::swap(self, &mut taken);
        proof {
            use_type_invariant(&taken);
        }
        let configured = taken.configured;
        let mut alive = taken.alive;
        alive.push(address);
        proof {
            assert(listing_of(alive@) =~= before.push(address@));
            assert forall|i: int| 0 <= i < alive@.len() implies listing_of(configured@).contains(
                #[trigger] listing_of(alive@)[i],
            ) by {
                if i < before.len() {
                    assert(listing_of(alive@)[i] == listing_of(taken.alive@)[i]);
                }
            }
            assert forall|i: int, j: int|
                0 <= i < before.len() + 1 && 0 <= j < before.len() + 1 && i != j implies before.push(
                address@,
            )[i] != before.push(address@)[j] by {
                if i == before.len() {
                    assert(before.contains(before[j]));
                } else if j == before.len() {
                    assert(before.contains(before[i]));
                }
            }
        }
        *self = UpstreamSet { configured, alive };
        proof {
            assert forall|a: Seq<char>| self@.contains(a) <==> #[trigger] old(self)@.insert(
                address@,
            ).contains(a) by {
                if self@.contains(a) {
                    let k = choose|k: int| 0 <= k < self.listing().len() && self.listing()[k] == a;
                    if k < before.len() {
                        assert(before[k] == a);
                    }
                }
                if old(self)@.contains(a) {
                    let k = choose|k: int| 0 <= k < before.len() && before[k] == a;
                    assert(self.listing()[k] == a);
                }
                if a == address@ {
                    assert(self.listing()[before.len() as int] == a);
                }
            }
            assert(self@ =~= old(self)@.insert(address@));
        }
        true
    }

    /// Takes `address` out of the set; the other members keep their order.
    pub fn remove(&mut self, address: &String) -> (removed: bool)
        ensures
            removed == old(self)@.contains(address@),
            final(self)@ == old(self)@.remove(address@),
            final(self).configured() == old(self).configured(),
            !removed ==> final(self).listing() == old(self).listing(),
            removed ==> exists|i: int|
                0 <= i < old(self).listing().len() && old(self).listing()[i] == address@
                    && final(self).listing() == old(self).listing().remove(i),
    {
        let ghost before = self.listing();
        match self.position(address) {
            None => {
                assert(self@ =~= self@.remove(address@));
                false
            },
            Some(at) => {
                let mut taken = UpstreamSet::new();
                core::mem::swap(self, &mut taken);
                proof {
                    use_type_invariant(&taken);
                }
                let configured = taken.configured;
                let mut alive = taken.alive;
                alive.remove(at);
                proof {
                    assert(listing_of(alive@) =~= before.remove(at as int));
                    assert forall|i: int| 0 <= i < alive@.len() implies listing_of(
                        configured@,
                    ).contains(#[trigger] listing_of(alive@)[i]) by {
                        if i < at {
                            assert(listing_of(alive@)[i] == listing_of(taken.alive@)[i]);
                        } else {
                            assert(listing_of(alive@)[i] == listing_of(taken.alive@)[i + 1]);
                        }
                    }
                    assert(listing_of(alive@).no_duplicates());
                }
                *self = UpstreamSet { configured, alive };
                proof {
                    let after = self.listing();
                    assert forall|a: Seq<char>| self@.contains(a) <==> #[trigger] old(self)@.remove(
                        address@,
                    ).contains(a) by {
                        if self@.contains(a) {
                            let k = choose|k: int| 0 <= k < after.len() && after[k] == a;
                            if k < at {
                                assert(before[k] == a);
                            } else {
                                assert(before[k + 1] == a);
                            }
                        }
                        if old(self)@.contains(a) && a != address@ {
                            let k = choose|k: int| 0 <= k < before.len() && before[k] == a;
                            if k < at {
                                assert(after[k] == a);
                            } else {
                                assert(after[k - 1] == a);
                            }
                        }
                    }
                    assert(self@ =~= old(self)@.remove(address@));
                }
                true
            },
        }
    }

    /// The member at position `index` of the listing.
    pub fn get(&self, index: usize) -> (address: String)
        requires
            index < self.listing().len(),
        ensures
            address@ == self.listing()[index as int],
            self@.contains(address@),
    {
        assert(self.listing().contains(self.listing()[index as int]));
        self.alive[index].clone()
    }

    /// The member that a draw stands for: the one at the drawn position, or
    /// none where nothing was drawn.
    pub fn pick(&self, draw: Option<usize>) -> (address: Option<String>)
        requires
            draw.is_some() ==> draw.unwrap() < self.listing().len(),
        ensures
            draw.is_none() ==> address.is_none(),
            draw.is_some() ==> address.is_some() && address.unwrap()@ == self.listing()[draw.unwrap() as int],
    {
        match draw {
            None => None,
            Some(index) => Some(self.get(index)),
        }
    }

    /// Draws a position at random: none if and only if the set is empty,
    /// else a position of the listing.
    pub fn draw(&self, rng: &mut StdRng) -> (draw: Option<usize>)
        ensures
            draw.is_none() == (self.listing().len() == 0),
            draw.is_some() ==> draw.unwrap() < self.listing().len(),
    {
        choose_index(rng, self.alive.len())
    }

    /// Chooses one member at random. There is none to choose if and only if
    /// the set is empty.
    pub fn choose_random(&self, rng: &mut StdRng) -> (address: Option<String>)
        ensures
            address.is_none() == (self@ == Set::<Seq<char>>::empty()),
            address.is_some() ==> self@.contains(address.unwrap()@),
    {
        let empty = self.is_empty();
        let draw = self.draw(rng);
        let address = self.pick(draw);
        proof {
            if address.is_some() {
                assert(self.listing().contains(self.listing()[draw.unwrap() as int]));
            }
        }
        address
    }

    /// The alive addresses at this moment, as a vector of their own.
    pub fn snapshot(&self) -> (addresses: Vec<String>)
        ensures
            listing_of(addresses@) == self.listing(),
            addresses_of(addresses@) == self@,
            self@.subset_of(self.configured()),
    {
        proof {
            use_type_invariant(self);
            self.members_configured();
        }
        let mut addresses: Vec<String> = Vec::new();
        let mut i: usize = 0;
        while i < self.alive.len()
            invariant
                0 <= i <= self.alive.len(),
                addresses@.len() == i,
                forall|k: int| 0 <= k < i ==> addresses@[k]@ == self.alive@[k]@,
            decreases self.alive.len() - i,
        {
            addresses.push(self.alive[i].clone());
            i += 1;
        }
        assert(listing_of(addresses@) =~= self.listing());
        assert(addresses_of(addresses@) =~= self@);
        addresses
    }

    /// Puts `fresh` in the place of the whole set, in one step. The set is
    /// from then on a set over the upstreams that `fresh` was made for.
    pub fn replace(&mut self, fresh: UpstreamSet)
        ensures
            *final(self) == fresh,
    {
        *self = fresh;
    }
}

} // verus!
