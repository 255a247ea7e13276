//! The set of favourite coins and its stored form.

use vstd::prelude::*;

use crate::text::views_of;

verus! {

/// The stored form of the favourite coins: their ids.
pub struct FavoritesData {
    pub favorites: Vec<String>,
}

/// A set of coin ids, kept in the order in which they were added.
pub struct FavoriteSet {
    ids: Vec<String>,
}

impl View for FavoriteSet {
    type V = Set<Seq<char>>;

    open spec fn view(&self) -> Set<Seq<char>> {
        self.order().to_set()
    }
}

impl FavoriteSet {
    #[verifier::type_invariant]
    closed spec fn no_repeats(&self) -> bool {
        views_of(self.ids@).no_duplicates()
    }

    /// The ids in the order in which they were added.
    pub closed spec fn order(&self) -> Seq<Seq<char>> {
        views_of(self.ids@)
    }

    /// An empty set.
    pub fn new() -> (s: Self)
        ensures
            s@ == Set::<Seq<char>>::empty(),
            s.order() == Seq::<Seq<char>>::empty(),
    {
        let s = FavoriteSet { ids: Vec::new() };
        assert(views_of(s.ids@) =~= Seq::<Seq<char>>::empty());
        s
    }

    /// The number of ids in the set.
    pub fn len(&self) -> (n: usize)
        ensures
            n == self@.len(),
    {
        proof {
            use_type_invariant(self);
            views_of(self.ids@).unique_seq_to_set();
        }
        self.ids.len()
    }

    /// Adds `id`; returns whether it was not in the set before.
    pub fn insert(&mut self, id: String) -> (added: bool)
        ensures
            final(self)@ == old(self)@.insert(id@),
            added == !old(self)@.contains(id@),
            final(self).order() == if added { old(self).order().push(id@) } else { old(self).order() },
    {
        proof {
            use_type_invariant(&*self);
        }
        if self.contains(&id) {
            proof {
                assert(self@.insert(id@) =~= self@);
            }
            return false;
        }
        let ghost before = views_of(self.ids@);
        let mut ids: Vec<String> = Vec::new();
        std::mem::swap(&mut ids, &mut self.ids);
        ids.push(id);
        proof {
            assert(views_of(ids@) =~= before.push(id@));
            before.lemma_push_to_set_commute(id@);
        }
        self.ids = ids;
        true
    }

    /// Removes `id`; returns whether it was in the set.
    pub fn remove(&mut self, id: &String) -> (removed: bool)
        ensures
            final(self)@ == old(self)@.remove(id@),
            removed == old(self)@.contains(id@),
            removed ==> exists|i: int|
                0 <= i < old(self).order().len() && old(self).order()[i] == id@ && final(self).order()
                    == old(self).order().remove(i),
            !removed ==> final(self).order() == old(self).order(),
    {
        proof {
            use_type_invariant(&*self);
        }
        let mut i: usize = 0;
        while i < self.ids.len()
            invariant
                i <= self.ids@.len(),
                self.ids@ == old(self).ids@,
                views_of(self.ids@).no_duplicates(),
                forall|k: int| 0 <= k < i ==> self.ids@[k]@ != id@,
            decreases self.ids@.len() - i,
        {
            if self.ids[i] == *id {
                let ghost before = views_of(self.ids@);
                assert(before.no_duplicates());
                assert(before[i as int] == id@);
                let mut ids: Vec<String> = Vec::new();
                std::mem::swap(&mut ids, &mut self.ids);
                ids.remove(i);
                proof {
                    let after = views_of(ids@);
                    assert(after =~= before.remove(i as int));
                    assert forall|x: Seq<char>| #[trigger] after.to_set().contains(x) == before.to_set().remove(id@).contains(x) by {
                        if after.contains(x) {
                            let k: int = choose|k: int| 0 <= k < after.len() && after[k] == x;
                            if k < i {
                                assert(before[k] == x);
                            } else {
                                assert(before[k + 1] == x);
                            }
                            assert(x != id@);
                        }
                        if before.contains(x) && x != id@ {
                            let k: int = choose|k: int| 0 <= k < before.len() && before[k] == x;
                            if k < i {
                                assert(after[k] == x);
                            } else {
                                assert(k != i);
                                assert(after[k - 1] == x);
                            }
                        }
                    }
                    assert(after.to_set() =~= before.to_set().remove(id@));
                    assert(before[i as int] == id@);
                    assert forall|a: int, b: int| 0 <= a < b < after.len() implies after[a] != after[b] by {
                        let a2 = if a < i { a } else { a + 1 };
                        let b2 = if b < i { b } else { b + 1 };
                        assert(after[a] == before[a2] && after[b] == before[b2]);
                    }
                }
                self.ids = ids;
                assert(self.order() =~= old(self).order().remove(i as int));
                return true;
            }
            i = i + 1;
        }
        proof {
            assert(!views_of(self.ids@).contains(id@));
            assert(self@.remove(id@) =~= self@);
        }
        false
    }

    /// Whether `id` is in the set.
    pub fn contains(&self, id: &String) -> (r: bool)
        ensures
            r == self@.contains(id@),
    {
        proof {
            use_type_invariant(self);
        }
        let mut i: usize = 0;
        while i < self.ids.len()
            invariant
                i <= self.ids@.len(),
                forall|k: int| 0 <= k < i ==> self.ids@[k]@ != id@,
            decreases self.ids@.len() - i,
        {
            if self.ids[i] == *id {
                assert(views_of(self.ids@)[i as int] == id@);
                return true;
            }
            i = i + 1;
        }
        assert(!views_of(self.ids@).contains(id@));
        false
    }
}

/// The stored form of `favorites`: each id once, in the set's order.
pub fn favorites_to_data(favorites: &FavoriteSet) -> (data: FavoritesData)
    ensures
        views_of(data.favorites@) == favorites.order(),
        views_of(data.favorites@).to_set() == favorites@,
        views_of(data.favorites@).no_duplicates(),
{
    proof {
        use_type_invariant(favorites);
    }
    let mut out: Vec<String> = Vec::new();
    let mut i: usize = 0;
    while i < favorites.ids.len()
        invariant
            i <= favorites.ids@.len(),
            views_of(out@) == views_of(favorites.ids@).take(i as int),
        decreases favorites.ids@.len() - i,
    {
        let ghost before = out@;
        let id = favorites.ids[i].clone();
        assert(id@ == favorites.ids@[i as int]@);
        out.push(id);
        proof {
            assert(out@ == before.push(id));
            assert(views_of(out@) =~= views_of(before).push(id@));
            assert(views_of(out@) =~= views_of(favorites.ids@).take(i + 1));
        }
        i = i + 1;
    }
    proof {
        assert(views_of(favorites.ids@).take(i as int) =~= views_of(favorites.ids@));
    }
    FavoritesData { favorites: out }
}

/// The set of favourites that `data` stores; repeated ids count once.
pub fn favorites_from_data(data: FavoritesData) -> (favorites: FavoriteSet)
    ensures
        favorites@ == views_of(data.favorites@).to_set(),
{
    let ghost ids = views_of(data.favorites@);
    let mut set = FavoriteSet::new();
    let mut i: usize = 0;
    while i < data.favorites.len()
        invariant
            i <= data.favorites@.len(),
            ids == views_of(data.favorites@),
            set@ == ids.take(i as int).to_set(),
        decreases data.favorites@.len() - i,
    {
        let id = data.favorites[i].clone();
        set.insert(id);
        proof {
            assert(ids.take(i + 1) =~= ids.take(i as int).push(ids[i as int]));
            ids.take(i as int).lemma_push_to_set_commute(ids[i as int]);
        }
        i = i + 1;
    }
    proof {
        assert(ids.take(i as int) =~= ids);
    }
    set
}

/// Storing favourites and loading them back gives the same set: given what
/// `favorites_to_data` promises of the data it makes from `saved`, and what
/// `favorites_from_data` promises of the set it makes from that data, the
/// loaded set is `saved`, and the data holds one entry per favourite.
pub proof fn stored_favorites_round_trip(saved: FavoriteSet, data: FavoritesData, loaded: FavoriteSet)
    requires
        views_of(data.favorites@) == saved.order(),
        views_of(data.favorites@).to_set() == saved@,
        views_of(data.favorites@).no_duplicates(),
        loaded@ == views_of(data.favorites@).to_set(),
    ensures
        loaded@ == saved@,
        data.favorites@.len() == saved@.len(),
{
    views_of(data.favorites@).unique_seq_to_set();
}

} // verus!
