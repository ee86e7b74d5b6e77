//! The executions known to be favorites, as storage last reported them:
//! toggling a favorite in storage, and clearing history, report here.
use vstd::prelude::*;

use crate::ids::InvocationId;
use crate::text::str_eq;

verus! {

/// The invocations known to be favorites.
pub struct KnownFavorites {
    ids: Vec<InvocationId>,
}

impl View for KnownFavorites {
    type V = Set<Seq<char>>;

    closed spec fn view(&self) -> Set<Seq<char>> {
        self.ids@.map_values(|i: InvocationId| i@).to_set()
    }
}

impl KnownFavorites {
    /// Which ids are held, each once.
    pub closed spec fn well_formed(&self) -> bool {
        self.ids@.map_values(|i: InvocationId| i@).no_duplicates()
    }

    /// No favorite known.
    pub fn new() -> (r: Self)
        ensures
            r.well_formed(),
            r@ == Set::<Seq<char>>::empty(),
    {
        let r = KnownFavorites { ids: Vec::new() };
        assert(r.ids@.map_values(|i: InvocationId| i@) =~= Seq::<Seq<char>>::empty());
        assert(r@ =~= Set::<Seq<char>>::empty());
        r
    }

    /// The position of `id`, if it is known.
    fn position(&self, id: &InvocationId) -> (r: Option<usize>)
        ensures
            match r {
                Some(k) => k < self.ids@.len() && self.ids@[k as int]@ == id@,
                None => !self@.contains(id@),
            },
    {
        let mut k: usize = 0;
        while k < self.ids.len()
            invariant
                k <= self.ids@.len(),
                forall|j: int| 0 <= j < k ==> (#[trigger] self.ids@[j])@ != id@,
            decreases self.ids.len() - k,
        {
            if str_eq(self.ids[k].as_str(), id.as_str()) {
                return Some(k);
            }
            k += 1;
        }
        proof {
            if self@.contains(id@) {
                let s = self.ids@.map_values(|i: InvocationId| i@);
                assert(s.contains(id@));
                let j = choose|j: int| 0 <= j < s.len() && s[j] == id@;
                assert(self.ids@[j]@ == id@);
            }
        }
        None
    }

    /// Whether `id` is known to be a favorite.
    pub fn contains(&self, id: &InvocationId) -> (r: bool)
        ensures
            r == self@.contains(id@),
    {
        match self.position(id) {
            Some(k) => {
                assert(self.ids@.map_values(|i: InvocationId| i@)[k as int] == id@);
                true
            },
            None => false,
        }
    }

    /// Records what storage reported of `id`: a favorite or not.
    pub fn record(&mut self, id: InvocationId, favorite: bool)
        requires
            old(self).well_formed(),
        ensures
            final(self).well_formed(),
            final(self)@ == if favorite {
                old(self)@.insert(id@)
            } else {
                old(self)@.remove(id@)
            },
    {
        let ghost s = self.ids@.map_values(|i: InvocationId| i@);
        match self.position(&id) {
            Some(k) => {
                if !favorite {
                    let ghost before = self.ids@;
                    self.ids.remove(k);
                    proof {
                        let t = self.ids@.map_values(|i: InvocationId| i@);
                        assert(t =~= s.remove(k as int));
                        assert(s[k as int] == id@);
                        assert forall|a: Seq<char>| t.contains(a) <==> (s.contains(a) && a != id@) by {
                            if t.contains(a) {
                                let j = choose|j: int| 0 <= j < t.len() && t[j] == a;
                                if j < k {
                                    assert(s[j] == a);
                                } else {
                                    assert(s[j + 1] == a);
                                }
                                assert(s.contains(a));
                                if a == id@ {
                                    if j < k {
                                        assert(s[j] == s[k as int]);
                                    } else {
                                        assert(s[j + 1] == s[k as int]);
                                    }
                                }
                            }
                            if s.contains(a) && a != id@ {
                                let j = choose|j: int| 0 <= j < s.len() && s[j] == a;
                                if j < k {
                                    assert(t[j] == a);
                                } else {
                                    assert(j != k);
                                    assert(t[j - 1] == a);
                                }
                            }
                        }
                        assert(self@ =~= old(self)@.remove(id@));
                    }
                } else {
                    proof {
                        assert(s[k as int] == id@);
                        assert(self@ =~= old(self)@.insert(id@));
                    }
                }
            },
            None => {
                if favorite {
                    self.ids.push(id);
                    proof {
                        let t = self.ids@.map_values(|i: InvocationId| i@);
                        assert(t =~= s.push(id@));
                        assert(!s.contains(id@));
                        assert forall|i: int, j: int| 0 <= i < j < t.len() implies t[i] != t[j] by {
                            if j < s.len() {
                                assert(t[i] == s[i] && t[j] == s[j]);
                            } else {
                                assert(t[i] == s[i]);
                            }
                        }
                        assert forall|a: Seq<char>| t.contains(a) <==> (s.contains(a) || a == id@) by {
                            if t.contains(a) {
                                let j = choose|j: int| 0 <= j < t.len() && t[j] == a;
                                if j < s.len() {
                                    assert(s[j] == a);
                                }
                            }
                            if s.contains(a) {
                                let j = choose|j: int| 0 <= j < s.len() && s[j] == a;
                                assert(t[j] == a);
                            }
                            if a == id@ {
                                assert(t[s.len() as int] == a);
                            }
                        }
                        assert(self@ =~= old(self)@.insert(id@));
                    }
                } else {
                    assert(self@ =~= old(self)@.remove(id@));
                }
            },
        }
    }

    /// Forgets every favorite, as clearing history with its favorites does.
    pub fn clear(&mut self)
        ensures
            final(self).well_formed(),
            final(self)@ == Set::<Seq<char>>::empty(),
    {
        self.ids = Vec::new();
        assert(self.ids@.map_values(|i: InvocationId| i@) =~= Seq::<Seq<char>>::empty());
        assert(self@ =~= Set::<Seq<char>>::empty());
    }
}

/// What is recorded of a favorite is what is read back: after recording
/// `id` as `favorite`, asking for `id` gives `favorite`, and every other id
/// reads as before.
pub proof fn favorites_read_after_record(known: Set<Seq<char>>, id: Seq<char>, favorite: bool, other: Seq<char>)
    ensures
        (if favorite {
            known.insert(id)
        } else {
            known.remove(id)
        }).contains(id) == favorite,
        other != id ==> ((if favorite {
            known.insert(id)
        } else {
            known.remove(id)
        }).contains(other) == known.contains(other)),
{
}

} // verus!
