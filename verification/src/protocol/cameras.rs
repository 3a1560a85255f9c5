//! The camera sets of a track: a mapping from the name of a set to the names
//! of its cameras.
//!
//! The sets are kept in a list in which no name occurs twice. A set that is
//! inserted under a name that is already there takes the place of the
//! earlier one.

use crate::protocol::text::all_owned;
use crate::protocol::text::owned_text;
use crate::protocol::text::owned_texts;
use crate::protocol::text::same_text_copy;
use crate::protocol::text::same_texts_copy;
use crate::protocol::text::same_text;
use crate::protocol::text::text_of;
use crate::protocol::text::texts;
use std::borrow::Cow;
use vstd::prelude::*;

verus! {

/// The names of the cameras of one set.
pub type CameraSet<'a> = Vec<Cow<'a, str>>;

/// The names of the HUD pages.
pub type HudPages<'a> = Vec<Cow<'a, str>>;

/// The mapping that a list of named sets stands for: read from the front,
/// each set is entered under its name, and replaces what was there.
pub open spec fn sets_map(sets: Seq<(Seq<char>, Seq<Seq<char>>)>) -> Map<
    Seq<char>,
    Seq<Seq<char>>,
>
    decreases sets.len(),
{
    if sets.len() == 0 {
        Map::empty()
    } else {
        sets_map(sets.drop_last()).insert(sets.last().0, sets.last().1)
    }
}

/// The names under which the sets of a list are entered.
pub open spec fn set_names<'a>(sets: Seq<(Cow<'a, str>, CameraSet<'a>)>) -> Seq<Seq<char>> {
    Seq::new(sets.len(), |i: int| sets[i].0@)
}

/// The camera sets of a track.
#[derive(Debug)]
pub struct CameraSets<'a> {
    sets: Vec<(Cow<'a, str>, CameraSet<'a>)>,
}

impl<'a> View for CameraSets<'a> {
    type V = Map<Seq<char>, Seq<Seq<char>>>;

    closed spec fn view(&self) -> Map<Seq<char>, Seq<Seq<char>>> {
        let names = set_names(self.sets@);
        Map::new(
            |name: Seq<char>| names.contains(name),
            |name: Seq<char>| texts(self.sets@[names.index_of(name)].1@),
        )
    }
}

impl<'a> CameraSets<'a> {
    #[verifier::type_invariant]
    spec fn distinct_names(&self) -> bool {
        set_names(self.sets@).no_duplicates()
    }

    /// No string of the value is borrowed.
    pub closed spec fn is_owned(&self) -> bool {
        forall|i: int|
            0 <= i < self.sets@.len() ==> (#[trigger] self.sets@[i]).0 is Owned && all_owned(
                self.sets@[i].1@,
            )
    }

    /// No sets.
    pub fn new() -> (sets: CameraSets<'a>)
        ensures
            sets@ == Map::<Seq<char>, Seq<Seq<char>>>::empty(),
    {
        CameraSets { sets: Vec::new() }
    }

    /// How many sets there are.
    pub fn len(&self) -> (n: usize)
        ensures
            self@.dom().finite(),
            n == self@.dom().len(),
    {
        proof {
            use_type_invariant(self);
            let names = set_names(self.sets@);
            names.unique_seq_to_set();
            vstd::seq_lib::seq_to_set_is_finite(names);
        }
        self.sets.len()
    }

    /// The cameras of the set called `name`, if there is such a set.
    pub fn get(&self, name: &str) -> (cameras: Option<&CameraSet<'a>>)
        ensures
            match cameras {
                Some(list) => self@.contains_key(name@) && texts(list@) == self@[name@],
                None => !self@.contains_key(name@),
            },
    {
        proof {
            use_type_invariant(self);
        }
        let mut i: usize = 0;
        while i < self.sets.len()
            invariant
                i <= self.sets@.len(),
                set_names(self.sets@).no_duplicates(),
                forall|j: int| 0 <= j < i ==> set_names(self.sets@)[j] != name@,
            decreases self.sets.len() - i,
        {
            if same_text(text_of(&self.sets[i].0), name) {
                assert(set_names(self.sets@)[i as int] == name@);
                return Some(&self.sets[i].1);
            }
            i += 1;
        }
        None
    }

    /// Enters `cameras` under `name`. A set that was there under that name
    /// is dropped.
    pub fn insert(&mut self, name: Cow<'a, str>, cameras: CameraSet<'a>)
        ensures
            final(self)@ == old(self)@.insert(name@, texts(cameras@)),
    {
        proof {
            use_type_invariant(&*self);
        }
        let ghost before = self.sets@;
        let ghost names = set_names(before);
        let mut sets: Vec<(Cow<'a, str>, CameraSet<'a>)> = Vec::new();
        core::mem::swap(&mut self.sets, &mut sets);
        let mut i: usize = 0;
        while i < sets.len()
            invariant
                i <= sets@.len(),
                sets@ == before,
                names == set_names(before),
                forall|j: int| 0 <= j < i ==> names[j] != name@,
            ensures
                i < sets@.len() ==> names[i as int] == name@,
            decreases sets.len() - i,
        {
            if same_text(text_of(&sets[i].0), text_of(&name)) {
                break ;
            }
            i += 1;
        }
        if i < sets.len() {
            assert(set_names(before.update(i as int, (name, cameras))) =~= names);
            sets[i] = (name, cameras);
            self.sets = sets;
        } else {
            assert(set_names(before.push((name, cameras))) =~= names.push(name@));
            sets.push((name, cameras));
            self.sets = sets;
            proof {
                let grown = set_names(self.sets@);
                assert forall|k: Seq<char>| grown.contains(k) <==> (k == name@ || names.contains(
                    k,
                )) by {
                    if names.contains(k) {
                        assert(grown[names.index_of(k)] == k);
                    }
                    if k == name@ {
                        assert(grown[names.len() as int] == k);
                    }
                }
            }
        }
    }

    /// The same sets, holding their strings themselves.
    pub fn into_owned(self) -> (copy: CameraSets<'static>)
        ensures
            copy@ == self@,
            copy.is_owned(),
    {
        proof {
            use_type_invariant(&self);
        }
        let mut sets: Vec<(Cow<'static, str>, CameraSet<'static>)> = Vec::new();
        let mut i: usize = 0;
        while i < self.sets.len()
            invariant
                i <= self.sets@.len(),
                sets@.len() == i,
                forall|j: int|
                    0 <= j < i ==> (#[trigger] sets@[j]).0@ == self.sets@[j].0@ && texts(
                        sets@[j].1@,
                    ) == texts(self.sets@[j].1@),
                forall|j: int|
                    0 <= j < i ==> (#[trigger] sets@[j]).0 is Owned && all_owned(sets@[j].1@),
            decreases self.sets.len() - i,
        {
            let name = owned_text(&self.sets[i].0);
            let cameras = owned_texts(&self.sets[i].1);
            sets.push((name, cameras));
            i += 1;
        }
        assert(set_names(sets@) =~= set_names(self.sets@));
        CameraSets { sets }
    }
}

impl<'a> Clone for CameraSets<'a> {
    /// A copy of the sets. A string that is borrowed stays borrowed.
    fn clone(&self) -> (copy: CameraSets<'a>)
        ensures
            copy@ == self@,
    {
        proof {
            use_type_invariant(self);
        }
        let mut sets: Vec<(Cow<'a, str>, CameraSet<'a>)> = Vec::new();
        let mut i: usize = 0;
        while i < self.sets.len()
            invariant
                i <= self.sets@.len(),
                sets@.len() == i,
                forall|j: int|
                    0 <= j < i ==> (#[trigger] sets@[j]).0@ == self.sets@[j].0@ && texts(
                        sets@[j].1@,
                    ) == texts(self.sets@[j].1@),
            decreases self.sets.len() - i,
        {
            let name = same_text_copy(&self.sets[i].0);
            let cameras = same_texts_copy(&self.sets[i].1);
            sets.push((name, cameras));
            i += 1;
        }
        assert(set_names(sets@) =~= set_names(self.sets@));
        CameraSets { sets }
    }
}

} // verus!
