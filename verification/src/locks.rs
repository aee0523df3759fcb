//! Which runs may not work at one time: those that write in one directory.

use crate::state::TaskOptions;
use crate::text::{same_text, views};
use vstd::prelude::*;

verus! {

/// The directories that runs write in, each at the place of its lock.
pub struct WriteLocks {
    pub directories: Vec<String>,
}

impl View for WriteLocks {
    type V = Seq<Seq<char>>;

    open spec fn view(&self) -> Seq<Seq<char>> {
        views(self.directories@)
    }
}

/// The directories with one more, which gets the next place unless it has one.
pub open spec fn with_place(directories: Seq<Seq<char>>, directory: Seq<char>) -> Seq<Seq<char>> {
    if directories.contains(directory) {
        directories
    } else {
        directories.push(directory)
    }
}

/// The directories with those that come later.
pub open spec fn with_places(directories: Seq<Seq<char>>, later: Seq<Seq<char>>) -> Seq<Seq<char>>
    decreases later.len(),
{
    if later.len() == 0 {
        directories
    } else {
        with_place(with_places(directories, later.drop_last()), later.last())
    }
}

impl WriteLocks {
    /// No directory has two places.
    pub open spec fn wf(&self) -> bool {
        self@.no_duplicates()
    }

    /// No directory has a place yet.
    pub fn new() -> (locks: WriteLocks)
        ensures
            locks.wf(),
            locks@ == Seq::<Seq<char>>::empty(),
    {
        let locks = WriteLocks { directories: Vec::new() };
        assert(locks@ =~= Seq::<Seq<char>>::empty());
        locks
    }

    /// The place of the lock of a directory.
    pub fn place(&mut self, directory: &str) -> (place: usize)
        requires
            old(self).wf(),
        ensures
            final(self).wf(),
            final(self)@ == with_place(old(self)@, directory@),
            place < final(self)@.len(),
            final(self)@[place as int] == directory@,
    {
        let mut i: usize = 0;
        while i < self.directories.len()
            invariant
                i <= self.directories.len(),
                *self == *old(self),
                self.wf(),
                forall|j: int| 0 <= j < i ==> (#[trigger] self@[j]) != directory@,
            decreases self.directories.len() - i,
        {
            assert(self@[i as int] == self.directories@[i as int]@);
            if same_text(self.directories[i].as_str(), directory) {
                assert(self@.contains(directory@));
                return i;
            }
            i = i + 1;
        }
        assert(!self@.contains(directory@));
        self.directories.push(directory.to_owned());
        assert(self@ =~= old(self)@.push(directory@));
        i
    }

    /// The place of the lock that a run has to hold: that of its directory, where it may write.
    pub fn place_for(&mut self, options: &TaskOptions) -> (place: Option<usize>)
        requires
            old(self).wf(),
        ensures
            final(self).wf(),
            match place {
                Some(i) => {
                    &&& options.write_enabled
                    &&& final(self)@ == with_place(old(self)@, options.working_directory@)
                    &&& i < final(self)@.len()
                    &&& final(self)@[i as int] == options.working_directory@
                },
                None => !options.write_enabled && *final(self) == *old(self),
            },
    {
        if options.write_enabled {
            Some(self.place(options.working_directory.as_str()))
        } else {
            None
        }
    }
}

/// No place changes when others get theirs.
pub proof fn law_places_stay(directories: Seq<Seq<char>>, later: Seq<Seq<char>>)
    requires
        directories.no_duplicates(),
    ensures
        with_places(directories, later).no_duplicates(),
        directories.len() <= with_places(directories, later).len(),
        forall|i: int|
            0 <= i < directories.len() ==> #[trigger] with_places(directories, later)[i]
                == directories[i],
    decreases later.len(),
{
    if later.len() > 0 {
        law_places_stay(directories, later.drop_last());
    }
}

/// Writes are serialized by directory: whatever other directories come between them, two runs that
/// write are given one lock exactly where they write in one directory.
pub proof fn law_one_lock_for_one_directory(
    directories: Seq<Seq<char>>,
    first: Seq<char>,
    place: int,
    between: Seq<Seq<char>>,
    second: Seq<char>,
    other_place: int,
)
    requires
        directories.no_duplicates(),
        ({
            let then = with_place(directories, first);
            let later = with_place(with_places(then, between), second);
            &&& 0 <= place < then.len() && then[place] == first
            &&& 0 <= other_place < later.len() && later[other_place] == second
        }),
    ensures
        place == other_place <==> first == second,
{
    let then = with_place(directories, first);
    assert(then.no_duplicates());
    law_places_stay(then, between.push(second));
    assert(between.push(second).drop_last() =~= between);
    let later = with_place(with_places(then, between), second);
    assert(later == with_places(then, between.push(second)));
    assert(later[place] == then[place]);
}

} // verus!
