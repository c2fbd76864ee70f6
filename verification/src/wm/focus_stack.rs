use vstd::prelude::*;

use std::collections::VecDeque;
use vstd::std_specs::vecdeque::VecDequeAdditionalSpecFns;

verus! {

/// Remove the (single) occurrence of `c` from `s`, if there is one.
pub open spec fn seq_without(s: Seq<u32>, c: u32) -> Seq<u32> {
    if s.contains(c) {
        s.remove(s.index_of(c))
    } else {
        s
    }
}

/// A stack of window ids, the most recently focused window first.
///
/// No window id occurs twice.
#[derive(Debug)]
pub struct FocusStack {
    data: VecDeque<u32>,
}

impl View for FocusStack {
    type V = Seq<u32>;

    closed spec fn view(&self) -> Seq<u32> {
        self.data@
    }
}

impl Clone for FocusStack {
    fn clone(&self) -> (r: Self)
        ensures
            r@ == self@,
    {
        proof {
            use_type_invariant(self);
        }
        let data = self.data.clone();
        assert(data@ =~= self.data@) by {
            assert forall|i: int| 0 <= i < data@.len() implies data@[i] == self.data@[i] by {
                assert(cloned::<u32>(self.data[i], data[i]));
            }
        }
        FocusStack { data }
    }
}

impl FocusStack {
    #[verifier::type_invariant]
    closed spec fn inv(&self) -> bool {
        self.data@.no_duplicates()
    }

    /// An empty focus stack.
    pub fn new() -> (r: Self)
        ensures
            r@ == Seq::<u32>::empty(),
    {
        FocusStack { data: VecDeque::new() }
    }

    /// The currently focused window, if any.
    pub fn focused_client(&self) -> (r: Option<u32>)
        ensures
            r == (if self@.len() > 0 { Some(self@[0]) } else { None::<u32> }),
    {
        if self.data.len() > 0 {
            Some(self.data[0])
        } else {
            None
        }
    }

    /// The window that was focused before the current one, if any.
    pub fn previously_focused_client(&self) -> (r: Option<u32>)
        ensures
            r == (if self@.len() > 1 { Some(self@[1]) } else { None::<u32> }),
    {
        if self.data.len() > 1 {
            Some(self.data[1])
        } else {
            None
        }
    }

    /// Index of `c` in the stack, if present.
    fn position(&self, c: u32) -> (r: Option<usize>)
        ensures
            match r {
                Some(i) => i < self@.len() && self@[i as int] == c && i == self@.index_of(c),
                None => !self@.contains(c),
            },
    {
        proof {
            use_type_invariant(self);
        }
        let mut i: usize = 0;
        while i < self.data.len()
            invariant
                i <= self.data@.len(),
                self.data@.no_duplicates(),
                forall|j: int| 0 <= j < i ==> self.data@[j] != c,
            decreases self.data@.len() - i,
        {
            if self.data[i] == c {
                proof {
                    assert(self@.contains(c));
                    let k = self@.index_of(c);
                    assert(self@[k] == c);
                    assert(k == i as int);
                }
                return Some(i);
            }
            i = i + 1;
        }
        None
    }

    /// Make `c` the focused window: it moves to the top of the stack, the order of the
    /// other windows is kept.
    pub fn set_focused_client(&mut self, c: u32)
        ensures
            final(self)@ == seq![c] + seq_without(old(self)@, c),
    {
        proof {
            use_type_invariant(&*self);
        }
        let pos = self.position(c);
        let mut data = VecDeque::new();
        std::mem::swap(&mut data, &mut self.data);
        let ghost before = data@;
        if let Some(i) = pos {
            let _ = data.remove(i);
        }
        data.push_front(c);
        proof {
            let rest = seq_without(before, c);
            assert(!rest.contains(c));
            assert(rest.no_duplicates());
            assert(data@ == seq![c] + rest);
        }
        self.data = data;
    }

    /// Forget the window `c`; the order of the other windows is kept.
    pub fn remove_client(&mut self, c: u32)
        ensures
            final(self)@ == seq_without(old(self)@, c),
    {
        proof {
            use_type_invariant(&*self);
        }
        let pos = self.position(c);
        let mut data = VecDeque::new();
        std::mem::swap(&mut data, &mut self.data);
        if let Some(i) = pos {
            let _ = data.remove(i);
        }
        self.data = data;
    }
}

} // verus!
