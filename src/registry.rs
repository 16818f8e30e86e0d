use vstd::prelude::*;

verus! {

/// Some entry of `s` is for process `id`.
pub open spec fn has_id<H>(s: Seq<(i32, H)>, id: i32) -> bool {
    exists|i: int| 0 <= i < s.len() && #[trigger] s[i].0 == id
}

/// No process has two entries.
pub open spec fn ids_unique<H>(s: Seq<(i32, H)>) -> bool {
    forall|i: int, j: int| 0 <= i < j < s.len() ==> #[trigger] s[i].0 != #[trigger] s[j].0
}

/// The position of the entry for `id`.
pub open spec fn index_of<H>(s: Seq<(i32, H)>, id: i32) -> int {
    choose|i: int| 0 <= i < s.len() && #[trigger] s[i].0 == id
}

/// The handle registered for `id`, if any.
pub open spec fn handle_of<H>(s: Seq<(i32, H)>, id: i32) -> Option<H> {
    if has_id(s, id) {
        Some(s[index_of(s, id)].1)
    } else {
        None
    }
}

/// The entries after registering `h` for `id`: unchanged where `id` is
/// registered already, else with the new entry last.
pub open spec fn after_register<H>(s: Seq<(i32, H)>, id: i32, h: H) -> Seq<(i32, H)> {
    if has_id(s, id) {
        s
    } else {
        s.push((id, h))
    }
}

/// The entries after removing the one for `id`, if there is one.
pub open spec fn after_unregister<H>(s: Seq<(i32, H)>, id: i32) -> Seq<(i32, H)> {
    if has_id(s, id) {
        s.remove(index_of(s, id))
    } else {
        s
    }
}

/// The processes that are being supervised, each with the handle that
/// signals and reaps it, in the order of registration.
pub struct ProcessRegistry<H> {
    entries: Vec<(i32, H)>,
}

impl<H> View for ProcessRegistry<H> {
    type V = Seq<(i32, H)>;

    closed spec fn view(&self) -> Seq<(i32, H)> {
        self.entries@
    }
}

impl<H> ProcessRegistry<H> {
    pub closed spec fn wf(&self) -> bool {
        ids_unique(self.entries@)
    }

    pub fn new() -> (r: Self)
        ensures
            r.wf(),
            r@ == Seq::<(i32, H)>::empty(),
    {
        ProcessRegistry { entries: Vec::new() }
    }

    /// Where `id` stands in the registry.
    fn position(&self, id: i32) -> (r: Option<usize>)
        requires
            self.wf(),
        ensures
            match r {
                Some(i) => has_id(self@, id) && i == index_of(self@, id),
                None => !has_id(self@, id),
            },
    {
        let n = self.entries.len();
        let mut i: usize = 0;
        while i < n
            invariant
                self.wf(),
                n == self.entries@.len(),
                i <= n,
                forall|j: int| 0 <= j < i ==> self.entries@[j].0 != id,
            decreases n - i,
        {
            if self.entries[i].0 == id {
                let ghost s = self@;
                assert(s[i as int].0 == id);
                assert(has_id(s, id));
                let ghost k = index_of(s, id);
                assert(0 <= k < s.len() && s[k].0 == id);
                assert(k == i) by {
                    if k < i {
                        assert(s[k].0 != s[i as int].0);
                    } else if k > i {
                        assert(s[i as int].0 != s[k].0);
                    }
                }
                return Some(i);
            }
            i += 1;
        }
        None
    }

    pub fn contains(&self, id: i32) -> (r: bool)
        requires
            self.wf(),
        ensures
            r == has_id(self@, id),
    {
        self.position(id).is_some()
    }

    /// Adds `handle` for process `id`. A process that is registered already
    /// is refused, and its handle comes back.
    pub fn register(&mut self, id: i32, handle: H) -> (r: Result<(), H>)
        requires
            old(self).wf(),
        ensures
            final(self).wf(),
            final(self)@ == after_register(old(self)@, id, handle),
            r is Ok <==> !has_id(old(self)@, id),
            r matches Err(h) ==> h == handle,
            has_id(final(self)@, id),
            r is Ok ==> handle_of(final(self)@, id) == Some(handle),
    {
        if self.contains(id) {
            return Err(handle);
        }
        let ghost s = self@;
        self.entries.push((id, handle));
        assert(self@ == s.push((id, handle)));
        assert(ids_unique(self@));
        proof {
            let last = s.len() as int;
            assert(self@[last].0 == id);
            let k = index_of(self@, id);
            assert(0 <= k < self@.len() && self@[k].0 == id);
            if k < last {
                assert(s[k].0 == id);
            }
        }
        Ok(())
    }

    /// Removes the entry for `id` and hands back its handle; `None` where
    /// `id` is not registered.
    pub fn unregister(&mut self, id: i32) -> (r: Option<H>)
        requires
            old(self).wf(),
        ensures
            final(self).wf(),
            final(self)@ == after_unregister(old(self)@, id),
            r == handle_of(old(self)@, id),
    {
        match self.position(id) {
            None => None,
            Some(i) => {
                let ghost s = self@;
                let entry = self.entries.remove(i);
                assert(self@ =~= s.remove(i as int));
                assert(ids_unique(self@)) by {
                    assert forall|a: int, b: int| 0 <= a < b < self@.len() implies #[trigger] self@[a].0
                        != #[trigger] self@[b].0 by {
                        let a0 = if a < i { a } else { a + 1 };
                        let b0 = if b < i { b } else { b + 1 };
                        assert(self@[a] == s[a0]);
                        assert(self@[b] == s[b0]);
                    }
                }
                Some(entry.1)
            },
        }
    }

    /// The handle registered for `id`.
    pub fn handle(&self, id: i32) -> (r: Option<&H>)
        requires
            self.wf(),
        ensures
            match r {
                Some(h) => handle_of(self@, id) == Some(*h),
                None => handle_of(self@, id) is None,
            },
    {
        match self.position(id) {
            None => None,
            Some(i) => Some(&self.entries[i].1),
        }
    }

    /// The registered processes, in the order of registration.
    pub fn ids(&self) -> (r: Vec<i32>)
        ensures
            r@ == self@.map_values(|e: (i32, H)| e.0),
    {
        let n = self.entries.len();
        let mut r: Vec<i32> = Vec::new();
        let mut i: usize = 0;
        while i < n
            invariant
                n == self.entries@.len(),
                i <= n,
                r@ == self@.take(i as int).map_values(|e: (i32, H)| e.0),
            decreases n - i,
        {
            r.push(self.entries[i].0);
            assert(self@.take(i + 1) =~= self@.take(i as int).push(self@[i as int]));
            assert(r@ =~= self@.take(i + 1).map_values(|e: (i32, H)| e.0));
            i += 1;
        }
        assert(self@.take(n as int) =~= self@);
        r
    }

    pub fn len(&self) -> (r: usize)
        ensures
            r == self@.len(),
    {
        self.entries.len()
    }
}

/// Registering a process twice is refused and leaves the registry as the
/// first registration left it; removing a process that is not registered
/// finds nothing and changes nothing.
pub proof fn lemma_registration_is_exclusive<H>(s: Seq<(i32, H)>, id: i32, h1: H, h2: H)
    ensures
        has_id(after_register(s, id, h1), id),
        after_register(after_register(s, id, h1), id, h2) == after_register(s, id, h1),
        !has_id(s, id) ==> handle_of(s, id) is None && after_unregister(s, id) == s,
{
    let s1 = after_register(s, id, h1);
    if !has_id(s, id) {
        assert(s1[s.len() as int].0 == id);
    }
}

} // verus!
