use vstd::prelude::*;

verus! {

/// How urgent a to-do task is.
#[derive(Debug, Clone, Copy, PartialEq, Eq, Structural)]
pub enum Priority {
    Low,
    Normal,
    High,
}

/// An entry of the to-do list.
pub struct Task {
    pub id: u32,
    pub title: String,
    pub priority: Priority,
    pub done: bool,
}

/// Why a to-do command was refused.
#[derive(Debug, Clone, Copy, PartialEq, Eq, Structural)]
pub enum TaskyError {
    /// No task has this id.
    NotFound(u32),
}

/// The to-do list and the last id handed out.
pub struct TaskStore {
    pub tasks: Vec<Task>,
    pub next_id: u32,
}

/// The tasks that a listing shows: all of them, or only the open ones.
pub open spec fn visible(s: Seq<Task>, all: bool) -> Seq<Task>
    decreases s.len(),
{
    if s.len() == 0 {
        Seq::empty()
    } else {
        let rest = visible(s.drop_last(), all);
        if all || !s.last().done {
            rest.push(s.last())
        } else {
            rest
        }
    }
}

/// The tasks of `s` whose id is not `id`, in order.
pub open spec fn without_id(s: Seq<Task>, id: u32) -> Seq<Task>
    decreases s.len(),
{
    if s.len() == 0 {
        Seq::empty()
    } else {
        let rest = without_id(s.drop_last(), id);
        if s.last().id != id {
            rest.push(s.last())
        } else {
            rest
        }
    }
}

/// The number of finished tasks in `s`.
pub open spec fn count_done(s: Seq<Task>) -> nat
    decreases s.len(),
{
    if s.len() == 0 {
        0
    } else {
        count_done(s.drop_last()) + if s.last().done { 1nat } else { 0nat }
    }
}

/// Some task of `s` has the id `id`.
pub open spec fn has_id(s: Seq<Task>, id: u32) -> bool {
    exists|i: int| 0 <= i < s.len() && s[i].id == id
}

/// Every id in the store was handed out already and no two tasks share one.
pub open spec fn ids_fresh(tasks: Seq<Task>, next_id: u32) -> bool {
    &&& forall|i: int| 0 <= i < tasks.len() ==> #[trigger] tasks[i].id <= next_id
    &&& forall|i: int, j: int|
        0 <= i < j < tasks.len() ==> #[trigger] tasks[i].id != #[trigger] tasks[j].id
}

/// `t` with its `done` flag set.
pub open spec fn finished(t: Task) -> Task {
    Task { done: true, ..t }
}

proof fn lemma_count_done_bound(s: Seq<Task>)
    ensures
        count_done(s) <= s.len(),
    decreases s.len(),
{
    if s.len() > 0 {
        lemma_count_done_bound(s.drop_last());
    }
}

proof fn lemma_without_id_excludes(s: Seq<Task>, id: u32)
    ensures
        forall|i: int| 0 <= i < without_id(s, id).len() ==> #[trigger] without_id(s, id)[i].id != id,
        without_id(s, id).len() <= s.len(),
        without_id(s, id).len() == s.len() <==> !has_id(s, id),
    decreases s.len(),
{
    if s.len() > 0 {
        let p = s.drop_last();
        lemma_without_id_excludes(p, id);
        if has_id(p, id) {
            let k = choose|k: int| 0 <= k < p.len() && p[k].id == id;
            assert(s[k].id == id);
        }
        if s.last().id == id {
            assert(s[s.len() - 1].id == id);
        }
        if has_id(s, id) && s.last().id != id {
            let k = choose|k: int| 0 <= k < s.len() && s[k].id == id;
            assert(p[k].id == id);
        }
    }
}

/// Removing tasks keeps every remaining id handed out and distinct.
proof fn lemma_without_id_keeps_fresh(s: Seq<Task>, id: u32, n: u32)
    requires
        ids_fresh(s, n),
    ensures
        ids_fresh(without_id(s, id), n),
        forall|i: int|
            0 <= i < without_id(s, id).len() ==> exists|j: int|
                0 <= j < s.len() && #[trigger] without_id(s, id)[i] == s[j],
    decreases s.len(),
{
    if s.len() > 0 {
        let p = s.drop_last();
        let w = without_id(p, id);
        assert(ids_fresh(p, n)) by {
            assert forall|i: int, j: int| 0 <= i < j < p.len() implies #[trigger] p[i].id
                != #[trigger] p[j].id by {
                assert(s[i].id != s[j].id);
            }
            assert forall|i: int| 0 <= i < p.len() implies #[trigger] p[i].id <= n by {
                assert(s[i].id <= n);
            }
        }
        lemma_without_id_keeps_fresh(p, id, n);
        let w2 = without_id(s, id);
        assert forall|i: int| 0 <= i < w2.len() implies exists|j: int|
            0 <= j < s.len() && #[trigger] w2[i] == s[j] by {
            if i < w.len() {
                let j = choose|j: int| 0 <= j < p.len() && w[i] == p[j];
                assert(w2[i] == s[j]);
            } else {
                assert(w2[i] == s[s.len() - 1]);
            }
        }
        assert forall|i: int| 0 <= i < w2.len() implies #[trigger] w2[i].id <= n by {
            let j = choose|j: int| 0 <= j < s.len() && w2[i] == s[j];
            assert(s[j].id <= n);
        }
        assert forall|i: int, j: int| 0 <= i < j < w2.len() implies #[trigger] w2[i].id
            != #[trigger] w2[j].id by {
            if j < w.len() {
                assert(w[i].id != w[j].id);
            } else {
                let k = choose|k: int| 0 <= k < p.len() && w[i] == p[k];
                assert(s[k].id != s[s.len() - 1].id);
            }
        }
    }
}

/// Listing with `all` shows every task, in order.
pub proof fn lemma_list_all_shows_every_task(s: Seq<Task>)
    ensures
        visible(s, true) == s,
    decreases s.len(),
{
    if s.len() > 0 {
        lemma_list_all_shows_every_task(s.drop_last());
        assert(s.drop_last().push(s.last()) =~= s);
    }
}

/// Listing without `all` shows only open tasks, and exactly as many as
/// the statistics count as open.
pub proof fn lemma_open_listing_matches_stats(s: Seq<Task>)
    ensures
        forall|i: int| 0 <= i < visible(s, false).len() ==> !(#[trigger] visible(s, false)[i]).done,
        visible(s, false).len() + count_done(s) == s.len(),
    decreases s.len(),
{
    if s.len() > 0 {
        lemma_open_listing_matches_stats(s.drop_last());
    }
}

impl TaskStore {
    /// An empty list.
    pub fn new() -> (st: Self)
        ensures
            st.tasks@ == Seq::<Task>::empty(),
            st.next_id == 0,
    {
        TaskStore { tasks: Vec::new(), next_id: 0 }
    }

    /// Adds an open task with the next id and returns that id.
    pub fn add(&mut self, title: String, priority: Priority) -> (id: u32)
        requires
            old(self).next_id < u32::MAX,
        ensures
            id == old(self).next_id + 1,
            final(self).next_id == id,
            final(self).tasks@ == old(self).tasks@.push(
                Task { id, title, priority, done: false },
            ),
            ids_fresh(old(self).tasks@, old(self).next_id) ==> ids_fresh(
                final(self).tasks@,
                final(self).next_id,
            ),
    {
        self.next_id = self.next_id + 1;
        let id = self.next_id;
        self.tasks.push(Task { id, title, priority, done: false });
        id
    }

    /// The tasks to show: every task when `all` holds, else only the open ones.
    pub fn list(&self, all: bool) -> (r: Vec<&Task>)
        ensures
            r@.map_values(|t: &Task| *t) == visible(self.tasks@, all),
    {
        let mut r: Vec<&Task> = Vec::new();
        let mut i: usize = 0;
        while i < self.tasks.len()
            invariant
                i <= self.tasks@.len(),
                r@.map_values(|t: &Task| *t) == visible(self.tasks@.take(i as int), all),
            decreases self.tasks@.len() - i,
        {
            let ghost before = r@;
            assert(self.tasks@.take(i + 1).drop_last() =~= self.tasks@.take(i as int));
            let t = &self.tasks[i];
            if all || !t.done {
                r.push(t);
                assert(r@.map_values(|t: &Task| *t) =~= before.map_values(|t: &Task| *t).push(
                    *t,
                ));
            }
            i = i + 1;
        }
        assert(self.tasks@.take(self.tasks@.len() as int) =~= self.tasks@);
        r
    }

    /// Marks the first task with this id as done.
    pub fn mark_done(&mut self, id: u32) -> (r: Result<(), TaskyError>)
        ensures
            r is Ok <==> has_id(old(self).tasks@, id),
            r is Err ==> r == Err::<(), TaskyError>(TaskyError::NotFound(id)) && final(self).tasks@
                == old(self).tasks@,
            r is Ok ==> exists|k: int|
                0 <= k < old(self).tasks@.len() && old(self).tasks@[k].id == id && (forall|j: int|
                    0 <= j < k ==> #[trigger] old(self).tasks@[j].id != id) && final(self).tasks@
                    == old(self).tasks@.update(k, finished(old(self).tasks@[k])),
            final(self).next_id == old(self).next_id,
            ids_fresh(old(self).tasks@, old(self).next_id) ==> ids_fresh(
                final(self).tasks@,
                final(self).next_id,
            ),
    {
        let mut k: usize = 0;
        while k < self.tasks.len()
            invariant
                k <= self.tasks@.len(),
                self.tasks@ == old(self).tasks@,
                self.next_id == old(self).next_id,
                forall|j: int| 0 <= j < k ==> #[trigger] self.tasks@[j].id != id,
            decreases self.tasks@.len() - k,
        {
            if self.tasks[k].id == id {
                self.tasks[k].done = true;
                proof {
                    let s = old(self).tasks@;
                    assert(self.tasks@ =~= s.update(k as int, finished(s[k as int])));
                    assert(has_id(s, id));
                    assert forall|i: int| 0 <= i < self.tasks@.len() implies #[trigger] self.tasks@[i].id
                        == s[i].id by {}
                }
                return Ok(());
            }
            k = k + 1;
        }
        Err(TaskyError::NotFound(id))
    }

    /// Removes every task with this id.
    pub fn remove(&mut self, id: u32) -> (r: Result<(), TaskyError>)
        ensures
            r is Ok <==> has_id(old(self).tasks@, id),
            r is Err ==> r == Err::<(), TaskyError>(TaskyError::NotFound(id)),
            final(self).tasks@ == without_id(old(self).tasks@, id),
            forall|i: int| 0 <= i < final(self).tasks@.len() ==> #[trigger] final(self).tasks@[i].id != id,
            final(self).next_id == old(self).next_id,
            ids_fresh(old(self).tasks@, old(self).next_id) ==> ids_fresh(
                final(self).tasks@,
                final(self).next_id,
            ),
    {
        let before = self.tasks.len();
        let mut rest: Vec<Task> = Vec::new();
        std::mem::swap(&mut rest, &mut self.tasks);
        let ghost all = rest@;
        let mut kept: Vec<Task> = Vec::new();
        for t in it: rest.into_iter()
            invariant
                it.seq() == all,
                kept@ == without_id(all.take(it.index() as int), id),
        {
            assert(all.take(it.index() + 1).drop_last() =~= all.take(it.index() as int));
            if t.id != id {
                kept.push(t);
            }
        }
        assert(all.take(all.len() as int) =~= all);
        proof {
            lemma_without_id_excludes(all, id);
            if ids_fresh(all, self.next_id) {
                lemma_without_id_keeps_fresh(all, id, self.next_id);
            }
        }
        self.tasks = kept;
        if self.tasks.len() == before {
            Err(TaskyError::NotFound(id))
        } else {
            Ok(())
        }
    }

    /// The number of tasks, of finished tasks and of open tasks.
    pub fn stats(&self) -> (r: (usize, usize, usize))
        ensures
            r.0 == self.tasks@.len(),
            r.1 == count_done(self.tasks@),
            r.0 == r.1 + r.2,
    {
        let total = self.tasks.len();
        let mut done: usize = 0;
        let mut i: usize = 0;
        while i < total
            invariant
                total == self.tasks@.len(),
                i <= total,
                done == count_done(self.tasks@.take(i as int)),
            decreases total - i,
        {
            assert(self.tasks@.take(i + 1).drop_last() =~= self.tasks@.take(i as int));
            proof {
                lemma_count_done_bound(self.tasks@.take(i as int));
            }
            if self.tasks[i].done {
                done = done + 1;
            }
            i = i + 1;
        }
        assert(self.tasks@.take(total as int) =~= self.tasks@);
        proof {
            lemma_count_done_bound(self.tasks@);
        }
        (total, done, total - done)
    }
}

impl Default for TaskStore {
    fn default() -> (st: Self)
        ensures
            st.tasks@ == Seq::<Task>::empty(),
            st.next_id == 0,
    {
        Self::new()
    }
}

} // verus!
