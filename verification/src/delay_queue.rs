use vstd::prelude::*;
use vstd::multiset::Multiset;
use crate::clock::{last_instant, read_clock, ClockReading};
use vstd::std_specs::cmp::PartialEqSpecImpl;

verus! {

broadcast use {
    vstd::seq_lib::to_multiset_update,
    vstd::seq_lib::to_multiset_remove,
    vstd::seq_lib::to_multiset_build,
    vstd::seq_lib::to_multiset_contains,
    vstd::multiset::group_multiset_axioms,
};

/// A task waiting in the delay queue: it runs once the clock reaches
/// `execute_at` (nanoseconds since the Unix epoch).
#[derive(Debug, Clone)]
pub struct Task {
    /// A random identifier, the 128 bits of a version-4 UUID.
    pub id: u128,
    /// What the task carries.
    pub payload: String,
    /// When the task becomes due, in nanoseconds since the Unix epoch.
    pub execute_at: i128,
}

/// `a` leaves the queue before `b`: it is due earlier, or, when both are due
/// at the same instant, it has the larger identifier.
pub open spec fn precedes(a: Task, b: Task) -> bool {
    a.execute_at < b.execute_at || (a.execute_at == b.execute_at && a.id > b.id)
}

impl Task {
    /// Whether `self` leaves the queue before `other`.
    pub fn pops_before(&self, other: &Task) -> (r: bool)
        ensures
            r == precedes(*self, *other),
    {
        self.execute_at < other.execute_at || (self.execute_at == other.execute_at && self.id
            > other.id)
    }
}

/// `a` and `b` are due at the same instant and have the same identifier.
pub open spec fn same_task(a: Task, b: Task) -> bool {
    a.execute_at == b.execute_at && a.id == b.id
}

/// Two tasks are equal when they are due at the same instant and have the
/// same identifier: exactly when neither leaves the queue before the other.
impl PartialEq for Task {
    fn eq(&self, other: &Self) -> (r: bool) {
        self.execute_at == other.execute_at && self.id == other.id
    }
}

impl Eq for Task {

}

impl PartialEqSpecImpl for Task {
    open spec fn obeys_eq_spec() -> bool {
        true
    }

    open spec fn eq_spec(&self, other: &Task) -> bool {
        same_task(*self, *other)
    }
}

/// The index of the parent of slot `i` in an implicit binary tree.
pub open spec fn parent(i: int) -> int {
    (i - 1) / 2
}

/// No slot of `s` leaves the queue before the slot above it.
pub open spec fn heap_ordered(s: Seq<Task>) -> bool {
    forall|j: int| 0 < j < s.len() ==> !precedes(#[trigger] s[j], s[parent(j)])
}

/// `t` is in `m` and nothing in `m` leaves the queue before it.
pub open spec fn is_first(m: Multiset<Task>, t: Task) -> bool {
    &&& m.contains(t)
    &&& forall|u: Task| #[trigger] m.contains(u) ==> !precedes(u, t)
}

/// Heap order holds everywhere but possibly between slot `i` and its
/// parent, and the children of `i` do not leave before the parent of `i`.
spec fn ordered_except_up(s: Seq<Task>, i: int) -> bool {
    &&& forall|j: int| 0 < j < s.len() && j != i ==> !precedes(#[trigger] s[j], s[parent(j)])
    &&& forall|j: int|
        0 < j < s.len() && parent(j) == i && i > 0 ==> !precedes(#[trigger] s[j], s[parent(i)])
}

/// Heap order holds everywhere but possibly between slot `i` and its
/// children, and the children of `i` do not leave before the parent of `i`.
spec fn ordered_except_down(s: Seq<Task>, i: int) -> bool {
    &&& forall|j: int|
        0 < j < s.len() && parent(j) != i ==> !precedes(#[trigger] s[j], s[parent(j)])
    &&& forall|j: int|
        0 < j < s.len() && parent(j) == i && i > 0 ==> !precedes(#[trigger] s[j], s[parent(i)])
}

/// In a heap-ordered sequence nothing leaves the queue before slot 0.
proof fn lemma_root_first(s: Seq<Task>, j: int)
    requires
        heap_ordered(s),
        0 <= j < s.len(),
    ensures
        !precedes(s[j], s[0]),
    decreases j,
{
    if j > 0 {
        lemma_root_first(s, parent(j));
        assert(!precedes(s[j], s[parent(j)]));
    }
}

/// Exchanges two slots of `v`.
fn swap_slots(v: &mut Vec<Task>, i: usize, j: usize)
    requires
        i < old(v).len(),
        j < old(v).len(),
        i != j,
    ensures
        final(v)@ == old(v)@.update(i as int, old(v)@[j as int]).update(j as int, old(v)@[i as int]),
        final(v)@.to_multiset() == old(v)@.to_multiset(),
{
    let mut hole = Task { id: 0, payload: String::new(), execute_at: 0 };
    std::mem::swap(&mut hole, &mut v[i]);
    std::mem::swap(&mut hole, &mut v[j]);
    std::mem::swap(&mut hole, &mut v[i]);
    proof {
        let s = old(v)@;
        let s1 = s.update(i as int, s[j as int]);
        assert(s1.to_multiset() == s.to_multiset().insert(s[j as int]).remove(s[i as int]));
        assert(s1.update(j as int, s[i as int]).to_multiset() == s1.to_multiset().insert(
            s[i as int],
        ).remove(s1[j as int]));
        assert(s1.update(j as int, s[i as int]).to_multiset() =~= s.to_multiset());
    }
}

/// Moves the value in slot `i` up until its parent does not follow it.
fn sift_up(v: &mut Vec<Task>, i: usize)
    requires
        i < old(v).len(),
        ordered_except_up(old(v)@, i as int),
    ensures
        heap_ordered(final(v)@),
        final(v)@.to_multiset() == old(v)@.to_multiset(),
        final(v)@.len() == old(v)@.len(),
{
    let mut i = i;
    while i > 0
        invariant
            i < v@.len(),
            v@.len() == old(v)@.len(),
            ordered_except_up(v@, i as int),
            v@.to_multiset() == old(v)@.to_multiset(),
        ensures
            heap_ordered(v@),
        decreases i,
    {
        let p = (i - 1) / 2;
        if !v[i].pops_before(&v[p]) {
            assert(heap_ordered(v@));
            break;
        }
        let ghost s = v@;
        swap_slots(v, i, p);
        proof {
            let s2 = v@;
            assert forall|j: int| 0 < j < s2.len() && j != p implies !precedes(
                #[trigger] s2[j],
                s2[parent(j)],
            ) by {
                if j == i {
                } else if parent(j) == i {
                } else if parent(j) == p {
                    assert(!precedes(s[j], s[p as int]));
                } else if j == p {
                }
            }
            assert forall|j: int|
                0 < j < s2.len() && parent(j) == p && p > 0 implies !precedes(
                #[trigger] s2[j],
                s2[parent(p as int)],
            ) by {
                assert(!precedes(s[p as int], s[parent(p as int)]));
                if j != i {
                    assert(!precedes(s[j], s[p as int]));
                }
            }
        }
        i = p;
    }
}

/// Moves the value in slot `i` down until no child leaves before it.
fn sift_down(v: &mut Vec<Task>, i: usize)
    requires
        i < old(v).len(),
        ordered_except_down(old(v)@, i as int),
    ensures
        heap_ordered(final(v)@),
        final(v)@.to_multiset() == old(v)@.to_multiset(),
        final(v)@.len() == old(v)@.len(),
{
    let len = v.len();
    let mut i = i;
    while i < len / 2
        invariant
            len == v@.len(),
            v@.len() == old(v)@.len(),
            i < len,
            ordered_except_down(v@, i as int),
            v@.to_multiset() == old(v)@.to_multiset(),
        decreases len - i,
    {
        let left = 2 * i + 1;
        let right = left + 1;
        let child = if right < len && v[right].pops_before(&v[left]) {
            right
        } else {
            left
        };
        if !v[child].pops_before(&v[i]) {
            proof {
                assert forall|j: int| 0 < j < v@.len() implies !precedes(
                    #[trigger] v@[j],
                    v@[parent(j)],
                ) by {
                    if parent(j) == i {
                        assert(j == left || j == right);
                    }
                }
            }
            return;
        }
        let ghost s = v@;
        swap_slots(v, i, child);
        proof {
            let s2 = v@;
            assert forall|j: int| 0 < j < s2.len() && parent(j) != child implies !precedes(
                #[trigger] s2[j],
                s2[parent(j)],
            ) by {
                if j == child {
                } else if parent(j) == i {
                    assert(j == left || j == right);
                } else if j == i {
                }
            }
            assert forall|j: int|
                0 < j < s2.len() && parent(j) == child && child > 0 implies !precedes(
                #[trigger] s2[j],
                s2[parent(child as int)],
            ) by {
                assert(!precedes(s[j], s[child as int]));
            }
        }
        i = child;
    }
    proof {
        assert forall|j: int| 0 < j < v@.len() implies !precedes(#[trigger] v@[j], v@[parent(j)]) by {
            if parent(j) == i {
                assert(2 * i + 1 >= len);
            }
        }
    }
}

/// A queue of tasks ordered by due time; the task due first leaves first.
pub struct TaskHeap {
    items: Vec<Task>,
}

impl View for TaskHeap {
    type V = Multiset<Task>;

    /// The tasks in the queue.
    closed spec fn view(&self) -> Multiset<Task> {
        self.items@.to_multiset()
    }
}

impl TaskHeap {
    #[verifier::type_invariant]
    spec fn inv(self) -> bool {
        heap_ordered(self.items@)
    }

    /// An empty queue.
    pub fn new() -> (h: Self)
        ensures
            h@ == Multiset::<Task>::empty(),
    {
        let h = TaskHeap { items: Vec::new() };
        assert(h.items@.to_multiset() =~= Multiset::<Task>::empty());
        h
    }

    /// The number of tasks in the queue.
    pub fn len(&self) -> (n: usize)
        ensures
            n == self@.len(),
    {
        proof {
            vstd::seq_lib::to_multiset_len(self.items@);
        }
        self.items.len()
    }

    /// Adds a task.
    pub fn push(&mut self, task: Task)
        ensures
            final(self)@ == old(self)@.insert(task),
    {
        proof {
            use_type_invariant(&*self);
        }
        let mut items: Vec<Task> = Vec::new();
        std::mem::swap(&mut items, &mut self.items);
        let ghost before = items@;
        items.push(task);
        let last = items.len() - 1;
        proof {
            assert(items@ == before.push(task));
            assert(ordered_except_up(items@, last as int));
        }
        sift_up(&mut items, last);
        self.items = items;
    }

    /// The task that leaves first, without removing it; `None` when the queue is empty.
    pub fn peek(&self) -> (r: Option<&Task>)
        ensures
            self@.len() == 0 ==> r == None::<&Task>,
            self@.len() > 0 ==> (r matches Some(t) && is_first(self@, *t)),
    {
        proof {
            use_type_invariant(self);
            vstd::seq_lib::to_multiset_len(self.items@);
        }
        if self.items.len() == 0 {
            None
        } else {
            proof {
                self.lemma_first_at_root();
            }
            Some(&self.items[0])
        }
    }

    /// Slot 0 holds a task that nothing in the queue leaves before.
    proof fn lemma_first_at_root(&self)
        requires
            heap_ordered(self.items@),
            self.items@.len() > 0,
        ensures
            is_first(self@, self.items@[0]),
    {
        let s = self.items@;
        assert(s.contains(s[0]));
        assert forall|u: Task| #[trigger] self@.contains(u) implies !precedes(u, s[0]) by {
            assert(s.contains(u));
            let j = choose|j: int| 0 <= j < s.len() && s[j] == u;
            lemma_root_first(s, j);
        }
    }

    /// Removes and returns the task that leaves first; `None` when the queue is empty.
    pub fn pop(&mut self) -> (r: Option<Task>)
        ensures
            old(self)@.len() == 0 ==> r == None::<Task> && final(self)@ == old(self)@,
            old(self)@.len() > 0 ==> (r matches Some(t) && is_first(old(self)@, t) && final(self)@
                == old(self)@.remove(t)),
    {
        proof {
            use_type_invariant(&*self);
            vstd::seq_lib::to_multiset_len(self.items@);
        }
        if self.items.len() == 0 {
            return None;
        }
        proof {
            self.lemma_first_at_root();
        }
        let mut items: Vec<Task> = Vec::new();
        std::mem::swap(&mut items, &mut self.items);
        let ghost s = items@;
        let last = items.len() - 1;
        if last > 0 {
            swap_slots(&mut items, 0, last);
        }
        let ghost swapped = items@;
        let top = items.pop().unwrap();
        proof {
            assert(items@ == swapped.remove(last as int));
            assert(top == s[0]);
            assert(items@.to_multiset() == s.to_multiset().remove(top));
        }
        if items.len() > 0 {
            proof {
                assert forall|j: int|
                    0 < j < items@.len() && parent(j) != 0 implies !precedes(
                    #[trigger] items@[j],
                    items@[parent(j)],
                ) by {
                    assert(items@[j] == s[j]);
                    assert(items@[parent(j)] == s[parent(j)]);
                }
            }
            sift_down(&mut items, 0);
        }
        self.items = items;
        Some(top)
    }
}

/// What the worker of the delay queue does next.
pub enum NextStep {
    /// The first task is due: it has been taken out of the queue to run now.
    Execute(Task),
    /// The first task is not due yet: wait this many nanoseconds.
    Sleep(u128),
    /// The queue is empty: wait until a task is added.
    Idle,
}

/// The step taken on a queue holding `before` at time `now`, leaving `after`.
pub open spec fn step_taken(
    before: Multiset<Task>,
    after: Multiset<Task>,
    step: NextStep,
    now: int,
) -> bool {
    match step {
        NextStep::Idle => before.len() == 0 && after == before,
        NextStep::Execute(t) => is_first(before, t) && t.execute_at <= now && after
            == before.remove(t),
        NextStep::Sleep(d) => after == before && exists|t: Task|
            is_first(before, t) && now < t.execute_at && d == t.execute_at - now,
    }
}

/// The time from `from` to a later instant `to`.
fn time_between(from: i128, to: i128) -> (d: u128)
    requires
        from < to,
    ensures
        d == to - from,
{
    if from >= 0 || to < 0 {
        (to - from) as u128
    } else {
        to as u128 + ((-(from + 1)) as u128 + 1)
    }
}

impl TaskHeap {
    /// Decides the worker's next step at time `now` (nanoseconds since the
    /// epoch): run the first task if it is due, else sleep until it is, or
    /// idle when the queue is empty.
    pub fn next_step_at(&mut self, now: i128) -> (step: NextStep)
        ensures
            step_taken(old(self)@, final(self)@, step, now as int),
            old(self)@.len() == 0 ==> step is Idle,
            forall|t: Task| #[trigger]
                is_first(old(self)@, t) ==> (now < t.execute_at ==> step == NextStep::Sleep(
                    (t.execute_at - now) as u128,
                )) && (t.execute_at <= now ==> (step matches NextStep::Execute(e) && same_task(
                    e,
                    t,
                ))),
    {
        match self.peek() {
            None => NextStep::Idle,
            Some(first) => {
                if first.execute_at <= now {
                    let ghost f = *first;
                    let t = self.pop().unwrap();
                    proof {
                        lemma_first_unique(old(self)@, f, t);
                        assert forall|u: Task| #[trigger] is_first(old(self)@, u) implies same_task(
                            t,
                            u,
                        ) by {
                            lemma_first_unique(old(self)@, t, u);
                        }
                    }
                    NextStep::Execute(t)
                } else {
                    let d = time_between(now, first.execute_at);
                    proof {
                        assert forall|u: Task| #[trigger] is_first(old(self)@, u) implies u.execute_at
                            == first.execute_at by {
                            lemma_first_unique(old(self)@, *first, u);
                        }
                    }
                    NextStep::Sleep(d)
                }
            },
        }
    }

    /// Reads the clock and decides the worker's next step at the instant
    /// read, handing back the reading with the step; `None`, with the queue
    /// untouched, when the clock cannot be read as a UTC time.
    pub fn next_step_with_reading(&mut self) -> (r: Option<(ClockReading, NextStep)>)
        ensures
            r is None ==> final(self)@ == old(self)@,
            r matches Some(p) ==> step_taken(old(self)@, final(self)@, p.1, p.0.instant()),
    {
        let reading = match read_clock() {
            Some(c) => c,
            None => return None,
        };
        let now = reading.nanos_since_epoch();
        let step = self.next_step_at(now);
        Some((reading, step))
    }

    /// Reads the clock and decides the worker's next step at that time;
    /// `None`, with the queue untouched, when the clock cannot be read as a
    /// UTC time (before the Unix epoch or past the last representable date).
    pub fn next_step(&mut self) -> (r: Option<NextStep>)
        ensures
            r is None ==> final(self)@ == old(self)@,
            r matches Some(step) ==> exists|now: int|
                0 <= now <= last_instant() && step_taken(old(self)@, final(self)@, step, now),
    {
        match self.next_step_with_reading() {
            Some((reading, step)) => {
                let now = reading.nanos_since_epoch();
                assert(step_taken(old(self)@, self@, step, now as int));
                Some(step)
            },
            None => None,
        }
    }
}

/// The worker decides by the first task and the instant read: before the
/// first task is due it sleeps exactly the time left until it is due and
/// leaves the queue as it is; once it is due it runs that task, taking it out.
pub proof fn lemma_worker_waits_until_due(
    before: Multiset<Task>,
    after: Multiset<Task>,
    step: NextStep,
    now: int,
    t: Task,
)
    requires
        step_taken(before, after, step, now),
        is_first(before, t),
    ensures
        now < t.execute_at ==> step == NextStep::Sleep((t.execute_at - now) as u128) && after
            == before,
        t.execute_at <= now ==> (step matches NextStep::Execute(e) && same_task(e, t) && after
            == before.remove(e)),
{
    assert(before.len() > 0) by {
        assert(before.contains(t));
    }
    match step {
        NextStep::Execute(e) => {
            lemma_first_unique(before, e, t);
        },
        NextStep::Sleep(d) => {
            let u = choose|u: Task| is_first(before, u) && now < u.execute_at && d == u.execute_at - now;
            lemma_first_unique(before, u, t);
        },
        NextStep::Idle => {},
    }
}

/// Two tasks are equal exactly when neither leaves the queue before the other.
pub proof fn lemma_equal_iff_unordered(a: Task, b: Task)
    ensures
        same_task(a, b) <==> (!precedes(a, b) && !precedes(b, a)),
{
}

/// Two tasks that both leave a queue first share their due time and identifier.
pub proof fn lemma_first_unique(m: Multiset<Task>, a: Task, b: Task)
    requires
        is_first(m, a),
        is_first(m, b),
    ensures
        a.execute_at == b.execute_at,
        a.id == b.id,
{
    assert(!precedes(a, b));
    assert(!precedes(b, a));
}

/// Tasks leave the queue in due order: the task that leaves after the first
/// one is not due earlier, and on a tie does not have a larger identifier.
pub proof fn lemma_pop_order(m: Multiset<Task>, t1: Task, t2: Task)
    requires
        is_first(m, t1),
        is_first(m.remove(t1), t2),
    ensures
        !precedes(t2, t1),
        t1.execute_at <= t2.execute_at,
{
    assert(m.remove(t1).contains(t2));
    assert(m.contains(t2));
}

/// A task carrying `payload` that becomes due `delay` nanoseconds after `now`.
pub fn schedule(payload: String, delay: u128, now: i128, id: u128) -> (t: Task)
    requires
        now + delay <= i128::MAX,
    ensures
        t.id == id,
        t.payload == payload,
        t.execute_at == now + delay,
{
    let execute_at: i128 = if delay <= i128::MAX as u128 {
        now + delay as i128
    } else {
        let back: u128 = (-(now + 1)) as u128 + 1;
        (delay - back) as i128
    };
    Task { id, payload, execute_at }
}

/// The identifier is the bits of a version-4 UUID of the standard variant.
pub open spec fn version4_bits(id: u128) -> bool {
    (id >> 76u128) & 0xfu128 == 4 && (id >> 62u128) & 3u128 == 2
}

/// The task carrying `payload` with identifier `id`, due `delay` nanoseconds
/// after `now`; `None` when that instant lies past the last one the clock's
/// date type represents.
pub fn task_at(payload: String, delay: u128, now: i128, id: u128) -> (r: Option<Task>)
    ensures
        r is None <==> now + delay > last_instant(),
        r matches Some(t) ==> t.id == id && t.payload == payload && t.execute_at == now + delay,
{
    let last: i128 = 8210266876799999999999;
    if now > last {
        return None;
    }
    let room: u128 = if now == last {
        0
    } else {
        time_between(now, last)
    };
    if delay <= room {
        Some(schedule(payload, delay, now, id))
    } else {
        None
    }
}

/// Reads the clock and makes the task carrying `payload`, due `delay`
/// nanoseconds after the instant read, with a fresh random identifier; hands
/// back the reading with the task, which is `None` when the due instant lies
/// past the last one the clock's date type represents. `None` overall when the
/// clock cannot be read as a UTC time.
pub fn new_task_with_reading(payload: String, delay: u128) -> (r: Option<
    (ClockReading, Option<Task>),
>)
    ensures
        r matches Some(p) ==> (p.1 is None <==> p.0.instant() + delay > last_instant()),
        r matches Some(p) ==> (p.1 matches Some(t) ==> t.payload == payload && version4_bits(t.id)
            && t.execute_at == p.0.instant() + delay),
{
    let reading = match read_clock() {
        Some(c) => c,
        None => return None,
    };
    let now = reading.nanos_since_epoch();
    let id = random_task_id();
    let task = task_at(payload, delay, now, id);
    Some((reading, task))
}

/// A new task carrying `payload`, due `delay` nanoseconds after the current
/// time, with a fresh random identifier. `None` when the clock cannot be read
/// as a UTC time, or when the due instant lies past the last one the clock's
/// date type represents (`task_at`).
pub fn new_task(payload: String, delay: u128) -> (r: Option<Task>)
    ensures
        r matches Some(t) ==> t.payload == payload && version4_bits(t.id) && delay
            <= t.execute_at <= last_instant(),
{
    match new_task_with_reading(payload, delay) {
        Some((reading, task)) => {
            let _now = reading.nanos_since_epoch();
            task
        },
        None => None,
    }
}

/// A random identifier from `uuid::Uuid::new_v4`, as its 128 bits
/// (`Uuid::as_u128`). uuid masks random bits and sets the version nibble to 4
/// and the variant bits to `10`; that is all that is stated, since the rest
/// is chance.
#[verifier::external_body]
fn random_task_id() -> (id: u128)
    ensures
        version4_bits(id),
{
    uuid::Uuid::new_v4().as_u128()
}

} // verus!
