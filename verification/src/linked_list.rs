use vstd::prelude::*;

verus! {

/// A node of the list: a value and the rest of the list.
struct Node<T> {
    value: T,
    next: Option<Box<Node<T>>>,
}

/// The values held by a chain of nodes, front to back.
spec fn link_view<T>(link: Option<Box<Node<T>>>) -> Seq<T>
    decreases link,
{
    match link {
        None => Seq::empty(),
        Some(node) => seq![node.value] + link_view(node.next),
    }
}

/// A chain of nodes together with its length.
struct Chain<T> {
    head: Option<Box<Node<T>>>,
    len: usize,
}

impl<T> Chain<T> {
    /// The stored length is the number of nodes.
    #[verifier::type_invariant]
    spec fn inv(self) -> bool {
        self.len == link_view(self.head).len()
    }
}

/// A singly linked list that owns its nodes; values are added and
/// removed at the front.
pub struct LinkedList<T> {
    chain: Chain<T>,
}

impl<T> View for LinkedList<T> {
    type V = Seq<T>;

    /// The values of the list, front first.
    closed spec fn view(&self) -> Seq<T> {
        link_view(self.chain.head)
    }
}

impl<T> LinkedList<T> {
    /// An empty list.
    pub fn new() -> (list: Self)
        ensures
            list@ == Seq::<T>::empty(),
    {
        LinkedList { chain: Chain { head: None, len: 0 } }
    }

    /// Takes the chain out of the list, leaving the list empty.
    fn take_chain(&mut self) -> (c: Chain<T>)
        ensures
            link_view(c.head) == old(self)@,
            c.len == old(self)@.len(),
            final(self)@ == Seq::<T>::empty(),
    {
        let mut c = Chain { head: None, len: 0 };
        std::mem::swap(&mut c, &mut self.chain);
        proof {
            use_type_invariant(&c);
        }
        c
    }

    /// Puts `value` in front of the list.
    pub fn push_front(&mut self, value: T)
        requires
            old(self)@.len() < usize::MAX,
        ensures
            final(self)@ == seq![value] + old(self)@,
    {
        let Chain { head, len } = self.take_chain();
        let node = Box::new(Node { value, next: head });
        self.chain = Chain { head: Some(node), len: len + 1 };
    }

    /// Removes and returns the front value; `None` when the list is empty.
    pub fn pop_front(&mut self) -> (r: Option<T>)
        ensures
            old(self)@.len() == 0 ==> r == None::<T> && final(self)@ == old(self)@,
            old(self)@.len() > 0 ==> r == Some(old(self)@[0]) && final(self)@ == old(self)@.drop_first(),
    {
        let Chain { head, len } = self.take_chain();
        match head {
            None => None,
            Some(node) => {
                let Node { value, next } = *node;
                assert(link_view(next) =~= old(self)@.drop_first());
                self.chain = Chain { head: next, len: len - 1 };
                Some(value)
            },
        }
    }

    /// The number of values in the list.
    pub fn len(&self) -> (n: usize)
        ensures
            n == self@.len(),
    {
        proof {
            use_type_invariant(&self.chain);
        }
        self.chain.len
    }

    /// A cursor over the values, front to back.
    pub fn iter(&self) -> (it: Iter<'_, T>)
        ensures
            it@ == self@,
    {
        Iter {
            current: match &self.chain.head {
                None => None,
                Some(node) => Some(&**node),
            },
        }
    }
}

impl<T> Drop for LinkedList<T> {
    /// Frees the nodes one at a time, front to back, so that a long list
    /// does not take a deep chain of nested drops.
    fn drop(&mut self)
        opens_invariants none
        no_unwind
    {
        let mut c = Chain { head: None, len: 0 };
        std::mem::swap(&mut c, &mut self.chain);
        let Chain { head, len: _ } = c;
        let mut link = head;
        loop
            decreases link,
        {
            match link {
                None => break,
                Some(node) => {
                    let Node { value: _, next } = *node;
                    link = next;
                },
            }
        }
    }
}

impl<T> Default for LinkedList<T> {
    fn default() -> (list: Self)
        ensures
            list@ == Seq::<T>::empty(),
    {
        Self::new()
    }
}

/// A cursor that hands out references to the values of a [`LinkedList`],
/// front to back.
pub struct Iter<'a, T> {
    current: Option<&'a Node<T>>,
}

impl<'a, T> View for Iter<'a, T> {
    type V = Seq<T>;

    /// The values not yet handed out, in order.
    closed spec fn view(&self) -> Seq<T> {
        match self.current {
            None => Seq::empty(),
            Some(node) => seq![node.value] + link_view(node.next),
        }
    }
}

impl<'a, T> Iter<'a, T> {
    /// Hands out the next value, or `None` once every value has been seen.
    pub fn next(&mut self) -> (r: Option<&'a T>)
        ensures
            old(self)@.len() == 0 ==> r == None::<&T> && final(self)@ == old(self)@,
            old(self)@.len() > 0 ==> r == Some(&old(self)@[0]) && final(self)@ == old(self)@.drop_first(),
    {
        match self.current {
            None => None,
            Some(node) => {
                self.current = match &node.next {
                    None => None,
                    Some(n) => Some(&**n),
                };
                assert(self@ =~= old(self)@.drop_first());
                Some(&node.value)
            },
        }
    }
}

/// Popping right after pushing gives back the pushed value and leaves the
/// list as it was before the push.
pub proof fn lemma_pop_undoes_push<T>(before: Seq<T>, value: T)
    ensures
        (seq![value] + before).len() > 0,
        (seq![value] + before)[0] == value,
        (seq![value] + before).drop_first() == before,
        (seq![value] + before).len() == before.len() + 1,
{
    assert((seq![value] + before).drop_first() =~= before);
}

/// Walking a cursor from the front of a list visits the values in order and
/// then stays exhausted. A fresh cursor's view is the list (`iter`); after
/// `k` calls of `next` it is the list without its first `k` values, so call
/// `k + 1` hands out the value at index `k` (`next`'s contract on
/// `list.skip(k)`), and once all values are handed out every call gives
/// `None` and leaves the cursor as it is. The list is borrowed shared by the
/// cursor and does not change.
pub proof fn lemma_cursor_visits_in_order<T>(list: Seq<T>)
    ensures
        list.skip(0) == list,
        forall|k: int|
            0 <= k < list.len() ==> (#[trigger] list.skip(k)).len() > 0 && list.skip(k)[0]
                == list[k] && list.skip(k).drop_first() == list.skip(k + 1),
        list.skip(list.len() as int).len() == 0,
{
    assert(list.skip(0) =~= list);
    assert forall|k: int| 0 <= k < list.len() implies (#[trigger] list.skip(k)).len() > 0
        && list.skip(k)[0] == list[k] && list.skip(k).drop_first() == list.skip(k + 1) by {
        assert(list.skip(k).drop_first() =~= list.skip(k + 1));
    }
}

} // verus!
