//! A singly linked stack of values, viewed as the sequence of its elements
//! from the front to the back.

use vstd::prelude::*;
use vstd::std_specs::cmp::{PartialEqSpec, PartialEqSpecImpl};
use vstd::string::{to_string_from_display_ensures, StringExecFns};

verus! {

/// The text of a list whose elements are written as `parts`: each part
/// behind one space.
pub open spec fn spaced(parts: Seq<String>) -> Seq<char>
    decreases parts.len(),
{
    if parts.len() == 0 {
        Seq::empty()
    } else {
        spaced(parts.drop_last()) + seq![' '] + parts.last()@
    }
}

/// `parts` holds, element by element, what the elements of `elements` are
/// displayed as.
pub open spec fn displayed_as<T: core::fmt::Display>(elements: Seq<T>, parts: Seq<String>) -> bool {
    parts.len() == elements.len() && forall|i: int|
        0 <= i < elements.len() ==> to_string_from_display_ensures::<T>(
            &#[trigger] elements[i],
            parts[i],
        )
}

/// One link of the chain: a value and the links after it.
pub struct Node<T> {
    value: T,
    next: Option<Box<Node<T>>>,
}

impl<T> Node<T> {
    /// The elements held by this node and all the nodes after it.
    pub closed spec fn elements(self) -> Seq<T>
        decreases self,
    {
        match self.next {
            None => seq![self.value],
            Some(rest) => seq![self.value] + rest.elements(),
        }
    }

    pub fn new(value: T, next: Option<Box<Node<T>>>) -> (node: Node<T>)
        ensures
            node.elements() == seq![value] + chain(next),
    {
        Node { value: value, next: next }
    }
}

/// The elements reachable from an optional first node.
pub closed spec fn chain<T>(head: Option<Box<Node<T>>>) -> Seq<T> {
    match head {
        None => Seq::empty(),
        Some(node) => node.elements(),
    }
}

pub struct LinkedList<T> {
    head: Option<Box<Node<T>>>,
    size: usize,
}

impl<T> View for LinkedList<T> {
    type V = Seq<T>;

    closed spec fn view(&self) -> Seq<T> {
        chain(self.head)
    }
}

impl<T> LinkedList<T> {
    /// The recorded size agrees with the number of nodes.
    #[verifier::type_invariant]
    spec fn well_formed(self) -> bool {
        self.size == chain(self.head).len()
    }

    pub fn new() -> (list: LinkedList<T>)
        ensures
            list@ == Seq::<T>::empty(),
    {
        LinkedList { head: None, size: 0 }
    }

    pub fn get_size(&self) -> (size: usize)
        ensures
            size == self@.len(),
    {
        proof {
            use_type_invariant(self);
        }
        self.size
    }

    pub fn is_empty(&self) -> (empty: bool)
        ensures
            empty == (self@.len() == 0),
    {
        self.get_size() == 0
    }

    /// Puts `value` in front of all the elements already held.
    pub fn push_front(&mut self, value: T)
        requires
            old(self)@.len() < usize::MAX,
        ensures
            final(self)@ == seq![value] + old(self)@,
    {
        let mut taken = LinkedList::new();
        core::mem::swap(self, &mut taken);
        proof {
            use_type_invariant(&taken);
        }
        let node: Box<Node<T>> = Box::new(Node::new(value, taken.head));
        *self = LinkedList { head: Some(node), size: taken.size + 1 };
    }

    /// Takes the first element out, if there is one.
    pub fn pop_front(&mut self) -> (front: Option<T>)
        ensures
            old(self)@.len() == 0 ==> front.is_none() && final(self)@ == old(self)@,
            old(self)@.len() > 0 ==> front == Some(old(self)@[0]) && final(self)@ == old(self)@.skip(
                1,
            ),
    {
        let mut taken = LinkedList::new();
        core::mem::swap(self, &mut taken);
        proof {
            use_type_invariant(&taken);
        }
        match taken.head {
            None => None,
            Some(boxed) => {
                let node: Node<T> = *boxed;
                assert(chain(node.next) =~= node.elements().skip(1));
                *self = LinkedList { head: node.next, size: taken.size - 1 };
                Some(node.value)
            },
        }
    }

    /// A cursor that starts at the front of the list.
    pub fn iter<'a>(&'a self) -> (it: LinkedListIter<'a, T>)
        ensures
            it.remaining() == self@,
    {
        LinkedListIter { current: &self.head }
    }
}

/// Copies a chain link by link, cloning each value.
fn clone_chain<T: Clone>(head: &Option<Box<Node<T>>>) -> (copy: Option<Box<Node<T>>>)
    ensures
        chain(copy).len() == chain(*head).len(),
        forall|i: int|
            0 <= i < chain(*head).len() ==> cloned(#[trigger] chain(*head)[i], chain(copy)[i]),
    decreases *head,
{
    match head {
        None => None,
        Some(node) => {
            let rest = clone_chain(&node.next);
            let value = node.value.clone();
            let copy = Some(Box::new(Node::new(value, rest)));
            assert(chain(*head) =~= seq![node.value] + chain(node.next));
            assert forall|i: int| 0 <= i < chain(*head).len() implies cloned(
                #[trigger] chain(*head)[i],
                chain(copy)[i],
            ) by {
                if i > 0 {
                    assert(chain(*head)[i] == chain(node.next)[i - 1]);
                    assert(chain(copy)[i] == chain(rest)[i - 1]);
                }
            }
            copy
        },
    }
}

impl<T: Clone> Clone for LinkedList<T> {
    /// A list of the same length whose elements are clones of this list's
    /// elements, in the same order.
    fn clone(&self) -> (copy: Self)
        ensures
            copy@.len() == self@.len(),
            forall|i: int| 0 <= i < self@.len() ==> cloned(#[trigger] self@[i], copy@[i]),
    {
        proof {
            use_type_invariant(self);
        }
        LinkedList { head: clone_chain(&self.head), size: self.size }
    }
}

/// Two sequences have the same length and, place by place, equal elements.
pub open spec fn elements_equal<T: PartialEq>(a: Seq<T>, b: Seq<T>) -> bool {
    a.len() == b.len() && forall|i: int| 0 <= i < a.len() ==> (#[trigger] a[i]).eq_spec(&b[i])
}

/// Compares two chains link by link.
fn chain_eq<T: PartialEq>(a: &Option<Box<Node<T>>>, b: &Option<Box<Node<T>>>) -> (same: bool)
    ensures
        T::obeys_eq_spec() ==> same == elements_equal(chain(*a), chain(*b)),
    decreases *a,
{
    match (a, b) {
        (None, None) => true,
        (Some(x), Some(y)) => {
            let first = x.value == y.value;
            let rest = chain_eq(&x.next, &y.next);
            proof {
                let s = chain(*a);
                let t = chain(*b);
                assert(s =~= seq![x.value] + chain(x.next));
                assert(t =~= seq![y.value] + chain(y.next));
                if T::obeys_eq_spec() {
                    if first && rest {
                        assert forall|i: int| 0 <= i < s.len() implies (#[trigger] s[i]).eq_spec(
                            &t[i],
                        ) by {
                            if i > 0 {
                                assert(s[i] == chain(x.next)[i - 1]);
                                assert(t[i] == chain(y.next)[i - 1]);
                            }
                        }
                    }
                    if elements_equal(s, t) {
                        assert(s[0].eq_spec(&t[0]));
                        assert forall|i: int| 0 <= i < chain(x.next).len() implies (
                        #[trigger] chain(x.next)[i]).eq_spec(&chain(y.next)[i]) by {
                            assert(s[i + 1] == chain(x.next)[i]);
                            assert(t[i + 1] == chain(y.next)[i]);
                        }
                    }
                }
            }
            first && rest
        },
        (None, Some(y)) => {
            assert(chain(*b).len() > 0);
            false
        },
        (Some(x), None) => {
            assert(chain(*a).len() > 0);
            false
        },
    }
}

impl<T: PartialEq> PartialEqSpecImpl for LinkedList<T> {
    open spec fn obeys_eq_spec() -> bool {
        T::obeys_eq_spec()
    }

    open spec fn eq_spec(&self, other: &LinkedList<T>) -> bool {
        elements_equal(self@, other@)
    }
}

impl<T: PartialEq> PartialEq for LinkedList<T> {
    /// Two lists are equal if they have the same length and equal elements
    /// in the same order.
    fn eq(&self, other: &Self) -> (same: bool) {
        proof {
            use_type_invariant(self);
            use_type_invariant(other);
        }
        self.size == other.size && chain_eq(&self.head, &other.head)
    }
}

impl<T: core::fmt::Display> LinkedList<T> {
    /// The elements as text, from the front to the back, each as it is
    /// displayed and behind one space.
    pub fn render(&self) -> (text: String)
        ensures
            exists|parts: Seq<String>| displayed_as(self@, parts) && text@ == #[trigger] spaced(parts),
    {
        let mut text = String::new();
        let mut current: &Option<Box<Node<T>>> = &self.head;
        let ghost mut parts: Seq<String> = Seq::empty();
        let ghost mut done: Seq<T> = Seq::empty();
        proof {
            reveal_strlit(" ");
        }
        loop
            invariant
                self@ == done + chain(*current),
                displayed_as(done, parts),
                text@ == spaced(parts),
                " "@ == seq![' '],
            ensures
                self@ == done,
            decreases chain(*current).len(),
        {
            match current {
                None => {
                    assert(done + chain(*current) =~= done);
                    break ;
                },
                Some(node) => {
                    let piece = node.value.to_string();
                    text.append(" ");
                    text.append(piece.as_str());
                    proof {
                        assert(chain(*current) =~= seq![node.value] + chain(node.next));
                        assert(done.push(node.value) + chain(node.next) =~= done + chain(*current));
                        assert(parts.push(piece).drop_last() =~= parts);
                        done = done.push(node.value);
                        parts = parts.push(piece);
                    }
                    current = &node.next;
                },
            }
        }
        assert(displayed_as(self@, parts) && text@ == spaced(parts));
        text
    }
}

/// A cursor over a list: it hands out clones of the elements from the front
/// to the back.
pub struct LinkedListIter<'a, T> {
    current: &'a Option<Box<Node<T>>>,
}

impl<'a, T> LinkedListIter<'a, T> {
    /// The elements that the cursor has not handed out yet.
    pub closed spec fn remaining(&self) -> Seq<T> {
        chain(*self.current)
    }
}

impl<'a, T: Clone> LinkedListIter<'a, T> {
    /// Hands out a clone of the next element and moves past it.
    pub fn next(&mut self) -> (item: Option<T>)
        ensures
            old(self).remaining().len() == 0 ==> item.is_none() && final(self).remaining()
                == old(self).remaining(),
            old(self).remaining().len() > 0 ==> item.is_some() && cloned(
                old(self).remaining()[0],
                item.unwrap(),
            ) && final(self).remaining() == old(self).remaining().skip(1),
    {
        match self.current {
            Some(node) => {
                assert(chain(node.next) =~= node.elements().skip(1));
                self.current = &node.next;
                Some(node.value.clone())
            },
            None => None,
        }
    }
}

} // verus!
