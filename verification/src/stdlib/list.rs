//! List helpers.
use vstd::prelude::*;

verus! {

/// The number of elements of a list.
pub fn len<T>(list: &[T]) -> (r: usize)
    ensures
        r == list@.len(),
{
    list.len()
}

/// The list in reverse order, each element cloned.
pub fn reverse<T: Clone>(list: &[T]) -> (r: Vec<T>)
    ensures
        r@.len() == list@.len(),
        forall|i: int| 0 <= i < r@.len() ==> cloned(list@[list@.len() - 1 - i], #[trigger] r@[i]),
{
    let mut out: Vec<T> = Vec::new();
    let n = list.len();
    let mut i: usize = 0;
    while i < n
        invariant
            n == list@.len(),
            0 <= i <= n,
            out@.len() == i,
            forall|j: int| 0 <= j < i ==> cloned(list@[n - 1 - j], #[trigger] out@[j]),
        decreases n - i,
    {
        out.push(list[n - 1 - i].clone());
        i += 1;
    }
    out
}

/// The results of `f` on the elements of a list, in order.
pub fn map<T, U, F>(list: &[T], f: F) -> (r: Vec<U>) where F: Fn(&T) -> U
    requires
        forall|i: int| 0 <= i < list@.len() ==> f.requires((&#[trigger] list@[i],)),
    ensures
        r@.len() == list@.len(),
        forall|i: int| 0 <= i < r@.len() ==> f.ensures((&list@[i],), #[trigger] r@[i]),
{
    let mut out: Vec<U> = Vec::new();
    let n = list.len();
    let mut i: usize = 0;
    while i < n
        invariant
            n == list@.len(),
            0 <= i <= n,
            out@.len() == i,
            forall|j: int| 0 <= j < list@.len() ==> f.requires((&#[trigger] list@[j],)),
            forall|j: int| 0 <= j < i ==> f.ensures((&list@[j],), #[trigger] out@[j]),
        decreases n - i,
    {
        out.push(f(&list[i]));
        i += 1;
    }
    out
}

/// The empty list.
pub fn new<T>() -> (r: Vec<T>)
    ensures
        r@ == Seq::<T>::empty(),
{
    Vec::new()
}

/// Appends an element to the end of a list.
pub fn append<T>(list: &mut Vec<T>, element: T)
    ensures
        final(list)@ == old(list)@.push(element),
{
    list.push(element);
}

/// Removes and returns the last element of a list, if there is one.
pub fn pop<T>(list: &mut Vec<T>) -> (r: Option<T>)
    ensures
        old(list)@.len() == 0 ==> r is None && final(list)@ == old(list)@,
        old(list)@.len() > 0 ==> r == Some(old(list)@.last()) && final(list)@ == old(
            list,
        )@.drop_last(),
{
    list.pop()
}

/// The number of elements of a list.
pub fn length<T>(list: &Vec<T>) -> (r: usize)
    ensures
        r == list@.len(),
{
    list.len()
}

/// Whether a list has no element.
pub fn is_empty<T>(list: &Vec<T>) -> (r: bool)
    ensures
        r == (list@.len() == 0),
{
    list.len() == 0
}

/// Removes and returns the element at `index`, if there is one; the elements
/// behind it move up.
pub fn remove<T>(list: &mut Vec<T>, index: usize) -> (r: Option<T>)
    ensures
        index < old(list)@.len() ==> r == Some(old(list)@[index as int]) && final(list)@ == old(
            list,
        )@.remove(index as int),
        index >= old(list)@.len() ==> r is None && final(list)@ == old(list)@,
{
    if index < list.len() {
        Some(list.remove(index))
    } else {
        None
    }
}

} // verus!
