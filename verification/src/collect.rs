//! Collecting a sequence of items into a tuple of fixed size.

use vstd::prelude::*;

verus! {

/// The single item of `items`, when it has exactly one.
pub fn try_collect_one<T>(items: Vec<T>) -> (r: Option<(T,)>)
    ensures
        match r {
            Some(t) => items@.len() == 1 && t.0 == items@[0],
            None => items@.len() != 1,
        },
{
    let mut items = items;
    if items.len() == 1 {
        let a = items.remove(0);
        Some((a,))
    } else {
        None
    }
}

/// The first item of `items`, when it has one.
pub fn try_collect_one_lossy<T>(items: Vec<T>) -> (r: Option<(T,)>)
    ensures
        match r {
            Some(t) => items@.len() >= 1 && t.0 == items@[0],
            None => items@.len() == 0,
        },
{
    let mut items = items;
    if items.len() >= 1 {
        let a = items.remove(0);
        Some((a,))
    } else {
        None
    }
}

/// The two items of `items`, in order, when it has exactly two.
pub fn try_collect_two<T>(items: Vec<T>) -> (r: Option<(T, T)>)
    ensures
        match r {
            Some(t) => items@.len() == 2 && t.0 == items@[0] && t.1 == items@[1],
            None => items@.len() != 2,
        },
{
    let mut items = items;
    if items.len() == 2 {
        let a = items.remove(0);
        let b = items.remove(0);
        Some((a, b))
    } else {
        None
    }
}

/// The first two items of `items`, in order, when it has at least two.
pub fn try_collect_two_lossy<T>(items: Vec<T>) -> (r: Option<(T, T)>)
    ensures
        match r {
            Some(t) => items@.len() >= 2 && t.0 == items@[0] && t.1 == items@[1],
            None => items@.len() < 2,
        },
{
    let mut items = items;
    if items.len() >= 2 {
        let a = items.remove(0);
        let b = items.remove(0);
        Some((a, b))
    } else {
        None
    }
}

} // verus!
