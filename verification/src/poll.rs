//! The outcomes of operations that may have to wait.

use vstd::prelude::*;

verus! {

/// The outcome of an attempt to take a value.
#[derive(Debug)]
pub enum Async<T> {
    /// The value is there.
    Ready(T),
    /// Nothing is there yet; the caller's task has been kept and will be
    /// notified.
    NotReady,
}

/// The outcome of an attempt to hand a value over.
#[derive(Debug)]
pub enum AsyncSink<T> {
    /// The whole value was accepted.
    Ready,
    /// Only a part was accepted. What is left comes back; the caller's task
    /// has been kept and will be notified.
    NotReady(T),
}

impl<T> Async<T> {
    /// Whether a value is there.
    pub fn is_ready(&self) -> (b: bool)
        ensures
            b == (*self is Ready),
    {
        match self {
            Async::Ready(_) => true,
            Async::NotReady => false,
        }
    }
}

impl<T> AsyncSink<T> {
    /// Whether the whole value was accepted.
    pub fn is_ready(&self) -> (b: bool)
        ensures
            b == (*self is Ready),
    {
        match self {
            AsyncSink::Ready => true,
            AsyncSink::NotReady(_) => false,
        }
    }
}

} // verus!
