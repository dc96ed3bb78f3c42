//! Relays that map a message into another one and pass it on to a target actor.
use vstd::prelude::*;

verus! {

/// Errors of a relay.
#[derive(Clone, Copy, Debug, PartialEq, Eq, Structural)]
pub enum RelayError {
    /// A relay that maps at most once received a second message.
    CalledMoreThanOnce,
}

/// A relay that maps one message with `function`, passes it on to `target`, and stops.
pub struct MapOnce<F> {
    target: u64,
    function: Option<F>,
}

impl<F> MapOnce<F> {
    /// Handle of the actor that receives the mapped message.
    pub closed spec fn target(&self) -> u64 {
        self.target
    }

    /// The mapping function, while it has not been used.
    pub closed spec fn function(&self) -> Option<F> {
        self.function
    }

    /// A relay to `target` that maps with `function`.
    pub fn new(target: u64, function: F) -> (r: MapOnce<F>)
        ensures
            r.target() == target,
            r.function() == Some(function),
    {
        MapOnce { target, function: Some(function) }
    }

    /// Maps `message` and returns it with the target it goes to. The function is used up: a
    /// second message is refused.
    pub fn relay<I, O>(&mut self, message: I) -> (r: Result<(u64, O), RelayError>)
        where
            F: FnOnce(I) -> O,
        requires
            old(self).function() matches Some(f) ==> call_requires(f, (message,)),
        ensures
            final(self).target() == old(self).target(),
            final(self).function() is None,
            match old(self).function() {
                Some(f) => r matches Ok((to, mapped)) && to == old(self).target() && call_ensures(
                    f,
                    (message,),
                    mapped,
                ),
                None => r == Err::<(u64, O), RelayError>(RelayError::CalledMoreThanOnce),
            },
    {
        match self.function.take() {
            Some(function) => {
                let mapped = function(message);
                Ok((self.target, mapped))
            },
            None => Err(RelayError::CalledMoreThanOnce),
        }
    }

    /// Delivers `messages` to the relay in order: the first is mapped and passed on, every
    /// later one is refused, so exactly one message ever reaches the target.
    pub fn relay_all<I, O>(&mut self, messages: Vec<I>) -> (r: Vec<Result<(u64, O), RelayError>>)
        where
            F: FnOnce(I) -> O,
        requires
            messages@.len() > 0 ==> (old(self).function() matches Some(f) ==> call_requires(
                f,
                (messages@[0],),
            )),
        ensures
            final(self).target() == old(self).target(),
            messages@.len() > 0 ==> final(self).function() is None,
            messages@.len() == 0 ==> final(self).function() == old(self).function(),
            r@.len() == messages@.len(),
            forall|i: int|
                0 <= i < r@.len() ==> match old(self).function() {
                    Some(f) if i == 0 => #[trigger] r@[i] matches Ok((to, mapped)) && to
                        == old(self).target() && call_ensures(f, (messages@[0],), mapped),
                    _ => r@[i] == Err::<(u64, O), RelayError>(RelayError::CalledMoreThanOnce),
                },
    {
        let ghost f0 = self.function();
        let ghost all = messages@;
        let mut messages = messages;
        let mut out: Vec<Result<(u64, O), RelayError>> = Vec::new();
        let mut i: usize = 0;
        let n = messages.len();
        while i < n
            invariant
                n == all.len(),
                i <= n,
                messages@ == all.skip(i as int),
                out@.len() == i,
                self.target() == old(self).target(),
                i > 0 ==> self.function() is None,
                i == 0 ==> self.function() == f0,
                f0 == old(self).function(),
                all.len() > 0 ==> (f0 matches Some(f) ==> call_requires(f, (all[0],))),
                forall|k: int|
                    0 <= k < i ==> match f0 {
                        Some(f) if k == 0 => #[trigger] out@[k] matches Ok((to, mapped)) && to
                            == old(self).target() && call_ensures(f, (all[0],), mapped),
                        _ => out@[k] == Err::<(u64, O), RelayError>(RelayError::CalledMoreThanOnce),
                    },
            decreases n - i,
        {
            let message = messages.remove(0);
            proof {
                assert(all.skip(i + 1) =~= all.skip(i as int).remove(0));
            }
            let result = self.relay(message);
            out.push(result);
            i += 1;
        }
        out
    }
}

/// A relay that maps every message with `function` and passes it on to `target`.
pub struct MapRelay<F> {
    target: u64,
    function: F,
}

impl<F> MapRelay<F> {
    /// Handle of the actor that receives the mapped messages.
    pub closed spec fn target(&self) -> u64 {
        self.target
    }

    /// The mapping function.
    pub closed spec fn function(&self) -> F {
        self.function
    }

    /// A relay to `target` that maps with `function`.
    pub fn new(target: u64, function: F) -> (r: MapRelay<F>)
        ensures
            r.target() == target,
            r.function() == function,
    {
        MapRelay { target, function }
    }

    /// Maps `message` and returns it with the target it goes to. The relay keeps running.
    pub fn relay<I, O>(&mut self, message: I) -> (r: Result<(u64, O), RelayError>)
        where
            F: FnMut(I) -> O,
        requires
            call_requires(old(self).function(), (message,)),
        ensures
            final(self).target() == old(self).target(),
            final(self).function() == old(self).function(),
            r matches Ok((to, mapped)) && to == old(self).target() && call_ensures(
                old(self).function(),
                (message,),
                mapped,
            ),
    {
        let mapped = (self.function)(message);
        Ok((self.target, mapped))
    }

    /// Delivers `messages` to the relay in order: the target receives each one, mapped by the
    /// same function, one each and in the same order.
    pub fn relay_all<I, O>(&mut self, messages: Vec<I>) -> (r: Vec<(u64, O)>)
        where
            F: FnMut(I) -> O,
        requires
            forall|i: int| 0 <= i < messages@.len() ==> call_requires(old(self).function(), (#[trigger] messages@[i],)),
        ensures
            final(self).target() == old(self).target(),
            final(self).function() == old(self).function(),
            r@.len() == messages@.len(),
            forall|i: int|
                0 <= i < r@.len() ==> (#[trigger] r@[i]).0 == old(self).target() && call_ensures(
                    old(self).function(),
                    (messages@[i],),
                    r@[i].1,
                ),
    {
        let ghost all = messages@;
        let mut messages = messages;
        let mut out: Vec<(u64, O)> = Vec::new();
        let mut i: usize = 0;
        let n = messages.len();
        while i < n
            invariant
                n == all.len(),
                i <= n,
                messages@ == all.skip(i as int),
                out@.len() == i,
                self.target() == old(self).target(),
                self.function() == old(self).function(),
                forall|k: int| 0 <= k < n ==> call_requires(old(self).function(), (#[trigger] all[k],)),
                forall|k: int|
                    0 <= k < i ==> (#[trigger] out@[k]).0 == old(self).target() && call_ensures(
                        old(self).function(),
                        (all[k],),
                        out@[k].1,
                    ),
            decreases n - i,
        {
            let message = messages.remove(0);
            proof {
                assert(all.skip(i + 1) =~= all.skip(i as int).remove(0));
                assert(message == all[i as int]);
            }
            match self.relay(message) {
                Ok(pair) => {
                    out.push(pair);
                },
                Err(_) => {
                    return out;
                },
            }
            i += 1;
        }
        out
    }
}

/// What an actor that runs a callback does after it, given the callback's result: it stops
/// exactly when the callback returned `Ok(false)`, keeps running on `Ok(true)`, and on
/// `Err(e)` keeps running and fails its processing with `e`. Returns whether to stop.
pub fn after_callback<E>(result: Result<bool, E>) -> (r: Result<bool, E>)
    ensures
        match result {
            Ok(keep) => r == Ok::<bool, E>(!keep),
            Err(e) => r == Err::<bool, E>(e),
        },
{
    match result {
        Ok(keep) => Ok(!keep),
        Err(e) => Err(e),
    }
}

} // verus!
