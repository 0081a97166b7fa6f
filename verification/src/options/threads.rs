//! Thread count configuration for parallel processing.
use vstd::prelude::*;

use crate::error::WordTallyError;
use crate::output::{decimal, decimal_string};

verus! {

/// `rayon::current_num_threads`: the size of the current thread pool. Rayon builds every pool
/// with at least one thread and at most `rayon::max_num_threads()` of them (65535 where
/// pointers have 64 bits, 255 where they have 32); how many depends on the machine.
#[verifier::external_body]
pub(crate) fn current_num_threads() -> (threads: usize)
    ensures
        1 <= threads <= 65535,
{
    rayon::current_num_threads()
}

/// `rayon::ThreadPoolBuilder::new().num_threads(num_threads).build_global()`: sets up the
/// global thread pool with that many threads, or gives the error's message. Rayon refuses
/// when the global pool already exists, which depends on what the process did before, so
/// nothing is stated of the outcome.
#[verifier::external_body]
pub(crate) fn build_global_pool(num_threads: usize) -> (built: Result<(), String>) {
    rayon::ThreadPoolBuilder::new().num_threads(num_threads).build_global().map_err(|error| error.to_string())
}

/// Whether `built` is an answer that `build_global_pool` can give when asked for a global pool
/// of `num_threads` threads.
pub closed spec fn global_pool_answer(num_threads: usize, built: Result<(), String>) -> bool {
    call_ensures(build_global_pool, (num_threads,), built)
}

/// A direct call of `build_global_pool` gives one of its answers.
pub(crate) proof fn lemma_global_pool_answer(num_threads: usize, built: Result<(), String>)
    requires
        call_ensures(build_global_pool, (num_threads,), built),
    ensures
        global_pool_answer(num_threads, built),
{
}

/// The message for a thread pool that could not be set up with `count` threads.
pub open spec fn pool_failure_message(count: u16) -> Seq<char> {
    "failed to configure thread pool with "@ + decimal(count as nat) + " threads"@
}

/// Thread count configuration for parallel processing.
#[derive(Clone, Copy, Debug, PartialEq, Eq, Hash)]
pub enum Threads {
    /// Use all available cores.
    All,
    /// Use a specific number of threads.
    Count(u16),
}

impl Default for Threads {
    fn default() -> (threads: Self)
        ensures
            threads == Threads::All,
    {
        Threads::All
    }
}

impl Threads {
    /// Get the actual number of threads that will be used: the requested count, or the size of
    /// the current thread pool for `All`.
    pub fn count(self) -> (count: usize)
        ensures
            self matches Threads::Count(n) ==> count == n,
            self is All ==> 1 <= count <= 65535,
    {
        match self {
            Threads::All => current_num_threads(),
            Threads::Count(n) => n as usize,
        }
    }

    /// The number of threads, as the verbose output shows it.
    pub fn to_string(self) -> (text: String)
        ensures
            self matches Threads::Count(n) ==> text@ == decimal(n as nat),
            self is All ==> exists|n: nat| 1 <= n <= 65535 && text@ == #[trigger] decimal(n),
    {
        decimal_string(self.count() as u64)
    }

    /// The size of global pool this setting asks Rayon for: the count, or none for `All`,
    /// which keeps Rayon's default pool.
    pub open spec fn spec_pool_request(self) -> Option<usize> {
        match self {
            Threads::Count(c) => Some(c as usize),
            Threads::All => None,
        }
    }

    /// The size of global pool this setting asks Rayon for.
    pub fn pool_request(self) -> (n: Option<usize>)
        ensures
            n == self.spec_pool_request(),
    {
        match self {
            Threads::Count(c) => Some(c as usize),
            Threads::All => None,
        }
    }

    /// Whether `result` is what setting up the pool for this setting comes to when `build`
    /// was asked for the requested size and answered `built`.
    pub open spec fn pool_outcome(self, built: Result<(), String>, result: Result<(), WordTallyError>) -> bool {
        match self {
            Threads::Count(c) => {
                &&& built is Ok ==> result is Ok
                &&& built is Err ==> (result matches Err(WordTallyError::Config(message)) && message@
                    == pool_failure_message(c))
            },
            Threads::All => result is Ok,
        }
    }

    /// Whether `result` is what setting up Rayon's global pool for this setting comes to: `Ok`
    /// for `All`; for a count, the outcome of some answer `build_global_pool` gives when asked
    /// for exactly that many threads.
    pub open spec fn sets_up_pool(self, result: Result<(), WordTallyError>) -> bool {
        match self.spec_pool_request() {
            Some(n) => exists|built: Result<(), String>|
                #[trigger] global_pool_answer(n, built) && self.pool_outcome(built, result),
            None => self.pool_outcome(Ok(()), result),
        }
    }

    /// Sets up the global pool through `build`: asks it for the requested size, if any, and
    /// turns its answer into the result.
    pub fn init_pool_with<F: FnOnce(usize) -> Result<(), String>>(self, build: F) -> (result: Result<(), WordTallyError>)
        requires
            self.spec_pool_request() matches Some(n) ==> call_requires(build, (n,)),
        ensures
            self.spec_pool_request() is None ==> self.pool_outcome(Ok(()), result),
            self.spec_pool_request() matches Some(n) ==> exists|built: Result<(), String>|
                #[trigger] call_ensures(build, (n,), built) && self.pool_outcome(built, result),
    {
        match self.pool_request() {
            Some(n) => {
                let built = build(n);
                let ghost answer = built;
                let result = match self {
                    Threads::Count(count) => Self::pool_setup_result(count, built),
                    Threads::All => Ok(()),
                };
                assert(call_ensures(build, (n,), answer) && self.pool_outcome(answer, result));
                result
            },
            None => Ok(()),
        }
    }

    /// Initialize the Rayon thread pool: `All` keeps Rayon's default pool, a count asks
    /// `build_global_pool` for a global pool of that many threads.
    ///
    /// Rayon sets up the global pool once per process; callers attempt this at most once.
    pub fn init_pool(self) -> (result: Result<(), WordTallyError>)
        ensures
            self is All ==> result is Ok,
            self.sets_up_pool(result),
    {
        let result = self.init_pool_with(build_global_pool);
        proof {
            if let Some(n) = self.spec_pool_request() {
                let built = choose|built: Result<(), String>|
                    #[trigger] call_ensures(build_global_pool, (n,), built) && self.pool_outcome(built, result);
                assert(global_pool_answer(n, built));
            }
        }
        result
    }

    /// Initialize the Rayon thread pool at most once: the first call (`attempted` still false)
    /// sets up the pool as `init_pool` does and notes the attempt; every later call does
    /// nothing and succeeds. A static flag cannot stand here, so the caller keeps it, once per
    /// process.
    pub fn init_pool_once(self, attempted: &mut bool) -> (result: Result<(), WordTallyError>)
        ensures
            *final(attempted),
            *old(attempted) ==> result is Ok,
            !*old(attempted) ==> self.sets_up_pool(result),
    {
        if *attempted {
            return Ok(());
        }
        *attempted = true;
        self.init_pool()
    }

    /// What setting up the global pool with `count` threads comes to, given what Rayon
    /// answered: `Ok` when the pool was built, else a configuration error naming the count.
    pub fn pool_setup_result(count: u16, built: Result<(), String>) -> (result: Result<(), WordTallyError>)
        ensures
            built is Ok ==> result is Ok,
            built is Err ==> (result matches Err(WordTallyError::Config(message)) && message@
                == pool_failure_message(count)),
    {
        if built.is_err() {
            let mut message = "failed to configure thread pool with ".to_owned();
            let digits = decimal_string(count as u64);
            message.append(digits.as_str());
            message.append(" threads");
            return Err(WordTallyError::Config(message));
        }
        Ok(())
    }

    /// A specific number of threads.
    pub fn from_count(count: u16) -> (threads: Self)
        ensures
            threads == Threads::Count(count),
    {
        Threads::Count(count)
    }
}

} // verus!
