use vstd::prelude::*;

verus! {

/// Keeps the latest message that was logged.
pub struct Logger {
    latest: String,
}

impl View for Logger {
    type V = Seq<char>;

    /// The latest message; empty before the first one.
    closed spec fn view(&self) -> Seq<char> {
        self.latest@
    }
}

impl Logger {
    pub fn new() -> (logger: Self)
        ensures
            logger@ == Seq::<char>::empty(),
    {
        Logger { latest: String::new() }
    }

    /// Makes `message` the latest message.
    pub fn log(&mut self, message: String)
        ensures
            final(self)@ == message@,
    {
        self.latest = message;
    }

    /// Hands the latest message to `f`.
    pub fn with_latest<F: FnOnce(&str)>(&self, f: F)
        requires
            forall|message: &str| message@ == self@ ==> call_requires(f, (message,)),
        ensures
            exists|message: &str| message@ == self@ && call_ensures(f, (message,), ()),
    {
        f(self.latest.as_str())
    }
}

impl Default for Logger {
    fn default() -> (logger: Self)
        ensures
            logger@ == Seq::<char>::empty(),
    {
        Logger::new()
    }
}

} // verus!
