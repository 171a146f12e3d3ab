use vstd::prelude::*;

verus! {

/// Messages kept until the next frame shows them.
pub struct Logger {
    buffer: Vec<String>,
}

impl Logger {
    /// The messages, oldest first.
    pub closed spec fn messages(&self) -> Seq<String> {
        self.buffer@
    }

    /// A logger with no message.
    pub fn setup() -> (r: Logger)
        ensures
            r.messages().len() == 0,
    {
        Logger { buffer: Vec::new() }
    }

    /// Keeps a message.
    pub fn log(&mut self, msg: String)
        ensures
            final(self).messages() == old(self).messages().push(msg),
    {
        self.buffer.push(msg);
    }

    /// Takes out every message, oldest first.
    pub fn drain(&mut self) -> (r: Vec<String>)
        ensures
            r@ == old(self).messages(),
            final(self).messages().len() == 0,
    {
        let mut taken: Vec<String> = Vec::new();
        std::mem::swap(&mut taken, &mut self.buffer);
        taken
    }
}

} // verus!
