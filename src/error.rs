use vstd::prelude::*;

verus! {

/// What went wrong, by the stage at which it was detected.
#[derive(Clone, Copy, Debug, PartialEq, Eq, Structural)]
pub enum ErrorKind {
    /// A malformed command string, duration or glob pattern.
    Config,
    /// A watched path that does not exist.
    Path,
    /// The operating system could not start the command.
    Spawn,
    /// The operating system could not run or wait on the command.
    Execution,
    /// The file-system notification mechanism failed.
    Watch,
    /// The internal signal channel was dropped.
    ChannelClosed,
}

/// An error reported by the library: its kind and a message for the user.
#[derive(Debug)]
pub struct CommandError {
    pub kind: ErrorKind,
    pub msg: String,
}

impl CommandError {
    pub fn new(kind: ErrorKind, msg: String) -> (r: CommandError)
        ensures
            r.kind == kind,
            r.msg@ == msg@,
    {
        CommandError { kind, msg }
    }

    /// The message, as shown to the user.
    pub fn message(&self) -> (r: &str)
        ensures
            r@ == self.msg@,
    {
        self.msg.as_str()
    }
}

} // verus!
