use vstd::prelude::*;
use vstd::string::*;

verus! {

/// What the program is asked to do.
#[derive(Debug, PartialEq, Eq)]
pub enum Command {
    /// Serve the HTTP API on the configured address.
    Daemon,
    /// Take in one job.
    Download { url: String, output: String },
    /// Show the record of the job with this id.
    Status { id: String },
}

/// The command line, read.
#[derive(Debug, PartialEq, Eq)]
pub struct Cli {
    pub command: Command,
}

impl Clone for Command {
    fn clone(&self) -> (copy: Self)
        ensures
            copy == *self,
    {
        match self {
            Command::Daemon => Command::Daemon,
            Command::Download { url, output } => Command::Download {
                url: url.clone(),
                output: output.clone(),
            },
            Command::Status { id } => Command::Status { id: id.clone() },
        }
    }
}

impl Clone for Cli {
    fn clone(&self) -> (copy: Self)
        ensures
            copy == *self,
    {
        Cli { command: self.command.clone() }
    }
}

/// The line that tells the user under which id a job was taken in.
pub fn queued_notice(id: &str) -> (line: String)
    ensures
        line@ == "Queued download: "@ + id@,
{
    let mut line = String::from_str("Queued download: ");
    line.append(id);
    line
}

} // verus!
