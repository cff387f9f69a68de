use crate::text::{decimal, decimal_text, join2, lossy_text, trim_text, trimmed, utf8_lossy};
use vstd::prelude::*;
use vstd::string::*;

verus! {

/// The program that is asked which process holds a port.
pub const LISTING_PROGRAM: &'static str = "lsof";

/// The program that ends a process.
pub const KILL_PROGRAM: &'static str = "kill";

/// How long to wait after a process was told to end, in milliseconds, before
/// its port is taken for free.
pub const RELEASE_PAUSE_MILLIS: u64 = 500;

/// The arguments that make the listing program name the holder of `port`.
pub open spec fn listing_arguments(port: u16) -> Seq<Seq<char>> {
    seq!["-i"@, ":"@ + decimal(port as nat), "-t"@]
}

/// Builds the arguments that make the listing program name the holder of
/// `port`, and nothing else.
pub fn lsof_args(port: u16) -> (args: Vec<String>)
    ensures
        args.deep_view() == listing_arguments(port),
{
    let args = vec![
        "-i".to_owned(),
        join2(":", decimal_text(port as u64).as_str()),
        "-t".to_owned(),
    ];
    assert(args.deep_view() =~= listing_arguments(port));
    args
}

/// Builds the arguments that make the kill program end `pid` by force.
pub fn kill_args(pid: &str) -> (args: Vec<String>)
    ensures
        args.deep_view() == seq!["-9"@, pid@],
{
    let args = vec!["-9".to_owned(), pid.to_owned()];
    assert(args.deep_view() =~= seq!["-9"@, pid@]);
    args
}

/// The process that a listing names: the listing without the white space
/// around it, unless nothing is left.
pub open spec fn named_holder(listing: Seq<char>) -> Option<Seq<char>> {
    if trimmed(listing).len() == 0 {
        None
    } else {
        Some(trimmed(listing))
    }
}

/// Reads the holder of a port out of the text that the listing program wrote.
pub fn holder_in(listing: &str) -> (holder: Option<String>)
    ensures
        match holder {
            Some(pid) => named_holder(listing@) == Some(pid@),
            None => named_holder(listing@) is None,
        },
{
    let pid = trim_text(listing);
    if pid.unicode_len() == 0 {
        None
    } else {
        Some(pid.to_owned())
    }
}

/// Reads the holder of a port out of what the listing program wrote to its
/// standard output, decoded leniently.
pub fn port_holder(output: &[u8]) -> (holder: Option<String>)
    ensures
        match holder {
            Some(pid) => named_holder(utf8_lossy(output@)) == Some(pid@),
            None => named_holder(utf8_lossy(output@)) is None,
        },
{
    let listing = lossy_text(output);
    holder_in(listing.as_str())
}

/// Why a port could not be freed, as contracts see it.
pub enum ReleaseFailure {
    ListingFailed(Seq<char>),
    NoProcess(u16),
    KillFailed(Seq<char>, Seq<char>),
}

/// Why a port could not be freed.
#[derive(Debug, PartialEq, Eq)]
pub enum ReleaseError {
    /// The listing program could not be run; with what the system said.
    ListingFailed(String),
    /// The listing names no process for the port.
    NoProcess(u16),
    /// The kill program could not be run on the process; with the process and
    /// what the system said.
    KillFailed(String, String),
}

impl View for ReleaseError {
    type V = ReleaseFailure;

    open spec fn view(&self) -> ReleaseFailure {
        match self {
            ReleaseError::ListingFailed(detail) => ReleaseFailure::ListingFailed(detail@),
            ReleaseError::NoProcess(port) => ReleaseFailure::NoProcess(*port),
            ReleaseError::KillFailed(pid, detail) => ReleaseFailure::KillFailed(pid@, detail@),
        }
    }
}

impl ReleaseFailure {
    /// The text of the failure.
    pub open spec fn message_text(self) -> Seq<char> {
        match self {
            ReleaseFailure::ListingFailed(detail) => "Failed to execute lsof: "@ + detail,
            ReleaseFailure::NoProcess(port) => "No process found using port "@ + decimal(
                port as nat,
            ),
            ReleaseFailure::KillFailed(pid, detail) => "Failed to kill process "@ + pid + ": "@
                + detail,
        }
    }
}

impl ReleaseError {
    /// The error as a line of text.
    pub fn message(&self) -> (text: String)
        ensures
            text@ == self@.message_text(),
    {
        match self {
            ReleaseError::ListingFailed(detail) => join2(
                "Failed to execute lsof: ",
                detail.as_str(),
            ),
            ReleaseError::NoProcess(port) => join2(
                "No process found using port ",
                decimal_text(*port as u64).as_str(),
            ),
            ReleaseError::KillFailed(pid, detail) => {
                let mut text = join2("Failed to kill process ", pid.as_str());
                text.append(": ");
                text.append(detail.as_str());
                text
            },
        }
    }
}

/// Decides what to do with the listing for `port`: the process to end, or the
/// error that no process holds the port.
pub fn holder_or_error(port: u16, output: &[u8]) -> (holder: Result<String, ReleaseError>)
    ensures
        match holder {
            Ok(pid) => named_holder(utf8_lossy(output@)) == Some(pid@),
            Err(error) => named_holder(utf8_lossy(output@)) is None && error@
                == ReleaseFailure::NoProcess(port),
        },
{
    match port_holder(output) {
        Some(pid) => Ok(pid),
        None => Err(ReleaseError::NoProcess(port)),
    }
}

} // verus!
