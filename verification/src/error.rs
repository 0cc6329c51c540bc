//! What can go wrong.

use vstd::prelude::*;
use vstd::string::*;
use crate::text::{clone_strings, concat2, concat3, join, owned};

verus! {

/// Every way in which the library refuses an input or gives up a run.
#[derive(Debug, PartialEq, Eq)]
pub enum BootError {
    /// Output of a tool that is not valid UTF-8.
    InvalidUtf8,
    /// A search pattern that the matching engine rejects.
    BadPattern,
    /// The boot-manager tool did not report its own version.
    NoVersion,
    /// A path that does not lie in the store.
    NotAStorePath,
    /// A link that names neither a system nor a profile generation.
    NotAGeneration,
    /// An index that is no number, or does not fit the machine word.
    BadIndex,
    /// Some, but not all, of the Secure Boot settings were given.
    IncompleteSigningInfo,
    /// No EFI System Partition was given.
    NoEsp,
    /// The path of the boot-manager tool was not given.
    NoBootctl,
    /// A time stamp that names no local date.
    BadTimestamp,
    /// A unified image was asked for and the tool that builds it was not
    /// given.
    NoImageBuilder,
    /// A program ended with a failure status.
    CommandFailed { program: String, args: Vec<String> },
    /// The signing tool refused a file.
    NotSigned { file: String },
    /// The verifying tool refused a file.
    NotVerified { file: String },
    /// The signature could not be removed from a file.
    NotStripped { file: String },
    /// A source directory that is the destination itself.
    CopyIntoItself { path: String },
    /// An operation on the file system failed; the text says which and why.
    Io { message: String },
}

/// The mathematical value of an [`BootError`].
pub enum BootErrorView {
    InvalidUtf8,
    BadPattern,
    NoVersion,
    NotAStorePath,
    NotAGeneration,
    BadIndex,
    IncompleteSigningInfo,
    NoEsp,
    NoBootctl,
    BadTimestamp,
    NoImageBuilder,
    CommandFailed { program: Seq<char>, args: Seq<Seq<char>> },
    NotSigned { file: Seq<char> },
    NotVerified { file: Seq<char> },
    NotStripped { file: Seq<char> },
    CopyIntoItself { path: Seq<char> },
    Io { message: Seq<char> },
}

impl View for BootError {
    type V = BootErrorView;

    open spec fn view(&self) -> BootErrorView {
        match self {
            BootError::InvalidUtf8 => BootErrorView::InvalidUtf8,
            BootError::BadPattern => BootErrorView::BadPattern,
            BootError::NoVersion => BootErrorView::NoVersion,
            BootError::NotAStorePath => BootErrorView::NotAStorePath,
            BootError::NotAGeneration => BootErrorView::NotAGeneration,
            BootError::BadIndex => BootErrorView::BadIndex,
            BootError::IncompleteSigningInfo => BootErrorView::IncompleteSigningInfo,
            BootError::NoEsp => BootErrorView::NoEsp,
            BootError::NoBootctl => BootErrorView::NoBootctl,
            BootError::BadTimestamp => BootErrorView::BadTimestamp,
            BootError::NoImageBuilder => BootErrorView::NoImageBuilder,
            BootError::CommandFailed { program, args } => BootErrorView::CommandFailed {
                program: program@,
                args: args.deep_view(),
            },
            BootError::NotSigned { file } => BootErrorView::NotSigned { file: file@ },
            BootError::NotVerified { file } => BootErrorView::NotVerified { file: file@ },
            BootError::NotStripped { file } => BootErrorView::NotStripped { file: file@ },
            BootError::CopyIntoItself { path } => BootErrorView::CopyIntoItself { path: path@ },
            BootError::Io { message } => BootErrorView::Io { message: message@ },
        }
    }
}

impl DeepView for BootError {
    type V = BootErrorView;

    open spec fn deep_view(&self) -> BootErrorView {
        self@
    }
}

impl Clone for BootError {
    fn clone(&self) -> (r: Self)
        ensures
            r@ == self@,
    {
        match self {
            BootError::InvalidUtf8 => BootError::InvalidUtf8,
            BootError::BadPattern => BootError::BadPattern,
            BootError::NoVersion => BootError::NoVersion,
            BootError::NotAStorePath => BootError::NotAStorePath,
            BootError::NotAGeneration => BootError::NotAGeneration,
            BootError::BadIndex => BootError::BadIndex,
            BootError::IncompleteSigningInfo => BootError::IncompleteSigningInfo,
            BootError::NoEsp => BootError::NoEsp,
            BootError::NoBootctl => BootError::NoBootctl,
            BootError::BadTimestamp => BootError::BadTimestamp,
            BootError::NoImageBuilder => BootError::NoImageBuilder,
            BootError::CommandFailed { program, args } => BootError::CommandFailed {
                program: program.clone(),
                args: clone_strings(args),
            },
            BootError::NotSigned { file } => BootError::NotSigned { file: file.clone() },
            BootError::NotVerified { file } => BootError::NotVerified { file: file.clone() },
            BootError::NotStripped { file } => BootError::NotStripped { file: file.clone() },
            BootError::CopyIntoItself { path } => BootError::CopyIntoItself { path: path.clone() },
            BootError::Io { message } => BootError::Io { message: message.clone() },
        }
    }
}

impl BootErrorView {
    /// The text shown to the user for this error.
    pub open spec fn message(self) -> Seq<char> {
        match self {
            BootErrorView::InvalidUtf8 => "output was not valid UTF-8"@,
            BootErrorView::BadPattern => "search pattern was rejected"@,
            BootErrorView::NoVersion => "failed to get capture groups"@,
            BootErrorView::NotAStorePath => "provided path wasn't a Nix store path"@,
            BootErrorView::NotAGeneration => "generation wasn't a system or profile generation"@,
            BootErrorView::BadIndex => "generation index was not a number"@,
            BootErrorView::IncompleteSigningInfo =>
                "--signing-key, --signing-cert, --sbsign, and --sbverify are all required when signing for SecureBoot"@,
            BootErrorView::NoEsp => "No ESP(s) specified; exiting."@,
            BootErrorView::NoBootctl => "bootctl was missing"@,
            BootErrorView::BadTimestamp => "could not convert toplevel ctime to timestamp"@,
            BootErrorView::NoImageBuilder => "the tool that builds unified images was not given"@,
            BootErrorView::CommandFailed { program, args } => "failed to run `"@ + program
                + "` with args `"@ + crate::text::join_spec(args, " "@) + "`"@,
            BootErrorView::NotSigned { file } => file + " could not be signed"@,
            BootErrorView::NotVerified { file } => file + " could not be verified"@,
            BootErrorView::NotStripped { file } => "failed to remove signature from '"@ + file + "'"@,
            BootErrorView::CopyIntoItself { path } => "cannot copy '"@ + path + "' into itself"@,
            BootErrorView::Io { message } => message,
        }
    }
}

impl BootError {
    /// The text shown to the user for this error.
    pub fn message(&self) -> (out: String)
        ensures
            out@ == self@.message(),
    {
        match self {
            BootError::InvalidUtf8 => owned("output was not valid UTF-8"),
            BootError::BadPattern => owned("search pattern was rejected"),
            BootError::NoVersion => owned("failed to get capture groups"),
            BootError::NotAStorePath => owned("provided path wasn't a Nix store path"),
            BootError::NotAGeneration => owned("generation wasn't a system or profile generation"),
            BootError::BadIndex => owned("generation index was not a number"),
            BootError::IncompleteSigningInfo => owned(
                "--signing-key, --signing-cert, --sbsign, and --sbverify are all required when signing for SecureBoot",
            ),
            BootError::NoEsp => owned("No ESP(s) specified; exiting."),
            BootError::NoBootctl => owned("bootctl was missing"),
            BootError::BadTimestamp => owned("could not convert toplevel ctime to timestamp"),
            BootError::NoImageBuilder => owned("the tool that builds unified images was not given"),
            BootError::CommandFailed { program, args } => {
                let joined = join(args, " ");
                let mut out = concat3("failed to run `", program.as_str(), "` with args `");
                out.append(joined.as_str());
                out.append("`");
                out
            },
            BootError::NotSigned { file } => concat2(file.as_str(), " could not be signed"),
            BootError::NotVerified { file } => concat2(file.as_str(), " could not be verified"),
            BootError::NotStripped { file } => concat3(
                "failed to remove signature from '",
                file.as_str(),
                "'",
            ),
            BootError::CopyIntoItself { path } => concat3("cannot copy '", path.as_str(), "' into itself"),
            BootError::Io { message } => message.clone(),
        }
    }
}

} // verus!
