//! Secure Boot: the key material and the command lines of the tools that
//! sign and verify boot images.

use vstd::prelude::*;
use vstd::string::*;
use crate::error::{BootError, BootErrorView};
use crate::text::owned;

verus! {

/// The key, the certificate and the two tools. Where a run has none of
/// these, Secure Boot is not in use.
#[derive(Debug, PartialEq, PartialOrd)]
pub struct SigningInfo {
    pub signing_key: String,
    pub signing_cert: String,
    pub sbsign: String,
    pub sbverify: String,
}

/// The mathematical value of a [`SigningInfo`].
pub struct SigningInfoView {
    pub signing_key: Seq<char>,
    pub signing_cert: Seq<char>,
    pub sbsign: Seq<char>,
    pub sbverify: Seq<char>,
}

impl View for SigningInfo {
    type V = SigningInfoView;

    open spec fn view(&self) -> SigningInfoView {
        SigningInfoView {
            signing_key: self.signing_key@,
            signing_cert: self.signing_cert@,
            sbsign: self.sbsign@,
            sbverify: self.sbverify@,
        }
    }
}

impl DeepView for SigningInfo {
    type V = SigningInfoView;

    open spec fn deep_view(&self) -> SigningInfoView {
        self@
    }
}

impl Clone for SigningInfo {
    fn clone(&self) -> (r: Self)
        ensures
            r@ == self@,
    {
        SigningInfo {
            signing_key: self.signing_key.clone(),
            signing_cert: self.signing_cert.clone(),
            sbsign: self.sbsign.clone(),
            sbverify: self.sbverify.clone(),
        }
    }
}

impl SigningInfoView {
    /// The arguments with which the signing tool signs `file` in place.
    pub open spec fn sign_args(self, file: Seq<char>) -> Seq<Seq<char>> {
        seq![
            "--key"@,
            self.signing_key,
            "--cert"@,
            self.signing_cert,
            "--output"@,
            file,
            file,
        ]
    }

    /// The arguments with which the verifying tool checks `file`.
    pub open spec fn verify_args(self, file: Seq<char>) -> Seq<Seq<char>> {
        seq!["--cert"@, self.signing_cert, file]
    }
}

impl SigningInfo {
    /// The arguments for the signing tool: key and certificate, and `file`
    /// both as what is read and as what is written.
    pub fn sign_args(&self, file: &str) -> (args: Vec<String>)
        ensures
            args.deep_view() == self@.sign_args(file@),
    {
        let mut args: Vec<String> = Vec::new();
        args.push(owned("--key"));
        args.push(self.signing_key.clone());
        args.push(owned("--cert"));
        args.push(self.signing_cert.clone());
        args.push(owned("--output"));
        args.push(owned(file));
        args.push(owned(file));
        assert(args.deep_view() =~= self@.sign_args(file@));
        args
    }

    /// The arguments for the verifying tool: the certificate and `file`.
    pub fn verify_args(&self, file: &str) -> (args: Vec<String>)
        ensures
            args.deep_view() == self@.verify_args(file@),
    {
        let mut args: Vec<String> = Vec::new();
        args.push(owned("--cert"));
        args.push(self.signing_cert.clone());
        args.push(owned(file));
        assert(args.deep_view() =~= self@.verify_args(file@));
        args
    }

    /// What a run of the signing tool on `file` amounts to: any status but
    /// success is an error that names the file.
    pub fn sign_result(file: &str, success: bool) -> (r: Result<(), BootError>)
        ensures
            success ==> r is Ok,
            !success ==> r is Err && r->Err_0@ == (BootErrorView::NotSigned { file: file@ }),
    {
        if success {
            Ok(())
        } else {
            Err(BootError::NotSigned { file: owned(file) })
        }
    }

    /// What a run of the verifying tool on `file` amounts to: any status but
    /// success is an error that names the file.
    pub fn verify_result(file: &str, success: bool) -> (r: Result<(), BootError>)
        ensures
            success ==> r is Ok,
            !success ==> r is Err && r->Err_0@ == (BootErrorView::NotVerified { file: file@ }),
    {
        if success {
            Ok(())
        } else {
            Err(BootError::NotVerified { file: owned(file) })
        }
    }
}

} // verus!
