//! What the caller asks for.

use vstd::prelude::*;
use vstd::std_specs::convert::FromSpecImpl;
use vstd::string::*;
use crate::error::BootError;
use crate::installer::secure_boot::{SigningInfo, SigningInfoView};

verus! {

/// The Secure Boot settings of a run, or none.
#[derive(Debug, Default)]
pub struct OptionalSigningInfo(pub Option<SigningInfo>);

impl View for OptionalSigningInfo {
    type V = Option<SigningInfoView>;

    open spec fn view(&self) -> Option<SigningInfoView> {
        self.0.deep_view()
    }
}

impl DeepView for OptionalSigningInfo {
    type V = Option<SigningInfoView>;

    open spec fn deep_view(&self) -> Option<SigningInfoView> {
        self.0.deep_view()
    }
}

/// What four optional settings amount to: all four make the signing
/// information, none of them means no signing, and anything in between is
/// refused.
pub open spec fn signing_info_spec(
    signing_key: Option<Seq<char>>,
    signing_cert: Option<Seq<char>>,
    sbsign: Option<Seq<char>>,
    sbverify: Option<Seq<char>>,
) -> Result<Option<SigningInfoView>, BootError> {
    if signing_key is Some && signing_cert is Some && sbsign is Some && sbverify is Some {
        Ok(
            Some(
                SigningInfoView {
                    signing_key: signing_key->0,
                    signing_cert: signing_cert->0,
                    sbsign: sbsign->0,
                    sbverify: sbverify->0,
                },
            ),
        )
    } else if signing_key is None && signing_cert is None && sbsign is None && sbverify is None {
        Ok(None)
    } else {
        Err(BootError::IncompleteSigningInfo)
    }
}

impl OptionalSigningInfo {
    /// Puts the four Secure Boot settings together. They come all or none:
    /// a partial set is refused before anything is touched.
    pub fn from_parts(
        signing_key: Option<String>,
        signing_cert: Option<String>,
        sbsign: Option<String>,
        sbverify: Option<String>,
    ) -> (r: Result<Self, BootError>)
        ensures
            match r {
                Ok(info) => signing_info_spec(
                    signing_key.deep_view(),
                    signing_cert.deep_view(),
                    sbsign.deep_view(),
                    sbverify.deep_view(),
                ) == Ok::<Option<SigningInfoView>, BootError>(info@),
                Err(e) => signing_info_spec(
                    signing_key.deep_view(),
                    signing_cert.deep_view(),
                    sbsign.deep_view(),
                    sbverify.deep_view(),
                ) == Err::<Option<SigningInfoView>, BootError>(e),
            },
    {
        match (signing_key, signing_cert, sbsign, sbverify) {
            (None, None, None, None) => Ok(OptionalSigningInfo(None)),
            (Some(signing_key), Some(signing_cert), Some(sbsign), Some(sbverify)) => Ok(
                OptionalSigningInfo(
                    Some(SigningInfo { signing_key, signing_cert, sbsign, sbverify }),
                ),
            ),
            _ => Err(BootError::IncompleteSigningInfo),
        }
    }

    /// The settings, where signing is in use.
    pub fn get(&self) -> (r: &Option<SigningInfo>)
        ensures
            *r == self.0,
    {
        &self.0
    }
}

impl From<Option<SigningInfo>> for OptionalSigningInfo {
    fn from(value: Option<SigningInfo>) -> (r: Self) {
        Self(value)
    }
}

impl FromSpecImpl<Option<SigningInfo>> for OptionalSigningInfo {
    open spec fn obeys_from_spec() -> bool {
        true
    }

    open spec fn from_spec(value: Option<SigningInfo>) -> Self {
        OptionalSigningInfo(value)
    }
}

/// The settings of one run of the installer.
#[derive(Debug, Default)]
pub struct Args {
    /// The path to the default configuration's toplevel.
    pub toplevel: String,
    /// Whether to only print the plan.
    pub dry_run: bool,
    /// The staging tree that the generator wrote.
    pub generated_entries: String,
    /// The seconds for which the menu is shown.
    pub timeout: Option<usize>,
    /// The console mode of the menu.
    pub console_mode: String,
    /// How many generations are kept.
    pub configuration_limit: Option<usize>,
    /// Whether the kernel command line can be edited in the menu.
    pub editor: bool,
    /// How much is logged.
    pub verbosity: usize,
    /// Whether the boot manager is installed rather than updated.
    pub install: bool,
    /// The EFI System Partitions.
    pub esp: Vec<String>,
    /// Whether the firmware's variables may be written.
    pub can_touch_efi_vars: bool,
    /// The boot-manager tool.
    pub bootctl: Option<String>,
    /// Whether each generation boots from one unified image.
    pub unified_efi: bool,
    /// The Secure Boot settings.
    pub signing_info: OptionalSigningInfo,
}

/// The mathematical value of an [`Args`].
pub struct ArgsView {
    pub toplevel: Seq<char>,
    pub dry_run: bool,
    pub generated_entries: Seq<char>,
    pub timeout: Option<usize>,
    pub console_mode: Seq<char>,
    pub configuration_limit: Option<usize>,
    pub editor: bool,
    pub verbosity: usize,
    pub install: bool,
    pub esp: Seq<Seq<char>>,
    pub can_touch_efi_vars: bool,
    pub bootctl: Option<Seq<char>>,
    pub unified_efi: bool,
    pub signing_info: Option<SigningInfoView>,
}

impl View for Args {
    type V = ArgsView;

    open spec fn view(&self) -> ArgsView {
        ArgsView {
            toplevel: self.toplevel@,
            dry_run: self.dry_run,
            generated_entries: self.generated_entries@,
            timeout: self.timeout,
            console_mode: self.console_mode@,
            configuration_limit: self.configuration_limit,
            editor: self.editor,
            verbosity: self.verbosity,
            install: self.install,
            esp: self.esp.deep_view(),
            can_touch_efi_vars: self.can_touch_efi_vars,
            bootctl: self.bootctl.deep_view(),
            unified_efi: self.unified_efi,
            signing_info: self.signing_info@,
        }
    }
}

impl DeepView for Args {
    type V = ArgsView;

    open spec fn deep_view(&self) -> ArgsView {
        self@
    }
}

} // verus!
