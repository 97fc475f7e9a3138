//! Why a download fails, and how that is put into words.
use vstd::prelude::*;

use crate::path::{shown, FilePath};
use crate::system::System;
use crate::text::{
    debug_list, debug_list_text, decimal, decimal_text, numeral, octal, octal_text, texts,
};

verus! {

/// The most characters that a source may have.
pub const MAX_SOURCE_CHARS: u64 = 2048;

/// The most bytes that the configuration file may have (1 MiB).
pub const MAX_CONFIG_SIZE: u64 = 1_048_576;

/// The most bytes that a CA bundle may have (10 MiB).
pub const MAX_CA_BUNDLE_SIZE: u64 = 10_485_760;

/// Why a download fails.
pub enum GetError {
    /// The source has more than [`MAX_SOURCE_CHARS`] characters.
    SourceTooLong,
    /// No configuration file was named and the home directory is unknown.
    NoHomeDirectory,
    /// The configuration file is open to the group or to others. The mode is its
    /// permission bits.
    ConfigAccessible { path: FilePath, mode: u32 },
    /// The configuration file has more than [`MAX_CONFIG_SIZE`] bytes.
    ConfigTooLarge { path: FilePath },
    /// The source names no alias.
    MissingAlias,
    /// The source names no bucket.
    MissingBucket,
    /// The source names no object.
    MissingKey,
    /// The alias is not configured.
    UnknownAlias { alias: String },
    /// The alias is not configured, told with what is.
    UnknownAliasAmong { alias: String, config: FilePath, known: Vec<String> },
    /// The object's key ends in no file name.
    NoFilename,
    /// The destination exists and may not be replaced.
    DestinationExists { path: FilePath },
    /// The directory of the destination is missing and lies behind a symbolic link.
    DirectoryBehindLink { path: FilePath, link: FilePath },
    /// The CA bundle has more than [`MAX_CA_BUNDLE_SIZE`] bytes.
    CaBundleTooLarge { path: FilePath },
    /// Work outside this crate failed, with what was being done where that is told.
    Outside { context: Option<String>, cause: String },
}

/// The model of [`GetError`].
#[verifier::ext_equal]
pub enum GetErrorView {
    SourceTooLong,
    NoHomeDirectory,
    ConfigAccessible { path: Seq<u8>, mode: u32 },
    ConfigTooLarge { path: Seq<u8> },
    MissingAlias,
    MissingBucket,
    MissingKey,
    UnknownAlias { alias: Seq<char> },
    UnknownAliasAmong { alias: Seq<char>, config: Seq<u8>, known: Seq<Seq<char>> },
    NoFilename,
    DestinationExists { path: Seq<u8> },
    DirectoryBehindLink { path: Seq<u8>, link: Seq<u8> },
    CaBundleTooLarge { path: Seq<u8> },
    Outside { context: Option<Seq<char>>, cause: Seq<char> },
}

impl View for GetError {
    type V = GetErrorView;

    open spec fn view(&self) -> GetErrorView {
        match *self {
            GetError::SourceTooLong => GetErrorView::SourceTooLong,
            GetError::NoHomeDirectory => GetErrorView::NoHomeDirectory,
            GetError::ConfigAccessible { path, mode } => GetErrorView::ConfigAccessible {
                path: path@,
                mode,
            },
            GetError::ConfigTooLarge { path } => GetErrorView::ConfigTooLarge { path: path@ },
            GetError::MissingAlias => GetErrorView::MissingAlias,
            GetError::MissingBucket => GetErrorView::MissingBucket,
            GetError::MissingKey => GetErrorView::MissingKey,
            GetError::UnknownAlias { alias } => GetErrorView::UnknownAlias { alias: alias@ },
            GetError::UnknownAliasAmong { alias, config, known } => {
                GetErrorView::UnknownAliasAmong {
                    alias: alias@,
                    config: config@,
                    known: texts(known@),
                }
            },
            GetError::NoFilename => GetErrorView::NoFilename,
            GetError::DestinationExists { path } => GetErrorView::DestinationExists { path: path@ },
            GetError::DirectoryBehindLink { path, link } => GetErrorView::DirectoryBehindLink {
                path: path@,
                link: link@,
            },
            GetError::CaBundleTooLarge { path } => GetErrorView::CaBundleTooLarge { path: path@ },
            GetError::Outside { context, cause } => GetErrorView::Outside {
                context: crate::text::opt_text(context),
                cause: cause@,
            },
        }
    }
}

/// What an error says on a system.
pub open spec fn message(error: GetErrorView, system: System) -> Seq<char> {
    match error {
        GetErrorView::SourceTooLong => "source string exceeds maximum allowed length ("@ + decimal(
            MAX_SOURCE_CHARS as nat,
        ) + " chars)"@,
        GetErrorView::NoHomeDirectory => "cannot determine home directory"@,
        GetErrorView::ConfigAccessible { path, mode } => shown(path, system)
            + " is accessible by group/others (mode "@ + octal(mode as nat)
            + "). Expected 0600. Fix with: chmod 600 "@ + shown(path, system),
        GetErrorView::ConfigTooLarge { path } => "config file "@ + shown(path, system)
            + " exceeds maximum allowed size ("@ + decimal(MAX_CONFIG_SIZE as nat) + " bytes)"@,
        GetErrorView::MissingAlias => "source must start with an alias name"@,
        GetErrorView::MissingBucket => "source must include a bucket name (alias/bucket/key)"@,
        GetErrorView::MissingKey => "source must include an object key (alias/bucket/key)"@,
        GetErrorView::UnknownAlias { alias } => "alias '"@ + alias + "' not found in config"@,
        GetErrorView::UnknownAliasAmong { alias, config, known } => "alias '"@ + alias
            + "' not found in "@ + shown(config, system) + "  (known aliases: "@ + debug_list(known)
            + ")"@,
        GetErrorView::NoFilename => "cannot derive filename from object key"@,
        GetErrorView::DestinationExists { path } => "destination "@ + shown(path, system)
            + " already exists. Use --overwrite to replace."@,
        GetErrorView::DirectoryBehindLink { path, link } => "failed to create directory "@
            + shown(path, system) + ": "@ + shown(link, system) + " is a symbolic link"@,
        GetErrorView::CaBundleTooLarge { path } => "CA bundle "@ + shown(path, system)
            + " exceeds maximum allowed size ("@ + decimal(MAX_CA_BUNDLE_SIZE as nat)
            + " bytes)"@,
        GetErrorView::Outside { context: Some(context), cause } => context + ": "@ + cause,
        GetErrorView::Outside { context: None, cause } => cause,
    }
}

impl GetError {
    /// What the error says on a system.
    pub fn message(&self, system: System) -> (text: String)
        ensures
            text@ == message(self@, system),
    {
        match self {
            GetError::SourceTooLong => "source string exceeds maximum allowed length (".to_string()
                .concat(decimal_text(MAX_SOURCE_CHARS as u128).as_str())
                .concat(" chars)"),
            GetError::NoHomeDirectory => "cannot determine home directory".to_string(),
            GetError::ConfigAccessible { path, mode } => path.show(system)
                .concat(" is accessible by group/others (mode ")
                .concat(octal_text(*mode as u128).as_str())
                .concat("). Expected 0600. Fix with: chmod 600 ")
                .concat(path.show(system).as_str()),
            GetError::ConfigTooLarge { path } => "config file ".to_string()
                .concat(path.show(system).as_str())
                .concat(" exceeds maximum allowed size (")
                .concat(decimal_text(MAX_CONFIG_SIZE as u128).as_str())
                .concat(" bytes)"),
            GetError::MissingAlias => "source must start with an alias name".to_string(),
            GetError::MissingBucket => {
                "source must include a bucket name (alias/bucket/key)".to_string()
            },
            GetError::MissingKey => {
                "source must include an object key (alias/bucket/key)".to_string()
            },
            GetError::UnknownAlias { alias } => "alias '".to_string().concat(alias.as_str())
                .concat("' not found in config"),
            GetError::UnknownAliasAmong { alias, config, known } => "alias '".to_string()
                .concat(alias.as_str())
                .concat("' not found in ")
                .concat(config.show(system).as_str())
                .concat("  (known aliases: ")
                .concat(debug_list_text(known).as_str())
                .concat(")"),
            GetError::NoFilename => "cannot derive filename from object key".to_string(),
            GetError::DestinationExists { path } => "destination ".to_string()
                .concat(path.show(system).as_str())
                .concat(" already exists. Use --overwrite to replace."),
            GetError::DirectoryBehindLink { path, link } => "failed to create directory "
                .to_string()
                .concat(path.show(system).as_str())
                .concat(": ")
                .concat(link.show(system).as_str())
                .concat(" is a symbolic link"),
            GetError::CaBundleTooLarge { path } => "CA bundle ".to_string()
                .concat(path.show(system).as_str())
                .concat(" exceeds maximum allowed size (")
                .concat(decimal_text(MAX_CA_BUNDLE_SIZE as u128).as_str())
                .concat(" bytes)"),
            GetError::Outside { context: Some(context), cause } => context.clone().concat(": ")
                .concat(cause.as_str()),
            GetError::Outside { context: None, cause } => cause.clone(),
        }
    }
}

/// Each error says what is wrong in its own words, with the limits that hold.
pub proof fn law_messages(error: GetErrorView, system: System)
    ensures
        match error {
            GetErrorView::SourceTooLong => message(error, system)
                == "source string exceeds maximum allowed length (2048 chars)"@,
            GetErrorView::NoHomeDirectory => message(error, system)
                == "cannot determine home directory"@,
            GetErrorView::ConfigAccessible { path, mode } => message(error, system) == shown(
                path,
                system,
            ) + " is accessible by group/others (mode "@ + numeral(mode as nat, 8)
                + "). Expected 0600. Fix with: chmod 600 "@ + shown(path, system),
            GetErrorView::ConfigTooLarge { path } => message(error, system) == "config file "@
                + shown(path, system) + " exceeds maximum allowed size (1048576 bytes)"@,
            GetErrorView::MissingAlias => message(error, system)
                == "source must start with an alias name"@,
            GetErrorView::MissingBucket => message(error, system)
                == "source must include a bucket name (alias/bucket/key)"@,
            GetErrorView::MissingKey => message(error, system)
                == "source must include an object key (alias/bucket/key)"@,
            GetErrorView::UnknownAlias { alias } => message(error, system) == "alias '"@ + alias
                + "' not found in config"@,
            GetErrorView::UnknownAliasAmong { alias, config, known } => message(error, system)
                == "alias '"@ + alias + "' not found in "@ + shown(config, system)
                + "  (known aliases: "@ + debug_list(known) + ")"@,
            GetErrorView::NoFilename => message(error, system)
                == "cannot derive filename from object key"@,
            GetErrorView::DestinationExists { path } => message(error, system) == "destination "@
                + shown(path, system) + " already exists. Use --overwrite to replace."@,
            GetErrorView::DirectoryBehindLink { path, link } => message(error, system)
                == "failed to create directory "@ + shown(path, system) + ": "@ + shown(
                link,
                system,
            ) + " is a symbolic link"@,
            GetErrorView::CaBundleTooLarge { path } => message(error, system) == "CA bundle "@
                + shown(path, system) + " exceeds maximum allowed size (10485760 bytes)"@,
            GetErrorView::Outside { context: Some(context), cause } => message(error, system)
                == context + ": "@ + cause,
            GetErrorView::Outside { context: None, cause } => message(error, system) == cause,
        },
{
    match error {
        GetErrorView::SourceTooLong => {
            lemma_limit_source();
        },
        GetErrorView::ConfigTooLarge { path } => {
            lemma_limit_config();
            assert(message(error, system) =~= "config file "@ + shown(path, system) + (
            " exceeds maximum allowed size ("@ + decimal(MAX_CONFIG_SIZE as nat) + " bytes)"@));
        },
        GetErrorView::CaBundleTooLarge { path } => {
            lemma_limit_bundle();
            assert(message(error, system) =~= "CA bundle "@ + shown(path, system) + (
            " exceeds maximum allowed size ("@ + decimal(MAX_CA_BUNDLE_SIZE as nat)
                + " bytes)"@));
        },
        _ => {},
    }
}

proof fn lemma_limit_source()
    ensures
        "source string exceeds maximum allowed length ("@ + decimal(MAX_SOURCE_CHARS as nat)
            + " chars)"@ == "source string exceeds maximum allowed length (2048 chars)"@,
{
    reveal_strlit("source string exceeds maximum allowed length (");
    reveal_strlit(" chars)");
    reveal_strlit("source string exceeds maximum allowed length (2048 chars)");
    reveal_with_fuel(numeral, 5);
    assert(decimal(2048) =~= seq!['2', '0', '4', '8']);
    assert("source string exceeds maximum allowed length ("@ + decimal(MAX_SOURCE_CHARS as nat)
        + " chars)"@ =~= "source string exceeds maximum allowed length (2048 chars)"@);
}

proof fn lemma_limit_config()
    ensures
        " exceeds maximum allowed size ("@ + decimal(MAX_CONFIG_SIZE as nat) + " bytes)"@
            == " exceeds maximum allowed size (1048576 bytes)"@,
{
    reveal_strlit(" exceeds maximum allowed size (");
    reveal_strlit(" bytes)");
    reveal_strlit(" exceeds maximum allowed size (1048576 bytes)");
    reveal_with_fuel(numeral, 8);
    assert(decimal(1048576) =~= seq!['1', '0', '4', '8', '5', '7', '6']);
    assert(" exceeds maximum allowed size ("@ + decimal(MAX_CONFIG_SIZE as nat) + " bytes)"@
        =~= " exceeds maximum allowed size (1048576 bytes)"@);
}

proof fn lemma_limit_bundle()
    ensures
        " exceeds maximum allowed size ("@ + decimal(MAX_CA_BUNDLE_SIZE as nat) + " bytes)"@
            == " exceeds maximum allowed size (10485760 bytes)"@,
{
    reveal_strlit(" exceeds maximum allowed size (");
    reveal_strlit(" bytes)");
    reveal_strlit(" exceeds maximum allowed size (10485760 bytes)");
    reveal_with_fuel(numeral, 9);
    assert(decimal(10485760) =~= seq!['1', '0', '4', '8', '5', '7', '6', '0']);
    assert(" exceeds maximum allowed size ("@ + decimal(MAX_CA_BUNDLE_SIZE as nat) + " bytes)"@
        =~= " exceeds maximum allowed size (10485760 bytes)"@);
}

/// The model of an error holds all that the error tells.
pub proof fn law_error_model(error: GetError)
    ensures
        match error {
            GetError::SourceTooLong => error@ is SourceTooLong,
            GetError::NoHomeDirectory => error@ is NoHomeDirectory,
            GetError::ConfigAccessible { path, mode } => error@ == (
            GetErrorView::ConfigAccessible { path: path@, mode }),
            GetError::ConfigTooLarge { path } => error@ == (GetErrorView::ConfigTooLarge {
                path: path@,
            }),
            GetError::MissingAlias => error@ is MissingAlias,
            GetError::MissingBucket => error@ is MissingBucket,
            GetError::MissingKey => error@ is MissingKey,
            GetError::UnknownAlias { alias } => error@ == (GetErrorView::UnknownAlias {
                alias: alias@,
            }),
            GetError::UnknownAliasAmong { alias, config, known } => {
                &&& error@ is UnknownAliasAmong
                &&& error@->UnknownAliasAmong_alias == alias@
                &&& error@->UnknownAliasAmong_config == config@
                &&& error@->known.len() == known.len()
                &&& forall|i: int|
                    0 <= i < known.len() ==> #[trigger] error@->known[i] == known@[i]@
            },
            GetError::NoFilename => error@ is NoFilename,
            GetError::DestinationExists { path } => error@ == (GetErrorView::DestinationExists {
                path: path@,
            }),
            GetError::DirectoryBehindLink { path, link } => error@ == (
            GetErrorView::DirectoryBehindLink { path: path@, link: link@ }),
            GetError::CaBundleTooLarge { path } => error@ == (GetErrorView::CaBundleTooLarge {
                path: path@,
            }),
            GetError::Outside { context: Some(context), cause } => error@ == (
            GetErrorView::Outside { context: Some(context@), cause: cause@ }),
            GetError::Outside { context: None, cause } => error@ == (GetErrorView::Outside {
                context: None,
                cause: cause@,
            }),
        },
{
}

} // verus!
