//! Station-mode WiFi credentials and the 802.11 / WPA length rules that
//! decide whether they can be joined: an SSID is 1–32 octets, a WPA
//! passphrase is 8–63 octets, and an empty password selects an open network.
use vstd::prelude::*;

verus! {

/// Maximum length of an SSID, in octets (802.11). An SSID must be non-empty.
pub const SSID_MAX_LEN: usize = 32;

/// Minimum length of a WPA/WPA2/WPA3 passphrase, in octets.
pub const PSK_MIN_LEN: usize = 8;

/// Maximum length of a WPA/WPA2/WPA3 passphrase, in octets.
pub const PSK_MAX_LEN: usize = 63;

/// The kind of network a valid set of [`Credentials`] describes.
#[derive(Clone, Copy, PartialEq, Eq, Debug, Structural)]
pub enum Security {
    /// No password: an open, unencrypted network.
    Open,
    /// A WPA/WPA2/WPA3 network protected by the passphrase.
    Protected,
}

/// Why a set of [`Credentials`] is not join-able; carries the offending
/// length, in octets, where one applies.
#[derive(Clone, Copy, PartialEq, Eq, Debug, Structural)]
pub enum CredentialError {
    /// The SSID was empty.
    SsidEmpty,
    /// The SSID was longer than [`SSID_MAX_LEN`] octets.
    SsidTooLong {
        /// The offending SSID length, in octets.
        len: usize,
    },
    /// A non-empty password was shorter than [`PSK_MIN_LEN`] octets.
    PasswordTooShort {
        /// The offending password length, in octets.
        len: usize,
    },
    /// The password was longer than [`PSK_MAX_LEN`] octets.
    PasswordTooLong {
        /// The offending password length, in octets.
        len: usize,
    },
}

impl CredentialError {
    /// The text that [`CredentialError::message`] gives for this error.
    pub open spec fn spec_message(self) -> Seq<char> {
        match self {
            CredentialError::SsidEmpty => "SSID is empty (set EZAL_WIFI_SSID in .env)"@,
            CredentialError::SsidTooLong { .. } => "SSID is longer than 32 octets"@,
            CredentialError::PasswordTooShort { .. } =>
                "WPA passphrase is shorter than 8 octets (use 8-63, or leave blank for open)"@,
            CredentialError::PasswordTooLong { .. } => "WPA passphrase is longer than 63 octets"@,
        }
    }

    /// A short, static, human-readable description of the error.
    pub fn message(self) -> (m: &'static str)
        ensures
            m@ == self.spec_message(),
            m@.len() > 0,
    {
        match self {
            CredentialError::SsidEmpty => {
                proof {
                    reveal_strlit("SSID is empty (set EZAL_WIFI_SSID in .env)");
                }
                "SSID is empty (set EZAL_WIFI_SSID in .env)"
            },
            CredentialError::SsidTooLong { .. } => {
                proof {
                    reveal_strlit("SSID is longer than 32 octets");
                }
                "SSID is longer than 32 octets"
            },
            CredentialError::PasswordTooShort { .. } => {
                proof {
                    reveal_strlit(
                        "WPA passphrase is shorter than 8 octets (use 8-63, or leave blank for open)",
                    );
                }
                "WPA passphrase is shorter than 8 octets (use 8-63, or leave blank for open)"
            },
            CredentialError::PasswordTooLong { .. } => {
                proof {
                    reveal_strlit("WPA passphrase is longer than 63 octets");
                }
                "WPA passphrase is longer than 63 octets"
            },
        }
    }
}

/// The outcome of checking an SSID of `ssid_len` octets and a password of
/// `pw_len` octets against the length rules, the SSID first.
pub open spec fn credential_rules(ssid_len: usize, pw_len: usize) -> Result<
    Security,
    CredentialError,
> {
    if ssid_len == 0 {
        Err(CredentialError::SsidEmpty)
    } else if ssid_len > SSID_MAX_LEN {
        Err(CredentialError::SsidTooLong { len: ssid_len })
    } else if pw_len == 0 {
        Ok(Security::Open)
    } else if pw_len < PSK_MIN_LEN {
        Err(CredentialError::PasswordTooShort { len: pw_len })
    } else if pw_len > PSK_MAX_LEN {
        Err(CredentialError::PasswordTooLong { len: pw_len })
    } else {
        Ok(Security::Protected)
    }
}

/// Station-mode WiFi credentials: an access point's SSID and its passphrase
/// (`""` for an open network).
#[derive(Clone, Copy, PartialEq, Eq, Debug)]
pub struct Credentials<'a> {
    /// The network name (1–[`SSID_MAX_LEN`] octets).
    pub ssid: &'a str,
    /// The passphrase (8–[`PSK_MAX_LEN`] octets), or `""` for an open network.
    pub password: &'a str,
}

impl Credentials<'_> {
    /// Check the credentials against the 802.11 / WPA length rules, lengths
    /// measured in UTF-8 octets. Returns the [`Security`] to join with, or the
    /// first rule that fails.
    pub fn validate(&self) -> (r: Result<Security, CredentialError>)
        ensures
            r == credential_rules(self.ssid.len(), self.password.len()),
            r is Ok <==> (1 <= self.ssid.len() <= SSID_MAX_LEN && (self.password.len() == 0 || (
            PSK_MIN_LEN <= self.password.len() <= PSK_MAX_LEN))),
            r == Ok::<Security, CredentialError>(Security::Open) <==> (1 <= self.ssid.len() <= SSID_MAX_LEN
                && self.password.len() == 0),
    {
        let ssid_len = self.ssid.len();
        if ssid_len == 0 {
            return Err(CredentialError::SsidEmpty);
        }
        if ssid_len > SSID_MAX_LEN {
            return Err(CredentialError::SsidTooLong { len: ssid_len });
        }
        let pw_len = self.password.len();
        if pw_len == 0 {
            return Ok(Security::Open);
        }
        if pw_len < PSK_MIN_LEN {
            return Err(CredentialError::PasswordTooShort { len: pw_len });
        }
        if pw_len > PSK_MAX_LEN {
            return Err(CredentialError::PasswordTooLong { len: pw_len });
        }
        Ok(Security::Protected)
    }
}

} // verus!
