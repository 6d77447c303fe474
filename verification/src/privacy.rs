//! Wi-Fi privacy modes as the desktop application sets them: A (channels
//! only, the default), B (hashed names) and C (names and BSSIDs shown).
use vstd::prelude::*;
use crate::text::concat;
use crate::text::str_eq;
use crate::text::str_to_uppercase;
use crate::text::to_uppercase;

verus! {

#[derive(Debug, Clone, Copy, PartialEq, Eq, Structural)]
pub enum PrivacyMode {
    A,
    B,
    C,
}

pub open spec fn mode_of(s: Seq<char>) -> PrivacyMode {
    if s == "B"@ {
        PrivacyMode::B
    } else if s == "C"@ {
        PrivacyMode::C
    } else {
        PrivacyMode::A
    }
}

pub open spec fn mode_name(m: PrivacyMode) -> Seq<char> {
    match m {
        PrivacyMode::A => "A"@,
        PrivacyMode::B => "B"@,
        PrivacyMode::C => "C"@,
    }
}

impl PrivacyMode {
    /// The mode a stored name stands for: "B" or "C", anything else mode A.
    pub fn from_str(s: &str) -> (m: PrivacyMode)
        ensures
            m == mode_of(s@),
    {
        if str_eq(s, "B") {
            PrivacyMode::B
        } else if str_eq(s, "C") {
            PrivacyMode::C
        } else {
            PrivacyMode::A
        }
    }

    /// The mode's name.
    pub fn as_str(&self) -> (s: &'static str)
        ensures
            s@ == mode_name(*self),
    {
        match self {
            PrivacyMode::A => "A",
            PrivacyMode::B => "B",
            PrivacyMode::C => "C",
        }
    }
}

/// The mode the application is in: the stored name, or mode A where none is
/// stored.
pub fn stored_privacy_mode(stored: &str) -> (m: PrivacyMode)
    ensures
        m == (if stored@.len() == 0 {
            PrivacyMode::A
        } else {
            mode_of(stored@)
        }),
{
    if stored.is_empty() {
        PrivacyMode::A
    } else {
        PrivacyMode::from_str(stored)
    }
}

/// Validates a requested mode: its uppercase form where that is "A", "B" or
/// "C", else the message that refuses it.
pub fn validate_privacy_mode(mode: &str) -> (r: Result<String, String>)
    ensures
        ({
            let u = str_to_uppercase(mode@);
            if u == "A"@ || u == "B"@ || u == "C"@ {
                r matches Ok(v) && v@ == u
            } else {
                r matches Err(m) && m@ == "Invalid mode: "@ + mode@ + " — must be A, B, or C"@
            }
        }),
{
    let u = to_uppercase(mode);
    if str_eq(u.as_str(), "A") || str_eq(u.as_str(), "B") || str_eq(u.as_str(), "C") {
        Ok(u)
    } else {
        let head = concat("Invalid mode: ", mode);
        Err(concat(head.as_str(), " — must be A, B, or C"))
    }
}

/// The reply to a mode being set.
pub fn privacy_mode_reply(validated: &str) -> (m: String)
    ensures
        m@ == "Privacy mode set to "@ + validated@,
{
    concat("Privacy mode set to ", validated)
}

} // verus!
