//! Wi-Fi security types and how scan-result capability flags map onto them.

use crate::text::{contains_seq, contains_str};
use vstd::prelude::*;

verus! {

/// The security types mitos-network can join or configure.
#[derive(Debug, Clone, Copy, PartialEq, Eq, Structural)]
pub enum SecurityType {
    Open,
    Wep,
    WpaPsk,
    Wpa2Psk,
    Wpa3Sae,
    WpaEnterprise,
    Wpa3Enterprise,
}

/// wpa_supplicant's `key_mgmt` value for each security type.
pub open spec fn key_mgmt_spec(s: SecurityType) -> Seq<char> {
    match s {
        SecurityType::Open | SecurityType::Wep => "NONE"@,
        SecurityType::WpaPsk | SecurityType::Wpa2Psk => "WPA-PSK"@,
        SecurityType::Wpa3Sae => "SAE"@,
        SecurityType::WpaEnterprise => "WPA-EAP"@,
        SecurityType::Wpa3Enterprise => "WPA-EAP-SUITE-B-192"@,
    }
}

/// The strongest security type a capability-flags string offers.
pub open spec fn from_flags_spec(flags: Seq<char>) -> SecurityType {
    if contains_seq(flags, "SAE"@) {
        if contains_seq(flags, "EAP"@) {
            SecurityType::Wpa3Enterprise
        } else {
            SecurityType::Wpa3Sae
        }
    } else if contains_seq(flags, "EAP"@) {
        SecurityType::WpaEnterprise
    } else if contains_seq(flags, "WPA2"@) || contains_seq(flags, "RSN"@) {
        SecurityType::Wpa2Psk
    } else if contains_seq(flags, "WPA"@) {
        SecurityType::WpaPsk
    } else if contains_seq(flags, "WEP"@) {
        SecurityType::Wep
    } else {
        SecurityType::Open
    }
}

impl SecurityType {
    /// The wpa_supplicant `key_mgmt` value for `SET_NETWORK <id> key_mgmt ...`.
    pub fn key_mgmt(self) -> (r: &'static str)
        ensures
            r@ == key_mgmt_spec(self),
    {
        match self {
            SecurityType::Open | SecurityType::Wep => "NONE",
            SecurityType::WpaPsk | SecurityType::Wpa2Psk => "WPA-PSK",
            SecurityType::Wpa3Sae => "SAE",
            SecurityType::WpaEnterprise => "WPA-EAP",
            SecurityType::Wpa3Enterprise => "WPA-EAP-SUITE-B-192",
        }
    }

    /// Every type except an open network needs a passphrase (or, for
    /// Enterprise, credentials).
    pub fn needs_passphrase(self) -> (r: bool)
        ensures
            r == (self != SecurityType::Open),
    {
        !matches!(self, SecurityType::Open)
    }

    pub fn is_enterprise(self) -> (r: bool)
        ensures
            r == (self == SecurityType::WpaEnterprise || self == SecurityType::Wpa3Enterprise),
    {
        matches!(self, SecurityType::WpaEnterprise | SecurityType::Wpa3Enterprise)
    }

    /// Classifies a scan result's capability flags string, e.g.
    /// `"[WPA2-PSK-CCMP][ESS]"` or `"[WPA2-EAP-CCMP][WPA3-SAE-CCMP][ESS]"`
    /// (a transition-mode AP) -- picks the strongest option offered.
    pub fn from_flags(flags: &str) -> (r: SecurityType)
        ensures
            r == from_flags_spec(flags@),
    {
        if contains_str(flags, "SAE") {
            if contains_str(flags, "EAP") {
                SecurityType::Wpa3Enterprise
            } else {
                SecurityType::Wpa3Sae
            }
        } else if contains_str(flags, "EAP") {
            SecurityType::WpaEnterprise
        } else if contains_str(flags, "WPA2") || contains_str(flags, "RSN") {
            SecurityType::Wpa2Psk
        } else if contains_str(flags, "WPA") {
            SecurityType::WpaPsk
        } else if contains_str(flags, "WEP") {
            SecurityType::Wep
        } else {
            SecurityType::Open
        }
    }
}

/// How strong a security type is, in the order `from_flags` prefers them.
pub open spec fn strength(s: SecurityType) -> int {
    match s {
        SecurityType::Open => 0,
        SecurityType::Wep => 1,
        SecurityType::WpaPsk => 2,
        SecurityType::Wpa2Psk => 3,
        SecurityType::WpaEnterprise => 4,
        SecurityType::Wpa3Sae => 5,
        SecurityType::Wpa3Enterprise => 6,
    }
}

proof fn lemma_contains_extend(f: Seq<char>, g: Seq<char>, x: Seq<char>)
    ensures
        contains_seq(f, x) ==> contains_seq(f + g, x) && contains_seq(g + f, x),
{
    if contains_seq(f, x) {
        let i = choose|i: int| crate::text::occurs_at(f, x, i);
        assert((f + g).subrange(i, i + x.len()) =~= f.subrange(i, i + x.len()));
        assert(crate::text::occurs_at(f + g, x, i));
        assert((g + f).subrange(g.len() + i, g.len() + i + x.len()) =~= f.subrange(i, i + x.len()));
        assert(crate::text::occurs_at(g + f, x, g.len() + i));
    }
}

/// Offering more never makes a network weaker: the class of a flags
/// string with more flags added before or after is at least as strong.
/// (`"[WPA-PSK-CCMP][WPA2-PSK-CCMP][ESS]"` is WPA2, like
/// `"[WPA2-PSK-CCMP][ESS]"`.)
pub proof fn lemma_more_flags_never_weaker(f: Seq<char>, g: Seq<char>)
    ensures
        strength(from_flags_spec(f)) <= strength(from_flags_spec(f + g)),
        strength(from_flags_spec(f)) <= strength(from_flags_spec(g + f)),
{
    lemma_contains_extend(f, g, "SAE"@);
    lemma_contains_extend(f, g, "EAP"@);
    lemma_contains_extend(f, g, "WPA2"@);
    lemma_contains_extend(f, g, "RSN"@);
    lemma_contains_extend(f, g, "WPA"@);
    lemma_contains_extend(f, g, "WEP"@);
}

/// Without SAE or EAP, a network offering WPA2 (or RSN) is WPA2-PSK,
/// whatever older options it offers besides.
pub proof fn lemma_wpa2_wins_over_wpa(flags: Seq<char>)
    requires
        !contains_seq(flags, "SAE"@),
        !contains_seq(flags, "EAP"@),
        contains_seq(flags, "WPA2"@) || contains_seq(flags, "RSN"@),
    ensures
        from_flags_spec(flags) == SecurityType::Wpa2Psk,
{
}

/// Only the advertised options matter, and each class is reached: SAE with
/// EAP is WPA3-Enterprise, SAE alone WPA3-SAE, EAP alone WPA-Enterprise;
/// plain WPA without WPA2 or RSN is WPA-PSK; WEP alone is WEP; no
/// option at all is open.
pub proof fn lemma_flag_classes(flags: Seq<char>)
    ensures
        contains_seq(flags, "SAE"@) ==> (from_flags_spec(flags) == SecurityType::Wpa3Enterprise
            <==> contains_seq(flags, "EAP"@)),
        contains_seq(flags, "SAE"@) ==> strength(from_flags_spec(flags)) >= 5,
        !contains_seq(flags, "SAE"@) && contains_seq(flags, "EAP"@) ==> from_flags_spec(flags)
            == SecurityType::WpaEnterprise,
        !contains_seq(flags, "SAE"@) && !contains_seq(flags, "EAP"@) && !contains_seq(flags, "WPA2"@)
            && !contains_seq(flags, "RSN"@) && contains_seq(flags, "WPA"@) ==> from_flags_spec(flags)
            == SecurityType::WpaPsk,
        !contains_seq(flags, "SAE"@) && !contains_seq(flags, "EAP"@) && !contains_seq(flags, "WPA"@)
            && !contains_seq(flags, "RSN"@) ==> (from_flags_spec(flags) == SecurityType::Wep
            <==> contains_seq(flags, "WEP"@)),
{
    lemma_wpa2_implies_wpa(flags);
}

proof fn lemma_wpa2_implies_wpa(flags: Seq<char>)
    ensures
        contains_seq(flags, "WPA2"@) ==> contains_seq(flags, "WPA"@),
{
    reveal_strlit("WPA2");
    reveal_strlit("WPA");
    if contains_seq(flags, "WPA2"@) {
        let i = choose|i: int| crate::text::occurs_at(flags, "WPA2"@, i);
        assert(flags.subrange(i, i + 3) =~= flags.subrange(i, i + 4).subrange(0, 3));
        assert("WPA2"@.subrange(0, 3) =~= "WPA"@);
        assert(flags.subrange(i, i + 3) =~= "WPA"@);
        assert(crate::text::occurs_at(flags, "WPA"@, i));
    }
}

} // verus!
