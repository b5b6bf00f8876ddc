//! The PMKID of a passphrase on a network, and the test of one candidate.
//!
//! `PMKID = HMAC-SHA1-128(PMK, "PMK Name" | MAC_AP | MAC_STA)`, where the PMK
//! is the PBKDF2-HMAC-SHA1 of the passphrase salted with the network name.
//! Both primitives are computed by outside crates and appear in contracts
//! under a name each.

use vstd::prelude::*;
use crate::network::NetworkParams;

verus! {

/// PBKDF2 iteration count that WPA2 uses to derive a PMK.
pub const PMK_ITERATIONS: u32 = 4096;

/// The 32 bytes of PBKDF2-HMAC-SHA1 output for a password, a salt and an
/// iteration count.
pub uninterp spec fn pbkdf2_hmac_sha1_key(password: Seq<u8>, salt: Seq<u8>, iterations: u32) -> Seq<u8>;

/// The 20-byte HMAC-SHA1 digest of a message under a key.
pub uninterp spec fn hmac_sha1_digest(key: Seq<u8>, message: Seq<u8>) -> Seq<u8>;

/// The ASCII label `PMK Name` that starts every PMKID message.
pub open spec fn pmk_name_label() -> Seq<u8> {
    seq![0x50u8, 0x4d, 0x4b, 0x20, 0x4e, 0x61, 0x6d, 0x65]
}

/// The 20-byte message whose MIC is the PMKID: the label, then the raw
/// bytes of the access point's address, then those of the station's.
pub open spec fn pmkid_message(bssid: Seq<u8>, sta_mac: Seq<u8>) -> Seq<u8> {
    pmk_name_label() + bssid + sta_mac
}

/// The full MIC of a passphrase on a network.
pub open spec fn mic_of(essid: Seq<u8>, bssid: Seq<u8>, sta_mac: Seq<u8>, passphrase: Seq<u8>) -> Seq<u8> {
    hmac_sha1_digest(
        pbkdf2_hmac_sha1_key(passphrase, essid, PMK_ITERATIONS),
        pmkid_message(bssid, sta_mac),
    )
}

/// The PMKID of a passphrase on a network: the first 16 bytes of its MIC.
pub open spec fn pmkid_of(essid: Seq<u8>, bssid: Seq<u8>, sta_mac: Seq<u8>, passphrase: Seq<u8>) -> Seq<u8> {
    mic_of(essid, bssid, sta_mac, passphrase).take(16)
}

/// `pbkdf2_hmac_sha1` of `fastpbkdf2`, writing 32 bytes of output. The
/// outside function stops the process on an iteration count of zero.
#[verifier::external_body]
pub(crate) fn derive_key(password: &[u8], salt: &[u8], iterations: u32) -> (key: [u8; 32])
    requires
        iterations != 0,
    ensures
        key@ == pbkdf2_hmac_sha1_key(password@, salt@, iterations),
{
    let mut key = [0u8; 32];
    fastpbkdf2::pbkdf2_hmac_sha1(password, salt, iterations, &mut key);
    key
}

/// `hmac_sha1` of the `hmac-sha1` crate, which accepts keys of any length.
#[verifier::external_body]
pub(crate) fn keyed_digest(key: &[u8], message: &[u8]) -> (digest: [u8; 20])
    ensures
        digest@ == hmac_sha1_digest(key@, message@),
{
    hmac_sha1::hmac_sha1(key, message)
}

/// Builds the message `"PMK Name" | bssid | sta_mac`.
pub fn build_message(bssid: &[u8; 6], sta_mac: &[u8; 6]) -> (message: Vec<u8>)
    ensures
        message@ == pmkid_message(bssid@, sta_mac@),
        message@.len() == 20,
{
    let mut message: Vec<u8> = Vec::new();
    message.push(0x50);
    message.push(0x4d);
    message.push(0x4b);
    message.push(0x20);
    message.push(0x4e);
    message.push(0x61);
    message.push(0x6d);
    message.push(0x65);
    assert(message@ =~= pmk_name_label());
    let mut i: usize = 0;
    while i < 6
        invariant
            i <= 6,
            message@.len() == 8 + i,
            message@ == pmk_name_label() + bssid@.take(i as int),
        decreases 6 - i,
    {
        message.push(bssid[i]);
        assert(bssid@.take(i + 1) =~= bssid@.take(i as int).push(bssid@[i as int]));
        assert(message@ =~= pmk_name_label() + bssid@.take(i + 1));
        i += 1;
    }
    assert(bssid@.take(6) =~= bssid@);
    let mut j: usize = 0;
    while j < 6
        invariant
            j <= 6,
            message@.len() == 14 + j,
            message@ == pmk_name_label() + bssid@ + sta_mac@.take(j as int),
        decreases 6 - j,
    {
        message.push(sta_mac[j]);
        assert(sta_mac@.take(j + 1) =~= sta_mac@.take(j as int).push(sta_mac@[j as int]));
        assert(message@ =~= pmk_name_label() + bssid@ + sta_mac@.take(j + 1));
        j += 1;
    }
    assert(sta_mac@.take(6) =~= sta_mac@);
    message
}

/// The first 16 bytes of a MIC.
pub fn truncate_mic(mic: &[u8; 20]) -> (hash: [u8; 16])
    ensures
        hash@ == mic@.take(16),
{
    let hash = [
        mic[0], mic[1], mic[2], mic[3], mic[4], mic[5], mic[6], mic[7],
        mic[8], mic[9], mic[10], mic[11], mic[12], mic[13], mic[14], mic[15],
    ];
    assert(hash@ =~= mic@.take(16));
    hash
}

/// Compares two hashes byte by byte.
pub fn hash_eq(a: &[u8; 16], b: &[u8; 16]) -> (same: bool)
    ensures
        same == (a@ == b@),
{
    let mut i: usize = 0;
    while i < 16
        invariant
            i <= 16,
            forall|k: int| 0 <= k < i ==> a@[k] == b@[k],
        decreases 16 - i,
    {
        if a[i] != b[i] {
            return false;
        }
        i += 1;
    }
    assert(a@ =~= b@);
    true
}

/// Tells whether a MIC, truncated to 16 bytes, is the target hash.
pub fn mic_matches(mic: &[u8; 20], target: &[u8; 16]) -> (hit: bool)
    ensures
        hit == (mic@.take(16) == target@),
{
    let hash = truncate_mic(mic);
    hash_eq(&hash, target)
}

/// Computes the PMKID of `passphrase` on the network `params`.
pub fn candidate_hash(params: &NetworkParams, passphrase: &[u8]) -> (hash: [u8; 16])
    ensures
        hash@ == params.pmkid(passphrase@),
{
    let key = derive_key(passphrase, params.essid(), PMK_ITERATIONS);
    let message = build_message(params.bssid(), params.sta_mac());
    let mic = keyed_digest(key.as_slice(), message.as_slice());
    truncate_mic(&mic)
}

/// Tells whether `passphrase` yields the target hash of `params`.
pub fn is_match(params: &NetworkParams, passphrase: &[u8]) -> (hit: bool)
    ensures
        hit == params.accepts(passphrase@),
{
    let hash = candidate_hash(params, passphrase);
    hash_eq(&hash, params.target_hash())
}

} // verus!
