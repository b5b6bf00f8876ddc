//! Validation and canonical form of the captured network parameters.
//!
//! All text is read as its UTF-8 bytes. A MAC-like field is reduced to its
//! hex digits by dropping the separators `:`, `-` and `.` and lower-casing
//! ASCII letters; the target hash is the first `*`-delimited field of the
//! captured PMKID string.

use vstd::prelude::*;
use vstd::slice::slice_to_vec;
use vstd::string::StringSliceAdditionalSpecFns;
use crate::base16::{all_hex_digits, hex_decoded};
use crate::bytes::{find_byte, prefix_before};
use crate::error::{Field, FormatError};
use crate::pmkid::pmkid_of;

verus! {

/// Number of raw bytes in a hardware address.
pub const MAC_BYTES: usize = 6;

/// Number of raw bytes in a target hash.
pub const HASH_BYTES: usize = 16;

/// True for the bytes `:`, `-` and `.`.
pub open spec fn is_separator(b: u8) -> bool {
    b == 0x3a || b == 0x2d || b == 0x2e
}

/// `b` with an ASCII capital letter replaced by its small letter.
pub open spec fn ascii_lower(b: u8) -> u8 {
    if 0x41 <= b <= 0x5a {
        (b + 0x20) as u8
    } else {
        b
    }
}

/// The digits of a MAC-like field: `raw` without separators, lower-cased.
pub open spec fn canonical_digits(raw: Seq<u8>) -> Seq<u8> {
    raw.filter(|b: u8| !is_separator(b)).map_values(|b: u8| ascii_lower(b))
}

/// What a run of `2 * width` hex digits decodes to, or why it does not.
pub open spec fn decode_exact(digits: Seq<u8>, width: nat) -> Result<Seq<u8>, FormatError> {
    if digits.len() != 2 * width {
        Err(FormatError::BadLength)
    } else if !all_hex_digits(digits) {
        Err(FormatError::BadHex)
    } else {
        Ok(hex_decoded(digits))
    }
}

/// The six bytes that the text `raw` names as a hardware address.
pub open spec fn mac_of(raw: Seq<u8>) -> Result<Seq<u8>, FormatError> {
    decode_exact(canonical_digits(raw), 6)
}

/// The bytes of `raw` before its first `*` (all of `raw` if it has none).
pub open spec fn first_field(raw: Seq<u8>) -> Seq<u8> {
    prefix_before(raw, 0x2a)
}

/// The sixteen bytes that the captured PMKID string `raw` names as target.
pub open spec fn target_hash_of(raw: Seq<u8>) -> Result<Seq<u8>, FormatError> {
    decode_exact(first_field(raw), 16)
}

/// True when `r` is the executable form of the decoding result `want`.
pub open spec fn agrees<const N: usize>(
    r: Result<[u8; N], FormatError>,
    want: Result<Seq<u8>, FormatError>,
) -> bool {
    match want {
        Ok(bytes) => r is Ok && r->Ok_0@ == bytes,
        Err(e) => r == Err::<[u8; N], FormatError>(e),
    }
}

/// True when two texts differ at most in the case of ASCII letters.
pub open spec fn same_but_case(a: Seq<u8>, b: Seq<u8>) -> bool {
    &&& a.len() == b.len()
    &&& forall|i: int| 0 <= i < a.len() ==> ascii_lower(#[trigger] a[i]) == ascii_lower(b[i])
}

/// A field is accepted exactly when its digits are twelve hex digits, and
/// a captured PMKID string exactly when its first field is 32 hex digits;
/// every other length is refused with `BadLength` and every other content
/// with `BadHex`. What is accepted has six bytes, or sixteen.
pub proof fn lemma_accepted_exactly(raw: Seq<u8>)
    ensures
        mac_of(raw) is Ok <==> (canonical_digits(raw).len() == 12 && all_hex_digits(
            canonical_digits(raw),
        )),
        mac_of(raw) is Ok ==> mac_of(raw)->Ok_0.len() == 6,
        mac_of(raw) == Err::<Seq<u8>, FormatError>(FormatError::BadLength) <==> canonical_digits(
            raw,
        ).len() != 12,
        target_hash_of(raw) is Ok <==> (first_field(raw).len() == 32 && all_hex_digits(
            first_field(raw),
        )),
        target_hash_of(raw) is Ok ==> target_hash_of(raw)->Ok_0.len() == 16,
        target_hash_of(raw) == Err::<Seq<u8>, FormatError>(FormatError::BadLength) <==> first_field(
            raw,
        ).len() != 32,
{
}

/// Separators carry no information: a separator put anywhere into a field
/// changes neither its digits nor what it normalizes to.
pub proof fn lemma_separator_ignored(raw: Seq<u8>, at: int, separator: u8)
    requires
        0 <= at <= raw.len(),
        is_separator(separator),
    ensures
        canonical_digits(raw.insert(at, separator)) == canonical_digits(raw),
        mac_of(raw.insert(at, separator)) == mac_of(raw),
{
    let keep = |b: u8| !is_separator(b);
    let head = raw.take(at);
    let tail = raw.skip(at);
    let one = Seq::<u8>::empty().push(separator);
    assert(raw.insert(at, separator) =~= head + one + tail);
    assert(raw =~= head + tail);
    Seq::<u8>::empty().lemma_filter_push(separator, keep);
    Seq::filter_distributes_over_add(head, one, keep);
    Seq::filter_distributes_over_add(head + one, tail, keep);
    Seq::filter_distributes_over_add(head, tail, keep);
    assert(head.filter(keep) + one.filter(keep) =~= head.filter(keep));
}

/// The case of letters carries no information: two fields that differ
/// only in the case of ASCII letters normalize to the same value.
pub proof fn lemma_case_ignored(a: Seq<u8>, b: Seq<u8>)
    requires
        same_but_case(a, b),
    ensures
        canonical_digits(a) == canonical_digits(b),
        mac_of(a) == mac_of(b),
    decreases a.len(),
{
    let keep = |x: u8| !is_separator(x);
    let lower = |x: u8| ascii_lower(x);
    if a.len() > 0 {
        let a0 = a.drop_last();
        let b0 = b.drop_last();
        lemma_case_ignored(a0, b0);
        assert(a =~= a0.push(a.last()));
        assert(b =~= b0.push(b.last()));
        a0.lemma_filter_push(a.last(), keep);
        b0.lemma_filter_push(b.last(), keep);
        a0.filter(keep).lemma_push_map_commute(lower, a.last());
        b0.filter(keep).lemma_push_map_commute(lower, b.last());
        assert(ascii_lower(a.last()) == ascii_lower(b.last()));
        assert(is_separator(a.last()) == is_separator(b.last()));
    }
}

/// Hex digits that differ at most in case decode to the same bytes.
proof fn lemma_decode_case_ignored(a: Seq<u8>, b: Seq<u8>, width: nat)
    requires
        same_but_case(a, b),
    ensures
        decode_exact(a, width) == decode_exact(b, width),
{
    if a.len() == 2 * width {
        if all_hex_digits(a) {
            assert forall|i: int| 0 <= i < b.len() implies crate::base16::is_hex_digit(
                #[trigger] b[i],
            ) by {
                assert(ascii_lower(a[i]) == ascii_lower(b[i]));
                assert(crate::base16::is_hex_digit(a[i]));
            }
        }
        if all_hex_digits(b) {
            assert forall|i: int| 0 <= i < a.len() implies crate::base16::is_hex_digit(
                #[trigger] a[i],
            ) by {
                assert(ascii_lower(a[i]) == ascii_lower(b[i]));
                assert(crate::base16::is_hex_digit(b[i]));
            }
        }
        if all_hex_digits(a) && all_hex_digits(b) {
            assert forall|i: int| 0 <= i < hex_decoded(a).len() implies hex_decoded(a)[i]
                == hex_decoded(b)[i] by {
                assert(ascii_lower(a[2 * i]) == ascii_lower(b[2 * i]));
                assert(ascii_lower(a[2 * i + 1]) == ascii_lower(b[2 * i + 1]));
                assert(crate::base16::is_hex_digit(a[2 * i]));
                assert(crate::base16::is_hex_digit(b[2 * i]));
                assert(crate::base16::is_hex_digit(a[2 * i + 1]));
                assert(crate::base16::is_hex_digit(b[2 * i + 1]));
            }
            assert(hex_decoded(a) =~= hex_decoded(b));
        }
    }
}

/// The first fields of two texts that differ at most in case differ at
/// most in case.
proof fn lemma_first_field_case(a: Seq<u8>, b: Seq<u8>)
    requires
        same_but_case(a, b),
    ensures
        same_but_case(first_field(a), first_field(b)),
    decreases a.len(),
{
    if a.len() > 0 {
        assert(ascii_lower(a[0]) == ascii_lower(b[0]));
        if a[0] != 0x2a {
            let a1 = a.drop_first();
            let b1 = b.drop_first();
            assert forall|i: int| 0 <= i < a1.len() implies ascii_lower(#[trigger] a1[i])
                == ascii_lower(b1[i]) by {
                assert(a1[i] == a[i + 1]);
                assert(b1[i] == b[i + 1]);
            }
            lemma_first_field_case(a1, b1);
            let fa = first_field(a);
            let fb = first_field(b);
            assert(fa =~= seq![a[0]] + first_field(a1));
            assert(fb =~= seq![b[0]] + first_field(b1));
            assert forall|i: int| 0 <= i < fa.len() implies ascii_lower(#[trigger] fa[i])
                == ascii_lower(fb[i]) by {
                if i > 0 {
                    assert(fa[i] == first_field(a1)[i - 1]);
                    assert(fb[i] == first_field(b1)[i - 1]);
                }
            }
        }
    }
}

/// The case of the hex digits of a target hash carries no information:
/// two captured PMKID strings that differ at most in the case of ASCII
/// letters name the same target hash.
pub proof fn lemma_target_case_ignored(a: Seq<u8>, b: Seq<u8>)
    requires
        same_but_case(a, b),
    ensures
        target_hash_of(a) == target_hash_of(b),
{
    lemma_first_field_case(a, b);
    lemma_decode_case_ignored(first_field(a), first_field(b), 16);
}

/// Drops the separators of a MAC-like field and lower-cases what is left.
fn canonicalize(raw: &[u8]) -> (digits: Vec<u8>)
    ensures
        digits@ == canonical_digits(raw@),
{
    let mut digits: Vec<u8> = Vec::new();
    let mut i: usize = 0;
    while i < raw.len()
        invariant
            i <= raw.len(),
            digits@ == canonical_digits(raw@.take(i as int)),
        decreases raw.len() - i,
    {
        let b = raw[i];
        proof {
            let keep = |b: u8| !is_separator(b);
            let lower = |b: u8| ascii_lower(b);
            let before = raw@.take(i as int);
            assert(raw@.take(i + 1) =~= before.push(b));
            before.lemma_filter_push(b, keep);
            before.filter(keep).lemma_push_map_commute(lower, b);
        }
        if !(b == 0x3a || b == 0x2d || b == 0x2e) {
            let low = if 0x41 <= b && b <= 0x5a {
                b + 0x20
            } else {
                b
            };
            digits.push(low);
        }
        i += 1;
    }
    proof {
        assert(raw@.take(raw.len() as int) =~= raw@);
    }
    digits
}

/// Six bytes as an array.
fn mac_array(v: &[u8]) -> (out: [u8; 6])
    requires
        v@.len() == 6,
    ensures
        out@ == v@,
{
    let out = [v[0], v[1], v[2], v[3], v[4], v[5]];
    assert(out@ =~= v@);
    out
}

/// Sixteen bytes as an array.
fn hash_array(v: &[u8]) -> (out: [u8; 16])
    requires
        v@.len() == 16,
    ensures
        out@ == v@,
{
    let out = [
        v[0], v[1], v[2], v[3], v[4], v[5], v[6], v[7],
        v[8], v[9], v[10], v[11], v[12], v[13], v[14], v[15],
    ];
    assert(out@ =~= v@);
    out
}

/// Decodes `digits` where they are exactly the hex text of six bytes.
fn decode_mac(digits: &[u8]) -> (r: Result<[u8; 6], FormatError>)
    ensures
        agrees(r, decode_exact(digits@, 6)),
{
    if digits.len() != 2 * MAC_BYTES {
        return Err(FormatError::BadLength);
    }
    match crate::base16::decode(digits) {
        Err(_) => Err(FormatError::BadHex),
        Ok(v) => Ok(mac_array(v.as_slice())),
    }
}

/// Decodes `digits` where they are exactly the hex text of sixteen bytes.
fn decode_hash(digits: &[u8]) -> (r: Result<[u8; 16], FormatError>)
    ensures
        agrees(r, decode_exact(digits@, 16)),
{
    if digits.len() != 2 * HASH_BYTES {
        return Err(FormatError::BadLength);
    }
    match crate::base16::decode(digits) {
        Err(_) => Err(FormatError::BadHex),
        Ok(v) => Ok(hash_array(v.as_slice())),
    }
}

/// Canonicalizes a MAC-like field and decodes it to six raw bytes.
///
/// Separators are dropped and letters lower-cased first. The result is
/// `BadLength` unless exactly twelve bytes remain, `BadHex` if one of the
/// twelve is no hex digit, and the decoded bytes otherwise.
pub fn normalize_mac(raw: &str) -> (r: Result<[u8; 6], FormatError>)
    ensures
        agrees(r, mac_of(raw.spec_bytes())),
{
    let digits = canonicalize(raw.as_bytes());
    decode_mac(digits.as_slice())
}

/// Takes the first `*`-delimited field of a captured PMKID string and
/// decodes it to the sixteen raw bytes of the target hash.
///
/// The result is `BadLength` unless the field has exactly 32 bytes, `BadHex`
/// if one of them is no hex digit of either case, and the decoded bytes
/// otherwise.
pub fn parse_target_hash(raw: &str) -> (r: Result<[u8; 16], FormatError>)
    ensures
        agrees(r, target_hash_of(raw.spec_bytes())),
{
    let bytes = raw.as_bytes();
    let n = find_byte(bytes, 0x2a);
    let (field, _) = bytes.split_at(n);
    assert(field@ =~= bytes@.take(n as int));
    decode_hash(field)
}

/// The validated parameters of one captured handshake fragment.
#[derive(Debug)]
pub struct NetworkParams {
    essid: Vec<u8>,
    bssid: [u8; 6],
    sta_mac: [u8; 6],
    target_hash: [u8; 16],
}

/// What a `NetworkParams` holds, as plain byte sequences.
pub struct NetworkParamsView {
    /// The network name, used verbatim as the salt.
    pub essid: Seq<u8>,
    /// The six bytes of the access point's address.
    pub bssid: Seq<u8>,
    /// The six bytes of the station's address.
    pub sta_mac: Seq<u8>,
    /// The sixteen bytes of the captured PMKID.
    pub target_hash: Seq<u8>,
}

/// What the four raw texts of a capture stand for. The fields are checked
/// in the order ESSID, BSSID, station address, PMKID, and the first one
/// that fails gives the error; an empty ESSID counts as `BadLength`.
pub open spec fn params_of(
    essid: Seq<u8>,
    bssid: Seq<u8>,
    sta_mac: Seq<u8>,
    pmkid: Seq<u8>,
) -> Result<NetworkParamsView, FormatError> {
    if essid.len() == 0 {
        Err(FormatError::BadLength)
    } else if mac_of(bssid) is Err {
        Err(mac_of(bssid)->Err_0)
    } else if mac_of(sta_mac) is Err {
        Err(mac_of(sta_mac)->Err_0)
    } else if target_hash_of(pmkid) is Err {
        Err(target_hash_of(pmkid)->Err_0)
    } else {
        Ok(
            NetworkParamsView {
                essid,
                bssid: mac_of(bssid)->Ok_0,
                sta_mac: mac_of(sta_mac)->Ok_0,
                target_hash: target_hash_of(pmkid)->Ok_0,
            },
        )
    }
}

/// The first of the four raw texts of a capture that does not validate, in
/// the order ESSID, BSSID, station address, PMKID.
pub open spec fn rejected_field_of(
    essid: Seq<u8>,
    bssid: Seq<u8>,
    sta_mac: Seq<u8>,
    pmkid: Seq<u8>,
) -> Option<Field> {
    if essid.len() == 0 {
        Some(Field::Essid)
    } else if mac_of(bssid) is Err {
        Some(Field::Bssid)
    } else if mac_of(sta_mac) is Err {
        Some(Field::StaMac)
    } else if target_hash_of(pmkid) is Err {
        Some(Field::Pmkid)
    } else {
        None
    }
}

/// Names the first of the four raw texts of a capture that does not
/// validate, so that it can be pointed out for correction. There is none
/// exactly when the four texts make valid parameters.
pub fn rejected_field(essid: &str, bssid: &str, sta_mac: &str, pmkid: &str) -> (field: Option<Field>)
    ensures
        field == rejected_field_of(
            essid.spec_bytes(),
            bssid.spec_bytes(),
            sta_mac.spec_bytes(),
            pmkid.spec_bytes(),
        ),
        field is None <==> params_of(
            essid.spec_bytes(),
            bssid.spec_bytes(),
            sta_mac.spec_bytes(),
            pmkid.spec_bytes(),
        ) is Ok,
{
    if essid.as_bytes().len() == 0 {
        Some(Field::Essid)
    } else if normalize_mac(bssid).is_err() {
        Some(Field::Bssid)
    } else if normalize_mac(sta_mac).is_err() {
        Some(Field::StaMac)
    } else if parse_target_hash(pmkid).is_err() {
        Some(Field::Pmkid)
    } else {
        None
    }
}

impl View for NetworkParams {
    type V = NetworkParamsView;

    closed spec fn view(&self) -> NetworkParamsView {
        NetworkParamsView {
            essid: self.essid@,
            bssid: self.bssid@,
            sta_mac: self.sta_mac@,
            target_hash: self.target_hash@,
        }
    }
}

impl NetworkParams {
    #[verifier::type_invariant]
    spec fn non_empty_essid(&self) -> bool {
        self.essid@.len() > 0
    }

    /// The PMKID that `passphrase` has on this network.
    pub open spec fn pmkid(&self, passphrase: Seq<u8>) -> Seq<u8> {
        pmkid_of(self@.essid, self@.bssid, self@.sta_mac, passphrase)
    }

    /// True when `passphrase` has the captured PMKID on this network.
    pub open spec fn accepts(&self, passphrase: Seq<u8>) -> bool {
        self.pmkid(passphrase) == self@.target_hash
    }

    /// Puts already decoded parameters together. An empty ESSID is refused
    /// with `BadLength`; the ESSID is otherwise kept byte for byte.
    pub fn new(essid: &[u8], bssid: [u8; 6], sta_mac: [u8; 6], target_hash: [u8; 16]) -> (r: Result<
        NetworkParams,
        FormatError,
    >)
        ensures
            essid@.len() == 0 ==> r == Err::<NetworkParams, FormatError>(FormatError::BadLength),
            essid@.len() > 0 ==> r is Ok && r->Ok_0@ == (NetworkParamsView {
                essid: essid@,
                bssid: bssid@,
                sta_mac: sta_mac@,
                target_hash: target_hash@,
            }),
    {
        if essid.len() == 0 {
            return Err(FormatError::BadLength);
        }
        Ok(NetworkParams { essid: slice_to_vec(essid), bssid, sta_mac, target_hash })
    }

    /// Validates the four raw texts of a capture: the ESSID is kept as it
    /// is, the two addresses are normalized and the target hash is taken
    /// from the PMKID string.
    pub fn parse(essid: &str, bssid: &str, sta_mac: &str, pmkid: &str) -> (r: Result<
        NetworkParams,
        FormatError,
    >)
        ensures
            match params_of(
                essid.spec_bytes(),
                bssid.spec_bytes(),
                sta_mac.spec_bytes(),
                pmkid.spec_bytes(),
            ) {
                Ok(v) => r is Ok && r->Ok_0@ == v,
                Err(e) => r == Err::<NetworkParams, FormatError>(e),
            },
    {
        let name = essid.as_bytes();
        if name.len() == 0 {
            return Err(FormatError::BadLength);
        }
        let ap = match normalize_mac(bssid) {
            Ok(ap) => ap,
            Err(e) => { return Err(e); },
        };
        let sta = match normalize_mac(sta_mac) {
            Ok(sta) => sta,
            Err(e) => { return Err(e); },
        };
        let target = match parse_target_hash(pmkid) {
            Ok(target) => target,
            Err(e) => { return Err(e); },
        };
        NetworkParams::new(name, ap, sta, target)
    }

    /// The network name.
    pub fn essid(&self) -> (essid: &[u8])
        ensures
            essid@ == self@.essid,
            essid@.len() > 0,
    {
        proof {
            use_type_invariant(self);
        }
        self.essid.as_slice()
    }

    /// The access point's address.
    pub fn bssid(&self) -> (bssid: &[u8; 6])
        ensures
            bssid@ == self@.bssid,
    {
        &self.bssid
    }

    /// The station's address.
    pub fn sta_mac(&self) -> (sta_mac: &[u8; 6])
        ensures
            sta_mac@ == self@.sta_mac,
    {
        &self.sta_mac
    }

    /// The captured PMKID.
    pub fn target_hash(&self) -> (target_hash: &[u8; 16])
        ensures
            target_hash@ == self@.target_hash,
    {
        &self.target_hash
    }
}

} // verus!
