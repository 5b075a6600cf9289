//! Human-readable account addresses: 32 address bytes rendered as a bech32
//! string under the rollup's "sov" prefix, and parsed back.

use vstd::prelude::*;

verus! {

/// What bech32-encoding `data` under the human-readable part `hrp` yields,
/// if the part is acceptable.
pub uninterp spec fn bech32_encoding(hrp: Seq<char>, data: Seq<u8>) -> Option<Seq<char>>;

/// What bech32-decoding a string yields: the lowercased human-readable part
/// and the data bytes, if the string is well-formed with a valid checksum.
pub uninterp spec fn bech32_decoding(s: Seq<char>) -> Option<(Seq<char>, Seq<u8>)>;

#[verifier::external_type_specification]
#[verifier::external_body]
pub struct ExBech32Error(bech32::Error);

/// An acceptable human-readable part: 1 to 83 characters, all in the ASCII
/// range 33..=126, none of them uppercase.
pub open spec fn hrp_acceptable(hrp: Seq<char>) -> bool {
    &&& 1 <= hrp.len() <= 83
    &&& forall|i: int| 0 <= i < hrp.len() ==> 33 <= (#[trigger] hrp[i]) as int <= 126 && !('A'
        <= hrp[i] <= 'Z')
}

/// Relies on bech32::encode over the base-32 expansion of `vec`: the result
/// is a function of the inputs alone, and encoding fails exactly when the
/// human-readable part is refused (empty, over 83 bytes, a character outside
/// ASCII 33..=126, or mixed case — so an acceptable part always encodes).
/// For an acceptable part the output parses back: decoding splits at the
/// separator, returns the lowercased part — already lowercase here — checks
/// the checksum the encoder just computed, and the base-32 contraction undoes
/// the expansion, yielding the bytes.
#[verifier::external_body]
pub fn vec_to_bech32(vec: &Vec<u8>, hrp: &str) -> (r: Result<String, bech32::Error>)
    ensures
        r matches Ok(s) ==> bech32_encoding(hrp@, vec@) == Some(s@),
        r is Err <==> bech32_encoding(hrp@, vec@) is None,
        hrp_acceptable(hrp@) ==> r is Ok,
        hrp_acceptable(hrp@) ==> (r matches Ok(s) ==> bech32_decoding(s@) == Some((hrp@, vec@))),
{
    let data = bech32::ToBase32::to_base32(&vec.as_slice());
    bech32::encode(hrp, data, bech32::Variant::Bech32)
}

/// Relies on bech32::decode, and on the base-32 contraction of the data back
/// into bytes: the result is a function of the input string alone.
#[verifier::external_body]
pub fn bech32_to_vec(bech32_addr: &str) -> (r: Result<(String, Vec<u8>), bech32::Error>)
    ensures
        r matches Ok(p) ==> bech32_decoding(bech32_addr@) == Some((p.0@, p.1@)),
        r is Err <==> bech32_decoding(bech32_addr@) is None,
{
    let (hrp, data, _variant) = bech32::decode(bech32_addr)?;
    let vec: Vec<u8> = bech32::FromBase32::from_base32(&data)?;
    Ok((hrp, vec))
}

/// The rollup's human-readable address prefix.
pub open spec fn address_hrp() -> Seq<char> {
    seq!['s', 'o', 'v']
}

/// Why a string was rejected as an address.
#[derive(Debug)]
pub enum Bech32ParseError {
    /// The underlying bech32 coding failed.
    Bech32(bech32::Error),
    /// The string carries a human-readable part other than the rollup's.
    WrongHPR(String),
    /// An address must be exactly 32 bytes.
    InvalidLength,
}

/// A bech32-rendered account address.
#[derive(Clone, Debug, PartialEq, Eq)]
pub struct AddressBech32 {
    value: String,
}

impl View for AddressBech32 {
    type V = Seq<char>;

    closed spec fn view(&self) -> Seq<char> {
        self.value@
    }
}

impl AddressBech32 {
    /// Renders 32 address bytes under the "sov" prefix. Rejects any other
    /// length.
    pub fn try_from_slice(addr: &Vec<u8>) -> (r: Result<AddressBech32, Bech32ParseError>)
        ensures
            addr@.len() == 32 ==> (r matches Ok(a) && bech32_encoding(address_hrp(), addr@)
                == Some(a@) && bech32_decoding(a@) == Some((address_hrp(), addr@))),
            addr@.len() != 32 ==> (r matches Err(e) && e is InvalidLength),
    {
        if addr.len() != 32 {
            return Err(Bech32ParseError::InvalidLength);
        }
        proof {
            reveal_strlit("sov");
            assert("sov"@ =~= address_hrp());
        }
        match vec_to_bech32(addr, "sov") {
            Ok(value) => Ok(AddressBech32 { value }),
            Err(e) => Err(Bech32ParseError::Bech32(e)),
        }
    }

    /// Parses a bech32 string and accepts it when it carries the rollup's
    /// human-readable part.
    pub fn from_str(s: &str) -> (r: Result<AddressBech32, Bech32ParseError>)
        ensures
            r matches Ok(a) ==> {
                &&& bech32_decoding(s@) matches Some(p) && p.0 == address_hrp()
                &&& a@ == s@
            },
            bech32_decoding(s@) is None ==> (r matches Err(e) && e is Bech32),
            (bech32_decoding(s@) matches Some(p) && p.0 != address_hrp()) ==> (r matches Err(e)
                && e is WrongHPR),
            (bech32_decoding(s@) matches Some(p) && p.0 == address_hrp()) ==> r is Ok,
    {
        let (hrp, _vec) = match bech32_to_vec(s) {
            Ok(p) => p,
            Err(e) => {
                return Err(Bech32ParseError::Bech32(e));
            },
        };
        let expected = "sov".to_owned();
        proof {
            reveal_strlit("sov");
            assert("sov"@ =~= address_hrp());
        }
        if hrp == expected {
            Ok(AddressBech32 { value: s.to_owned() })
        } else {
            Err(Bech32ParseError::WrongHPR(hrp))
        }
    }

    /// The rendered address string.
    pub fn to_string(&self) -> (r: String)
        ensures
            r@ == self@,
    {
        self.value.clone()
    }
}

} // verus!
