//! Per-logical-map key prefixes. Every collection type shares one physical
//! store; prepending a unique prefix to each collection's keys keeps their
//! entries from colliding.

use vstd::prelude::*;

verus! {

/// Bytes a key prefix is made of, kept in the layout the storage layer
/// expects.
#[derive(Debug, PartialEq, Eq)]
pub struct AlignedVec {
    inner: Vec<u8>,
}

impl View for AlignedVec {
    type V = Seq<u8>;

    closed spec fn view(&self) -> Seq<u8> {
        self.inner@
    }
}

impl AlignedVec {
    pub fn new(vector: Vec<u8>) -> (r: Self)
        ensures
            r@ == vector@,
    {
        AlignedVec { inner: vector }
    }

    pub fn as_bytes(&self) -> (r: &Vec<u8>)
        ensures
            r@ == self@,
    {
        &self.inner
    }

    pub fn len(&self) -> (r: usize)
        ensures
            r == self@.len(),
    {
        self.inner.len()
    }
}

/// What bytes render to in lowercase hexadecimal, two digits per byte.
pub uninterp spec fn hex_of(b: Seq<u8>) -> Seq<char>;

/// What a byte string decodes to as UTF-8, if it is valid UTF-8.
pub uninterp spec fn utf8_chars(b: Seq<u8>) -> Option<Seq<char>>;

/// What a string looks like quoted and escaped for display.
pub uninterp spec fn str_quoted(s: Seq<char>) -> Seq<char>;

/// Relies on str::from_utf8: validity and the decoded characters are a
/// function of the bytes alone.
#[verifier::external_body]
fn bytes_to_utf8(b: &Vec<u8>) -> (r: Option<String>)
    ensures
        r matches Some(s) ==> utf8_chars(b@) == Some(s@),
        r is None <==> utf8_chars(b@) is None,
{
    match std::str::from_utf8(b.as_slice()) {
        Ok(s) => Some(s.to_owned()),
        Err(_) => None,
    }
}

/// Relies on the debug formatting of str: quoting and escaping are a
/// function of the characters alone.
#[verifier::external_body]
fn quote_str(s: &String) -> (r: String)
    ensures
        r@ == str_quoted(s@),
{
    format!("{:?}", s.as_str())
}

/// Relies on hex::encode: two lowercase digits per byte, a function of the
/// bytes alone; the "0x" marker is prepended.
#[verifier::external_body]
fn hex_display(b: &Vec<u8>) -> (r: String)
    ensures
        r@ == seq!['0', 'x'] + hex_of(b@),
        r@.len() == 2 + 2 * b@.len(),
{
    format!("0x{}", hex::encode(b.as_slice()))
}

/// A prefix prepended to each key before insertion and retrieval, one per
/// logical collection.
#[derive(Debug, PartialEq, Eq)]
pub struct Prefix {
    prefix: AlignedVec,
}

impl View for Prefix {
    type V = Seq<u8>;

    closed spec fn view(&self) -> Seq<u8> {
        self.prefix@
    }
}

impl Prefix {
    pub fn new(prefix: Vec<u8>) -> (r: Self)
        ensures
            r@ == prefix@,
    {
        Prefix { prefix: AlignedVec::new(prefix) }
    }

    pub fn as_aligned_vec(&self) -> (r: &AlignedVec)
        ensures
            r@ == self@,
    {
        &self.prefix
    }

    pub fn len(&self) -> (r: usize)
        ensures
            r == self@.len(),
    {
        self.prefix.len()
    }

    #[must_use]
    pub fn is_empty(&self) -> (r: bool)
        ensures
            r == (self@.len() == 0),
    {
        self.len() == 0
    }

    /// The prefix laid before a key: the qualified key the store sees.
    pub fn prefixed_key(&self, key: &Vec<u8>) -> (r: Vec<u8>)
        ensures
            r@ == self@ + key@,
    {
        let mut r = crate::bytes::bytes_range(self.prefix.as_bytes(), 0, self.prefix.len());
        proof {
            assert(r@ =~= self@);
        }
        crate::bytes::bytes_extend(&mut r, key);
        r
    }

    /// The prefix as text: its bytes read as UTF-8, quoted, when they are
    /// valid UTF-8, and "0x" with lowercase hex digits otherwise.
    pub fn display_string(&self) -> (r: String)
        ensures
            r@ == match utf8_chars(self@) {
                Some(s) => str_quoted(s),
                None => seq!['0', 'x'] + hex_of(self@),
            },
    {
        match bytes_to_utf8(self.prefix.as_bytes()) {
            Some(s) => quote_str(&s),
            None => hex_display(self.prefix.as_bytes()),
        }
    }
}

} // verus!
