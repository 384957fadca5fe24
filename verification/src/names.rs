//! Identifiers and identities of the AIR protocol, held as plain values.
//!
//! An [`Id`] is a 32-byte identifier; a [`Name`] is a public key, held as the
//! canonical text that the protocol prints for it.  Computing a hash, parsing
//! and printing go through the `air` crate.

use vstd::prelude::*;

verus! {

/// Whether `c` is a hexadecimal digit of either case.
pub open spec fn is_hex_digit(c: char) -> bool {
    ||| ('0' <= c && c <= '9')
    ||| ('a' <= c && c <= 'f')
    ||| ('A' <= c && c <= 'F')
}

/// Whether `c` is a digit of lower-case hexadecimal.
pub open spec fn is_lower_hex_digit(c: char) -> bool {
    ||| ('0' <= c && c <= '9')
    ||| ('a' <= c && c <= 'f')
}

/// The value of a hexadecimal digit.
pub open spec fn hex_value(c: char) -> int {
    if '0' <= c && c <= '9' {
        c as u32 - '0' as u32
    } else if 'a' <= c && c <= 'f' {
        c as u32 - 'a' as u32 + 10
    } else {
        c as u32 - 'A' as u32 + 10
    }
}

/// The lower-case hexadecimal digit of a value below 16.
pub open spec fn lower_hex_digit(n: int) -> char {
    if n < 10 {
        (n + '0' as u32) as char
    } else {
        (n - 10 + 'a' as u32) as char
    }
}

/// Lower-case hexadecimal text of some bytes, two digits per byte, high digit first.
pub open spec fn hex_lower(bytes: Seq<u8>) -> Seq<char> {
    Seq::new(
        2 * bytes.len(),
        |i: int|
            if i % 2 == 0 {
                lower_hex_digit((bytes[i / 2] / 16) as int)
            } else {
                lower_hex_digit((bytes[i / 2] % 16) as int)
            },
    )
}

/// The bytes that hexadecimal text stands for: an even number of digits of
/// either case, two per byte, high digit first.
pub open spec fn hex_decode(s: Seq<char>) -> Option<Seq<u8>> {
    if s.len() % 2 == 0 && forall|i: int| 0 <= i < s.len() ==> is_hex_digit(#[trigger] s[i]) {
        Some(
            Seq::new(
                s.len() / 2,
                |i: int| (hex_value(s[2 * i]) * 16 + hex_value(s[2 * i + 1])) as u8,
            ),
        )
    } else {
        None
    }
}

/// A lower-case hexadecimal digit reads back as its value.
pub proof fn lemma_lower_hex_digit(n: int)
    requires
        0 <= n < 16,
    ensures
        is_hex_digit(lower_hex_digit(n)),
        is_lower_hex_digit(lower_hex_digit(n)),
        hex_value(lower_hex_digit(n)) == n,
{
    let c = lower_hex_digit(n);
    if n < 10 {
        assert(c as u32 == n + 48);
    } else {
        assert(c as u32 == n - 10 + 97);
    }
}

/// Reading back the lower-case hexadecimal text of some bytes gives the bytes.
pub proof fn lemma_hex_round_trip(b: Seq<u8>)
    ensures
        hex_decode(hex_lower(b)) == Some(b),
{
    let s = hex_lower(b);
    assert forall|i: int| 0 <= i < s.len() implies is_hex_digit(#[trigger] s[i]) by {
        lemma_lower_hex_digit((b[i / 2] / 16) as int);
        lemma_lower_hex_digit((b[i / 2] % 16) as int);
    }
    let d = hex_decode(s)->0;
    assert forall|i: int| 0 <= i < b.len() implies #[trigger] d[i] == b[i] by {
        assert(s[2 * i] == lower_hex_digit((b[i] / 16) as int));
        assert(s[2 * i + 1] == lower_hex_digit((b[i] % 16) as int));
        lemma_lower_hex_digit((b[i] / 16) as int);
        lemma_lower_hex_digit((b[i] % 16) as int);
    }
    assert(d =~= b);
}

/// The 32 bytes that `Id::hash` of the `air` crate gives for a string.
pub uninterp spec fn air_id_hash(text: Seq<char>) -> Seq<u8>;

/// The canonical text of the public key that some text names, if it names one
/// (the text that `air` prints for a `Name` parsed from it).
pub uninterp spec fn canonical_name_text(text: Seq<char>) -> Option<Seq<char>>;

/// A 32-byte identifier (of a contract, an instance, a service or a channel).
#[derive(Clone, Copy, Debug)]
pub struct Id {
    pub bytes: [u8; 32],
}

impl View for Id {
    type V = Seq<u8>;

    open spec fn view(&self) -> Seq<u8> {
        self.bytes@
    }
}

/// Calls `air::Id::hash` on a string and returns the bytes of the identifier.
/// Claimed: the bytes are the named result `air_id_hash` of the string.
#[verifier::external_body]
fn air_hash_str(text: &str) -> (bytes: [u8; 32])
    ensures
        bytes@ == air_id_hash(text@),
{
    <[u8; 32]>::from(air::Id::hash(text))
}

/// Calls `<air::Id as FromStr>::from_str`, which decodes hexadecimal text
/// (either case) and accepts exactly 32 bytes.  Claimed: it succeeds exactly
/// when the text is hexadecimal of 32 bytes, with those bytes.
#[verifier::external_body]
fn air_id_from_str(text: &str) -> (bytes: Option<[u8; 32]>)
    ensures
        match hex_decode(text@) {
            Some(b) => if b.len() == 32 {
                bytes matches Some(x) && x@ == b
            } else {
                bytes is None
            },
            None => bytes is None,
        },
{
    match <air::Id as std::str::FromStr>::from_str(text) {
        Ok(id) => Some(<[u8; 32]>::from(id)),
        Err(_) => None,
    }
}

/// Calls the `Display` of `air::Id`, which prints lower-case hexadecimal.
/// Claimed: the text is `hex_lower` of the bytes.
#[verifier::external_body]
fn air_id_to_string(bytes: &[u8; 32]) -> (text: String)
    ensures
        text@ == hex_lower(bytes@),
{
    air::Id::from(*bytes).to_string()
}

impl Id {
    pub fn new(bytes: [u8; 32]) -> (id: Id)
        ensures
            id@ == bytes@,
    {
        Id { bytes }
    }

    /// The identifier that `air` derives from a name, such as a contract's.
    pub fn hash(text: &str) -> (id: Id)
        ensures
            id@ == air_id_hash(text@),
    {
        Id { bytes: air_hash_str(text) }
    }

    /// Reads an identifier from its hexadecimal text.
    pub fn parse(text: &str) -> (id: Option<Id>)
        ensures
            match hex_decode(text@) {
                Some(b) => if b.len() == 32 {
                    id matches Some(i) && i@ == b
                } else {
                    id is None
                },
                None => id is None,
            },
    {
        match air_id_from_str(text) {
            Some(bytes) => Some(Id { bytes }),
            None => None,
        }
    }

    /// The lower-case hexadecimal text of the identifier.
    pub fn to_text(&self) -> (text: String)
        ensures
            text@ == hex_lower(self@),
    {
        air_id_to_string(&self.bytes)
    }

    /// Whether two identifiers are the same.
    pub fn same(&self, other: &Id) -> (r: bool)
        ensures
            r == (self@ == other@),
    {
        let mut i: usize = 0;
        while i < 32
            invariant
                i <= 32,
                forall|j: int| 0 <= j < i ==> self.bytes@[j] == other.bytes@[j],
            decreases 32 - i,
        {
            if self.bytes[i] != other.bytes[i] {
                return false;
            }
            i = i + 1;
        }
        assert(self.bytes@ =~= other.bytes@);
        true
    }
}

impl PartialEq for Id {
    fn eq(&self, other: &Id) -> (r: bool) {
        self.same(other)
    }
}

impl Eq for Id {}

impl vstd::std_specs::cmp::PartialEqSpecImpl for Id {
    open spec fn obeys_eq_spec() -> bool {
        true
    }

    open spec fn eq_spec(&self, other: &Id) -> bool {
        self@ == other@
    }
}

impl Default for Id {
    fn default() -> (id: Id)
        ensures
            id@ == Seq::new(32, |i: int| 0u8),
    {
        let id = Id { bytes: [0u8; 32] };
        assert(id@ =~= Seq::new(32, |i: int| 0u8));
        id
    }
}

/// Calls `<air::Name as FromStr>::from_str` and prints the result with its
/// `Display`.  Claimed: the result is the named `canonical_name_text` of the
/// input, and (as the printing of a compressed secp256k1 key shows) it is 66
/// lower-case hexadecimal digits.
#[verifier::external_body]
fn air_name_canonical(text: &str) -> (canonical: Option<String>)
    ensures
        match canonical {
            Some(t) => canonical_name_text(text@) == Some(t@),
            None => canonical_name_text(text@) is None,
        },
        canonical matches Some(t) ==> t@.len() == 66 && forall|i: int|
            0 <= i < 66 ==> is_lower_hex_digit(#[trigger] t@[i]),
{
    match <air::Name as std::str::FromStr>::from_str(text) {
        Ok(name) => Some(name.to_string()),
        Err(_) => None,
    }
}

/// Whether some text is the canonical text of a public key: 66 lower-case
/// hexadecimal digits.
pub open spec fn is_name_text(text: Seq<char>) -> bool {
    text.len() == 66 && forall|i: int| 0 <= i < 66 ==> is_lower_hex_digit(#[trigger] text[i])
}

/// A public identity (a secp256k1 public key), held as its canonical text.
#[derive(Debug)]
pub struct Name {
    text: String,
}

impl View for Name {
    type V = Seq<char>;

    closed spec fn view(&self) -> Seq<char> {
        self.text@
    }
}

impl Name {
    #[verifier::type_invariant]
    closed spec fn wf(self) -> bool {
        is_name_text(self.text@)
    }

    /// Reads a public key from hexadecimal text (compressed or uncompressed);
    /// `None` if the text names no key.
    pub fn parse(text: &str) -> (name: Option<Name>)
        ensures
            match name {
                Some(n) => canonical_name_text(text@) == Some(n@),
                None => canonical_name_text(text@) is None,
            },
    {
        match air_name_canonical(text) {
            Some(t) => Some(Name { text: t }),
            None => None,
        }
    }

    /// The canonical text of the key.
    pub fn as_str(&self) -> (text: &str)
        ensures
            text@ == self@,
            is_name_text(text@),
    {
        proof {
            use_type_invariant(self);
        }
        self.text.as_str()
    }

    pub fn same(&self, other: &Name) -> (r: bool)
        ensures
            r == (self@ == other@),
    {
        self.text == other.text
    }
}

impl Clone for Name {
    fn clone(&self) -> (r: Name)
        ensures
            r@ == self@,
    {
        proof {
            use_type_invariant(self);
        }
        Name { text: self.text.clone() }
    }
}

impl PartialEq for Name {
    fn eq(&self, other: &Name) -> (r: bool) {
        self.same(other)
    }
}

impl Eq for Name {}

impl vstd::std_specs::cmp::PartialEqSpecImpl for Name {
    open spec fn obeys_eq_spec() -> bool {
        true
    }

    open spec fn eq_spec(&self, other: &Name) -> bool {
        self@ == other@
    }
}

/// Who applied an operation to a contract instance, and when (nanoseconds).
#[derive(Debug)]
pub struct Metadata {
    pub signer: Name,
    pub timestamp: u64,
}

} // verus!
