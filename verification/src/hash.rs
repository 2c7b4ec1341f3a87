use vstd::prelude::*;

verus! {

/// Number of bytes in a torrent info hash.
pub const HASH_LEN: usize = 20;

/// SHA-1 info hash that identifies a torrent.
#[derive(Clone, Copy, Debug, PartialEq, Eq, Hash)]
pub struct InfoHash {
    pub bytes: [u8; 20],
}

/// Value of a digit in base 16, either case.
pub open spec fn hex_digit_value(c: char) -> Option<int> {
    let v = c as int;
    if 48 <= v <= 57 {
        Some(v - 48)
    } else if 97 <= v <= 102 {
        Some(v - 87)
    } else if 65 <= v <= 70 {
        Some(v - 55)
    } else {
        None
    }
}

/// Value of a two character base 16 number: two digits, or a `+` sign and a
/// digit.
pub open spec fn hex_pair_value(hi: char, lo: char) -> Option<int> {
    if hi == '+' {
        hex_digit_value(lo)
    } else {
        match (hex_digit_value(hi), hex_digit_value(lo)) {
            (Some(h), Some(l)) => Some(16 * h + l),
            _ => None,
        }
    }
}

/// Value of the `i`th pair of characters of `s`.
pub open spec fn pair_at(s: Seq<char>, i: int) -> Option<int> {
    hex_pair_value(s[2 * i], s[2 * i + 1])
}

/// The bytes that a hexadecimal hash string stands for: forty characters, read
/// as twenty pairs.
pub open spec fn hash_from_hex(s: Seq<char>) -> Option<Seq<u8>> {
    if s.len() == 2 * HASH_LEN && forall|i: int| 0 <= i < HASH_LEN ==> #[trigger] pair_at(s, i) is Some {
        Some(Seq::new(HASH_LEN as nat, |i: int| pair_at(s, i).unwrap() as u8))
    } else {
        None
    }
}

/// Lower case digit of base 16 for `d` in `0..16`.
pub open spec fn hex_char(d: int) -> char {
    if d < 10 {
        (48 + d) as char
    } else {
        (87 + d) as char
    }
}

/// Lower case hexadecimal text of `bytes`, two digits per byte.
pub open spec fn hash_to_hex(bytes: Seq<u8>) -> Seq<char> {
    Seq::new(
        2 * bytes.len(),
        |k: int|
            if k % 2 == 0 {
                hex_char(bytes[k / 2] as int / 16)
            } else {
                hex_char(bytes[k / 2] as int % 16)
            },
    )
}

/// Every character of `s` is an ASCII character.
pub open spec fn all_ascii(s: Seq<char>) -> bool {
    vstd::utf8::is_ascii_chars(s)
}

/// Parses `hex` with `flat_db::Hash::<20>::from_string`.
///
/// On ASCII text that function splits the text into pairs of characters and
/// reads each with `u8::from_str_radix(_, 16)`, which takes two digits or a
/// `+` sign and a digit; it fails unless there are exactly forty bytes. The
/// contract says that the bytes it returns are those of [`hash_from_hex`].
#[verifier::external_body]
fn flat_db_hash_from_string(hex: &str) -> (res: Option<[u8; 20]>)
    requires
        all_ascii(hex@),
    ensures
        match res {
            Some(b) => hash_from_hex(hex@) == Some(b@),
            None => hash_from_hex(hex@) is None,
        },
{
    match flat_db::Hash::<20>::from_string(hex) {
        Ok(hash) => Some(*hash.as_bytes()),
        Err(_) => None,
    }
}

/// Formats `bytes` with `flat_db::Hash::<20>::to_hex`, which writes each byte
/// as two lower case hexadecimal digits (`{:02x}`).
#[verifier::external_body]
fn flat_db_hash_to_hex(bytes: [u8; 20]) -> (res: String)
    ensures
        res@ == hash_to_hex(bytes@),
{
    flat_db::Hash::<20>::new(bytes).to_hex()
}

/// Digits written by [`hex_char`] read back as their values.
proof fn lemma_hex_char_value(d: int)
    requires
        0 <= d < 16,
    ensures
        hex_digit_value(hex_char(d)) == Some(d),
        hex_char(d) != '+',
        vstd::utf8::is_ascii_chars(seq![hex_char(d)]),
{
}

/// Reading back the hexadecimal text of a hash gives the hash: the text that
/// [`InfoHash::to_hex`] writes is ASCII, and [`InfoHash::from_hex`] reads from
/// it the bytes it was written from.
pub proof fn lemma_hex_round_trip(bytes: Seq<u8>)
    requires
        bytes.len() == HASH_LEN,
    ensures
        all_ascii(hash_to_hex(bytes)),
        hash_from_hex(hash_to_hex(bytes)) == Some(bytes),
{
    let s = hash_to_hex(bytes);
    assert forall|k: int| 0 <= k < s.len() implies '\0' <= #[trigger] s[k] <= '\u{7f}' by {
        let b = bytes[k / 2] as int;
        lemma_hex_char_value(b / 16);
        lemma_hex_char_value(b % 16);
    }
    assert forall|i: int| 0 <= i < HASH_LEN implies #[trigger] pair_at(s, i) == Some(bytes[i] as int) by {
        let b = bytes[i] as int;
        assert((2 * i) / 2 == i);
        assert((2 * i + 1) / 2 == i);
        assert((2 * i) % 2 == 0);
        assert((2 * i + 1) % 2 == 1);
        lemma_hex_char_value(b / 16);
        lemma_hex_char_value(b % 16);
        assert(16 * (b / 16) + b % 16 == b);
    }
    assert(Seq::new(HASH_LEN as nat, |i: int| pair_at(s, i).unwrap() as u8) =~= bytes);
}

impl InfoHash {
    /// Read a hash from its hexadecimal text.
    ///
    /// Returns `None` unless `hex` is forty ASCII characters that make twenty
    /// base 16 numbers.
    pub fn from_hex(hex: &str) -> (res: Option<InfoHash>)
        ensures
            match res {
                Some(h) => all_ascii(hex@) && hash_from_hex(hex@) == Some(h.bytes@),
                None => !all_ascii(hex@) || hash_from_hex(hex@) is None,
            },
    {
        if !hex.is_ascii() {
            return None;
        }
        match flat_db_hash_from_string(hex) {
            Some(bytes) => Some(InfoHash { bytes }),
            None => None,
        }
    }

    /// Lower case hexadecimal text of the hash.
    pub fn to_hex(&self) -> (res: String)
        ensures
            res@ == hash_to_hex(self.bytes@),
    {
        flat_db_hash_to_hex(self.bytes)
    }
}

} // verus!
