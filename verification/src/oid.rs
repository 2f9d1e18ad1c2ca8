//! The opaque record identifier: twelve bytes, shown to clients as a
//! 24-character hexadecimal string. Parsing accepts either letter case;
//! encoding produces lower case.

use vstd::prelude::*;

verus! {

use vstd::string::StrSliceExecFns;
use vstd::string::StringExecFns;

/// A twelve-byte record identifier.
pub struct ObjectId {
    pub bytes: Vec<u8>,
}

impl ObjectId {
    /// A well-formed identifier holds exactly twelve bytes.
    pub open spec fn wf(self) -> bool {
        self.bytes@.len() == 12
    }

    pub open spec fn view(self) -> Seq<u8> {
        self.bytes@
    }
}

/// Does `c` denote a hexadecimal digit (either letter case)?
pub open spec fn is_hex_digit(c: char) -> bool {
    ('0' as int <= c as int && c as int <= '9' as int) || ('a' as int <= c as int && c as int
        <= 'f' as int) || ('A' as int <= c as int && c as int <= 'F' as int)
}

/// The numeric value of a hexadecimal digit (meaningful when `is_hex_digit(c)`).
pub open spec fn hex_digit_val(c: char) -> nat {
    if '0' as int <= c as int && c as int <= '9' as int {
        (c as int - '0' as int) as nat
    } else if 'a' as int <= c as int && c as int <= 'f' as int {
        (c as int - 'a' as int + 10) as nat
    } else if 'A' as int <= c as int && c as int <= 'F' as int {
        (c as int - 'A' as int + 10) as nat
    } else {
        0
    }
}

/// The lower-case hexadecimal digit for a value below sixteen.
pub open spec fn hex_char(d: nat) -> char {
    if d < 10 {
        ('0' as int + d) as char
    } else {
        ('a' as int + (d - 10)) as char
    }
}

/// A valid identifier string: exactly 24 hexadecimal digits.
pub open spec fn is_valid_id(s: Seq<char>) -> bool {
    s.len() == 24 && (forall|i: int| 0 <= i < s.len() ==> is_hex_digit(#[trigger] s[i]))
}

/// The bytes denoted by a valid identifier string.
pub open spec fn decoded(s: Seq<char>) -> Seq<u8> {
    Seq::new(12, |i: int| (16 * hex_digit_val(s[2 * i]) + hex_digit_val(s[2 * i + 1])) as u8)
}

/// The lower-case hexadecimal rendering of a byte string.
pub open spec fn hex_of(bytes: Seq<u8>) -> Seq<char> {
    Seq::new(
        2 * bytes.len(),
        |i: int|
            if i % 2 == 0 {
                hex_char((bytes[i / 2] / 16) as nat)
            } else {
                hex_char((bytes[i / 2] % 16) as nat)
            },
    )
}

/// The value of one hexadecimal digit character, or `None` when it is not one.
fn hex_val(c: char) -> (r: Option<u8>)
    ensures
        r is Some <==> is_hex_digit(c),
        r matches Some(v) ==> v == hex_digit_val(c) && v < 16,
{
    let u = c as u32;
    if '0' as u32 <= u && u <= '9' as u32 {
        Some((u - '0' as u32) as u8)
    } else if 'a' as u32 <= u && u <= 'f' as u32 {
        Some((u - 'a' as u32) as u8 + 10)
    } else if 'A' as u32 <= u && u <= 'F' as u32 {
        Some((u - 'A' as u32) as u8 + 10)
    } else {
        None
    }
}

impl ObjectId {
    /// Parse an identifier string: succeeds exactly on 24 hexadecimal digits.
    pub fn parse(s: &str) -> (r: Option<ObjectId>)
        ensures
            r is Some <==> is_valid_id(s@),
            r matches Some(oid) ==> oid.wf() && oid@ == decoded(s@),
    {
        let n = s.unicode_len();
        if n != 24 {
            return None;
        }
        let mut bytes: Vec<u8> = Vec::new();
        let mut i: usize = 0;
        while i < 12
            invariant
                s@.len() == 24,
                0 <= i <= 12,
                bytes@.len() == i,
                forall|j: int| 0 <= j < 2 * i ==> is_hex_digit(#[trigger] s@[j]),
                forall|j: int|
                    0 <= j < i ==> #[trigger] bytes@[j] == (16 * hex_digit_val(s@[2 * j])
                        + hex_digit_val(s@[2 * j + 1])) as u8,
            decreases 12 - i,
        {
            let hi = match hex_val(s.get_char(2 * i)) {
                Some(v) => v,
                None => {
                    return None;
                },
            };
            let lo = match hex_val(s.get_char(2 * i + 1)) {
                Some(v) => v,
                None => {
                    return None;
                },
            };
            bytes.push(16 * hi + lo);
            i = i + 1;
        }
        let oid = ObjectId { bytes };
        proof {
            assert(oid@ =~= decoded(s@));
        }
        Some(oid)
    }

    /// Render the identifier as its 24-character lower-case hexadecimal string.
    pub fn to_hex(&self) -> (r: String)
        requires
            self.wf(),
        ensures
            r@ == hex_of(self@),
    {
        let mut out = String::new();
        let mut i: usize = 0;
        while i < 12
            invariant
                self.wf(),
                0 <= i <= 12,
                out@ =~= hex_of(self@).take(2 * i as int),
            decreases 12 - i,
        {
            let b = self.bytes[i];
            push_hex_digit(&mut out, b / 16);
            push_hex_digit(&mut out, b % 16);
            proof {
                assert(out@ =~= hex_of(self@).take(2 * (i + 1) as int));
            }
            i = i + 1;
        }
        proof {
            assert(out@ =~= hex_of(self@));
        }
        out
    }
}

/// Append the lower-case hexadecimal digit for `d` to `s`.
fn push_hex_digit(s: &mut String, d: u8)
    requires
        d < 16,
    ensures
        final(s)@ == old(s)@.push(hex_char(d as nat)),
{
    proof {
        reveal_strlit("0");
        reveal_strlit("1");
        reveal_strlit("2");
        reveal_strlit("3");
        reveal_strlit("4");
        reveal_strlit("5");
        reveal_strlit("6");
        reveal_strlit("7");
        reveal_strlit("8");
        reveal_strlit("9");
        reveal_strlit("a");
        reveal_strlit("b");
        reveal_strlit("c");
        reveal_strlit("d");
        reveal_strlit("e");
        reveal_strlit("f");
    }
    let digit: &str = match d {
        0 => "0",
        1 => "1",
        2 => "2",
        3 => "3",
        4 => "4",
        5 => "5",
        6 => "6",
        7 => "7",
        8 => "8",
        9 => "9",
        10 => "a",
        11 => "b",
        12 => "c",
        13 => "d",
        14 => "e",
        _ => "f",
    };
    s.append(digit);
    proof {
        assert(s@ =~= old(s)@.push(hex_char(d as nat)));
    }
}

/// Encoding an identifier and parsing the result gives the identifier back:
/// the hexadecimal rendering of twelve bytes is a valid identifier string and
/// decodes to the same bytes.
pub proof fn lemma_hex_round_trip(bytes: Seq<u8>)
    requires
        bytes.len() == 12,
    ensures
        is_valid_id(hex_of(bytes)),
        decoded(hex_of(bytes)) == bytes,
{
    assert forall|i: int| 0 <= i < hex_of(bytes).len() implies is_hex_digit(
        #[trigger] hex_of(bytes)[i],
    ) by {
        let b = bytes[i / 2];
        assert(b / 16 < 16 && b % 16 < 16);
    }
    assert forall|i: int| 0 <= i < 12 implies #[trigger] decoded(hex_of(bytes))[i] == bytes[i] by {
        let b = bytes[i];
        assert(hex_of(bytes)[2 * i] == hex_char((b / 16) as nat));
        assert(hex_of(bytes)[2 * i + 1] == hex_char((b % 16) as nat));
        assert(hex_digit_val(hex_char((b / 16) as nat)) == (b / 16) as nat);
        assert(hex_digit_val(hex_char((b % 16) as nat)) == (b % 16) as nat);
        assert(16 * (b / 16) + b % 16 == b);
    }
    assert(decoded(hex_of(bytes)) =~= bytes);
}

} // verus!
