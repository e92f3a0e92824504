//! Why a datagram is not a packet.

use vstd::prelude::*;
use vstd::string::StringExecFns;

verus! {

#[derive(Debug, Copy, Clone, PartialEq, Eq, Structural)]
pub enum PacketParsingError {
    /// The version in the first octet is neither 3 nor 4.
    InvalidVersion(u8),
    /// A length, a padding or a placeholder body is not as the format demands.
    IncorrectLength,
    /// A second encrypted field, or one nested in another.
    MalformedNtsExtensionFields,
    /// The nonce of the encrypted field is not 16 octets long.
    MalformedNonce,
    /// The encrypted field did not authenticate.
    DecryptError,
}

/// The decimal digit `d`.
pub open spec fn digit(d: int) -> char {
    if d == 0 {
        '0'
    } else if d == 1 {
        '1'
    } else if d == 2 {
        '2'
    } else if d == 3 {
        '3'
    } else if d == 4 {
        '4'
    } else if d == 5 {
        '5'
    } else if d == 6 {
        '6'
    } else if d == 7 {
        '7'
    } else if d == 8 {
        '8'
    } else {
        '9'
    }
}

/// The decimal digits of `v`, without leading zeros.
pub open spec fn decimal(v: nat) -> Seq<char>
    decreases v,
{
    if v < 10 {
        seq![digit(v as int)]
    } else {
        decimal(v / 10).push(digit((v % 10) as int))
    }
}

/// The sentence that describes an error.
pub open spec fn message_of(e: PacketParsingError) -> Seq<char> {
    match e {
        PacketParsingError::InvalidVersion(v) => "Invalid version "@ + decimal(v as nat),
        PacketParsingError::IncorrectLength => "Incorrect packet length"@,
        PacketParsingError::MalformedNtsExtensionFields => "Malformed nts extension fields"@,
        PacketParsingError::MalformedNonce => "Malformed nonce (likely invalid length)"@,
        PacketParsingError::DecryptError => "Failed to decrypt NTS extension fields"@,
    }
}

/// Appends the decimal digit `d`.
fn push_digit(s: &mut String, d: u8)
    requires
        d < 10,
    ensures
        final(s)@ == old(s)@.push(digit(d as int)),
{
    let t: &str = match d {
        0 => "0",
        1 => "1",
        2 => "2",
        3 => "3",
        4 => "4",
        5 => "5",
        6 => "6",
        7 => "7",
        8 => "8",
        _ => "9",
    };
    proof {
        reveal_strlit("0");
        reveal_strlit("1");
        reveal_strlit("2");
        reveal_strlit("3");
        reveal_strlit("4");
        reveal_strlit("5");
        reveal_strlit("6");
        reveal_strlit("7");
        reveal_strlit("8");
        reveal_strlit("9");
    }
    s.append(t);
    assert(s@ =~= old(s)@.push(digit(d as int)));
}

impl PacketParsingError {
    /// A sentence that describes the error.
    pub fn message(&self) -> (r: String)
        ensures
            r@ == message_of(*self),
    {
        match self {
            PacketParsingError::InvalidVersion(v) => {
                let mut s = String::from_str("Invalid version ");
                let v = *v;
                proof {
                    reveal_with_fuel(decimal, 3);
                }
                if v >= 100 {
                    push_digit(&mut s, v / 100);
                }
                if v >= 10 {
                    push_digit(&mut s, (v / 10) % 10);
                }
                push_digit(&mut s, v % 10);
                proof {
                    if v >= 100 {
                        assert((v / 10) as nat / 10 == v / 100);
                        assert(decimal((v / 10) as nat) == decimal((v / 100) as nat).push(
                            digit(((v / 10) % 10) as int),
                        ));
                    }
                }
                s
            },
            PacketParsingError::IncorrectLength => String::from_str("Incorrect packet length"),
            PacketParsingError::MalformedNtsExtensionFields => String::from_str(
                "Malformed nts extension fields",
            ),
            PacketParsingError::MalformedNonce => String::from_str(
                "Malformed nonce (likely invalid length)",
            ),
            PacketParsingError::DecryptError => String::from_str(
                "Failed to decrypt NTS extension fields",
            ),
        }
    }
}

/// Why a packet could not be written.
#[derive(Debug, Copy, Clone, PartialEq, Eq, Structural)]
pub enum SerializeError {
    /// A field is too long for the 16-bit length of its frame.
    FieldTooLong,
}

} // verus!
