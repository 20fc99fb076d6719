//! How a field of raw bytes is written where the manifest is printed.

use vstd::prelude::*;

verus! {

/// The upper-case hexadecimal digit of a value below 16.
pub open spec fn upper_hex_digit(value: int) -> char {
    seq!['0', '1', '2', '3', '4', '5', '6', '7', '8', '9', 'A', 'B', 'C', 'D', 'E', 'F'][value]
}

/// `data` in upper-case hexadecimal: two digits for each byte, the high half
/// of the byte first.
pub open spec fn upper_hex(data: Seq<u8>) -> Seq<char> {
    Seq::new(
        2 * data.len(),
        |i: int|
            if i % 2 == 0 {
                upper_hex_digit(data[i / 2] as int / 16)
            } else {
                upper_hex_digit(data[i / 2] as int % 16)
            },
    )
}

/// `hex::encode_upper`. The crate writes each byte as two characters taken
/// from the table `0123456789ABCDEF`, first the one for the high four bits,
/// then the one for the low four.
#[verifier::external_body]
fn encode_upper(data: &Vec<u8>) -> (text: String)
    ensures
        text@ == upper_hex(data@),
{
    hex::encode_upper(data)
}

/// The text that stands for an absent field: two quotation marks.
pub open spec fn absent() -> Seq<char> {
    seq!['"', '"']
}

/// The text for an optional field of raw bytes: its bytes in upper-case
/// hexadecimal, or two quotation marks where the field is absent.
pub fn serialize(data: &Option<Vec<u8>>) -> (text: String)
    ensures
        text@ == match data {
            Some(bytes) => upper_hex(bytes@),
            None => absent(),
        },
{
    match data {
        Some(bytes) => encode_upper(bytes),
        None => {
            proof {
                reveal_strlit("\"\"");
            }
            let text = "\"\"".to_owned();
            text
        },
    }
}

} // verus!
