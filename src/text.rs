//! Text built by the boot paths: hexadecimal UUIDs and the kernel command
//! line.
use vstd::prelude::*;
use vstd::utf8::{valid_utf8, decode_utf8};

verus! {

broadcast use vstd::string::group_string_axioms;

pub open spec fn hex_char(n: int) -> char {
    if n == 0 { '0' } else if n == 1 { '1' } else if n == 2 { '2' } else if n == 3 { '3' }
    else if n == 4 { '4' } else if n == 5 { '5' } else if n == 6 { '6' } else if n == 7 { '7' }
    else if n == 8 { '8' } else if n == 9 { '9' } else if n == 10 { 'a' } else if n == 11 { 'b' }
    else if n == 12 { 'c' } else if n == 13 { 'd' } else if n == 14 { 'e' } else { 'f' }
}

/// A byte as two lower-case hexadecimal digits.
pub open spec fn hex_byte(b: u8) -> Seq<char> {
    seq![hex_char(b as int / 16), hex_char(b as int % 16)]
}

/// The canonical text of the first `i` bytes of a UUID: hex digit pairs,
/// with a dash before bytes 4, 6, 8 and 10.
pub open spec fn uuid_text_upto(u: Seq<u8>, i: int) -> Seq<char>
    decreases i,
{
    if i <= 0 {
        seq![]
    } else if i - 1 == 4 || i - 1 == 6 || i - 1 == 8 || i - 1 == 10 {
        uuid_text_upto(u, i - 1) + seq!['-'] + hex_byte(u[i - 1])
    } else {
        uuid_text_upto(u, i - 1) + hex_byte(u[i - 1])
    }
}

pub open spec fn uuid_text(u: Seq<u8>) -> Seq<char> {
    uuid_text_upto(u, 16)
}

/// What `String::from_utf8_lossy` makes of some bytes.
pub uninterp spec fn lossy_text(b: Seq<u8>) -> Seq<char>;

/// Relies on `String::from_utf8_lossy`: the text depends on the bytes
/// alone, and well-formed UTF-8 is decoded as it is.
#[verifier::external_body]
pub(crate) fn lossy_string(b: &[u8]) -> (r: String)
    ensures
        r@ == lossy_text(b@),
        valid_utf8(b@) ==> r@ == decode_utf8(b@),
{
    String::from_utf8_lossy(b).into_owned()
}

fn hex_digit(n: u8) -> (r: &'static str)
    requires
        n < 16,
    ensures
        r@ == seq![hex_char(n as int)],
{
    let r = match n {
        0 => "0",
        1 => "1",
        2 => "2",
        3 => "3",
        4 => "4",
        5 => "5",
        6 => "6",
        7 => "7",
        8 => "8",
        9 => "9",
        10 => "a",
        11 => "b",
        12 => "c",
        13 => "d",
        14 => "e",
        _ => "f",
    };
    proof {
        reveal_strlit("0");
        reveal_strlit("1");
        reveal_strlit("2");
        reveal_strlit("3");
        reveal_strlit("4");
        reveal_strlit("5");
        reveal_strlit("6");
        reveal_strlit("7");
        reveal_strlit("8");
        reveal_strlit("9");
        reveal_strlit("a");
        reveal_strlit("b");
        reveal_strlit("c");
        reveal_strlit("d");
        reveal_strlit("e");
        reveal_strlit("f");
        assert(r@ =~= seq![hex_char(n as int)]);
    }
    r
}

/// Formats a UUID as `xxxxxxxx-xxxx-xxxx-xxxx-xxxxxxxxxxxx`.
pub fn format_uuid(u: &[u8; 16]) -> (r: String)
    ensures
        r@ == uuid_text(u@),
{
    broadcast use vstd::array::group_array_axioms;
    let mut s = String::new();
    let mut i: usize = 0;
    while i < 16
        invariant
            0 <= i <= 16,
            u@.len() == 16,
            s@ == uuid_text_upto(u@, i as int),
        decreases 16 - i,
    {
        if i == 4 || i == 6 || i == 8 || i == 10 {
            proof {
                reveal_strlit("-");
            }
            s.append("-");
        }
        let b = u[i];
        s.append(hex_digit(b / 16));
        s.append(hex_digit(b % 16));
        proof {
            assert(u@[i as int] == b);
            assert(s@ =~= uuid_text_upto(u@, i + 1));
        }
        i = i + 1;
    }
    s
}

} // verus!
