//! Upper-case hexadecimal rendering of byte strings, and its inverse.
use vstd::prelude::*;

verus! {

/// The upper-case hexadecimal digit for a value below 16.
pub open spec fn hex_digit(n: u8) -> char {
    if n < 10 {
        (48 + n) as char
    } else {
        (55 + n) as char
    }
}

/// A character that is a decimal digit or one of `A` to `F`.
pub open spec fn is_upper_hex_digit(c: char) -> bool {
    ('0' <= c && c <= '9') || ('A' <= c && c <= 'F')
}

/// The value of an upper-case hexadecimal digit.
pub open spec fn digit_value(c: char) -> int {
    if '0' <= c && c <= '9' {
        c as int - 48
    } else {
        c as int - 55
    }
}

/// Two digits for each byte, the high half first.
pub open spec fn hex_of(b: Seq<u8>) -> Seq<char>
    decreases b.len(),
{
    if b.len() == 0 {
        Seq::empty()
    } else {
        hex_of(b.drop_last()) + seq![hex_digit(b.last() / 16), hex_digit(b.last() % 16)]
    }
}

/// Reads each pair of digits back into a byte.
pub open spec fn unhex(s: Seq<char>) -> Seq<u8> {
    Seq::new(
        s.len() / 2,
        |i: int| (digit_value(s[2 * i]) * 16 + digit_value(s[2 * i + 1])) as u8,
    )
}

proof fn lemma_digit(n: u8)
    requires
        n < 16,
    ensures
        is_upper_hex_digit(hex_digit(n)),
        digit_value(hex_digit(n)) == n as int,
{
}

proof fn lemma_hex_of_index(b: Seq<u8>)
    ensures
        hex_of(b).len() == 2 * b.len(),
        forall|i: int|
            0 <= i < b.len() ==> hex_of(b)[2 * i] == hex_digit(#[trigger] b[i] / 16) && hex_of(
                b,
            )[2 * i + 1] == hex_digit(b[i] % 16),
    decreases b.len(),
{
    if b.len() > 0 {
        let d = b.drop_last();
        lemma_hex_of_index(d);
        assert forall|i: int| 0 <= i < b.len() implies hex_of(b)[2 * i] == hex_digit(
            #[trigger] b[i] / 16,
        ) && hex_of(b)[2 * i + 1] == hex_digit(b[i] % 16) by {
            if i < d.len() {
                assert(b[i] == d[i]);
            }
        }
    }
}

/// Every rendered character is an upper-case hexadecimal digit, and reading
/// the digits back in pairs gives the original bytes.
pub proof fn lemma_hex_round_trip(b: Seq<u8>)
    ensures
        forall|i: int| 0 <= i < hex_of(b).len() ==> is_upper_hex_digit(#[trigger] hex_of(b)[i]),
        unhex(hex_of(b)) == b,
{
    lemma_hex_of_index(b);
    assert forall|i: int| 0 <= i < hex_of(b).len() implies is_upper_hex_digit(
        #[trigger] hex_of(b)[i],
    ) by {
        let k = i / 2;
        assert(b[k] == b[k]);
        lemma_digit(b[k] / 16);
        lemma_digit(b[k] % 16);
        if i % 2 == 0 {
            assert(i == 2 * k);
        } else {
            assert(i == 2 * k + 1);
        }
    }
    assert forall|k: int| 0 <= k < b.len() implies #[trigger] unhex(hex_of(b))[k] == b[k] by {
        lemma_digit(b[k] / 16);
        lemma_digit(b[k] % 16);
    }
    assert(unhex(hex_of(b)) =~= b);
}

/// Executable form of `hex_digit`.
pub fn hex_digit_char(n: u8) -> (c: char)
    requires
        n < 16,
    ensures
        c == hex_digit(n),
{
    if n < 10 {
        (48u8 + n) as char
    } else {
        (55u8 + n) as char
    }
}

/// Renders the bytes as upper-case hexadecimal, two digits per byte.
pub fn hex_upper(b: &Vec<u8>) -> (r: String)
    ensures
        r@ == hex_of(b@),
{
    let mut r = String::new();
    let mut i: usize = 0;
    while i < b.len()
        invariant
            i <= b@.len(),
            r@ == hex_of(b@.subrange(0, i as int)),
        decreases b@.len() - i,
    {
        let x = b[i];
        r.push(hex_digit_char(x / 16));
        r.push(hex_digit_char(x % 16));
        i = i + 1;
        assert(b@.subrange(0, i as int).drop_last() =~= b@.subrange(0, i - 1));
    }
    assert(b@.subrange(0, b@.len() as int) =~= b@);
    r
}

} // verus!
