//! NovaMind addresses.
use crate::text::{chars_of, hex_digit_char, is_hex_digit};
use vstd::prelude::*;

verus! {

/// An address is `nvd_` followed by hexadecimal digits, 12 to 68 characters in all.
pub open spec fn is_nvd_address(a: Seq<char>) -> bool {
    &&& 12 <= a.len() <= 68
    &&& a.take(4) == seq!['n', 'v', 'd', '_']
    &&& forall|i: int| 4 <= i < a.len() ==> is_hex_digit(#[trigger] a[i])
}

/// An address has as many bytes as characters, so its bounds hold of either count.
pub proof fn law_address_is_ascii(a: Seq<char>)
    requires
        is_nvd_address(a),
    ensures
        crate::text::byte_len(a) == a.len(),
{
    assert forall|i: int| 0 <= i < a.len() implies (a[i] as nat) < 128 by {
        if i < 4 {
            assert(a.take(4)[i] == a[i]);
        }
    }
    vstd::utf8::is_ascii_chars_encode_utf8(a);
}

/// Whether `addr` is an address.
pub fn validate_nvd_address(addr: &str) -> (valid: bool)
    ensures
        valid == is_nvd_address(addr@),
{
    let a = chars_of(addr);
    let n: usize = a.len();
    if n < 12 || n > 68 {
        return false;
    }
    if a[0] != 'n' || a[1] != 'v' || a[2] != 'd' || a[3] != '_' {
        proof {
            assert(addr@.take(4)[0] == addr@[0]);
            assert(addr@.take(4)[1] == addr@[1]);
            assert(addr@.take(4)[2] == addr@[2]);
            assert(addr@.take(4)[3] == addr@[3]);
        }
        return false;
    }
    assert(addr@.take(4) == seq!['n', 'v', 'd', '_']);
    let mut i: usize = 4;
    while i < n
        invariant
            4 <= i <= n,
            n == a.len(),
            a@ == addr@,
            forall|j: int| 4 <= j < i ==> is_hex_digit(#[trigger] addr@[j]),
        decreases n - i,
    {
        if !hex_digit_char(a[i]) {
            return false;
        }
        i = i + 1;
    }
    true
}

/// An address is `nvd_` and 8 to 64 hexadecimal digits, whichever they are, and every such
/// text is one.
pub proof fn law_addresses(digits: Seq<char>)
    ensures
        is_nvd_address(seq!['n', 'v', 'd', '_'] + digits) <==> 8 <= digits.len() <= 64 && forall|
            i: int,
        |
            0 <= i < digits.len() ==> ('0' <= #[trigger] digits[i] <= '9' || 'a' <= digits[i]
                <= 'f' || 'A' <= digits[i] <= 'F'),
{
    let a = seq!['n', 'v', 'd', '_'] + digits;
    assert(a.take(4) =~= seq!['n', 'v', 'd', '_']);
    assert(forall|i: int| 0 <= i < digits.len() ==> #[trigger] digits[i] == a[i + 4]);
    assert(forall|i: int| 4 <= i < a.len() ==> #[trigger] a[i] == digits[i - 4]);
    if is_nvd_address(a) {
        assert forall|i: int| 0 <= i < digits.len() implies ('0' <= #[trigger] digits[i] <= '9'
            || 'a' <= digits[i] <= 'f' || 'A' <= digits[i] <= 'F') by {
            assert(is_hex_digit(a[i + 4]));
        }
    }
}

/// A text is taken for an address exactly where it is `nvd_` and 8 to 64 hexadecimal digits,
/// in either case.
pub proof fn law_address_check(addr: &str, valid: bool)
    requires
        call_ensures(validate_nvd_address, (addr,), valid),
    ensures
        valid <==> {
            &&& 12 <= addr@.len() <= 68
            &&& addr@[0] == 'n' && addr@[1] == 'v' && addr@[2] == 'd' && addr@[3] == '_'
            &&& forall|i: int|
                4 <= i < addr@.len() ==> ('0' <= #[trigger] addr@[i] <= '9' || 'a' <= addr@[i]
                    <= 'f' || 'A' <= addr@[i] <= 'F')
        },
        valid ==> addr@ == seq!['n', 'v', 'd', '_'] + addr@.skip(4),
{
    let start = addr@.take(4);
    if 12 <= addr@.len() {
        assert(start[0] == addr@[0] && start[1] == addr@[1] && start[2] == addr@[2] && start[3]
            == addr@[3]);
        if addr@[0] == 'n' && addr@[1] == 'v' && addr@[2] == 'd' && addr@[3] == '_' {
            assert(start =~= seq!['n', 'v', 'd', '_']);
        }
    }
    if valid {
        assert(addr@ =~= seq!['n', 'v', 'd', '_'] + addr@.skip(4));
    }
}

} // verus!
