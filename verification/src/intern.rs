//! Names of domains, tables and columns, and the grammar they obey.

use vstd::prelude::*;
use vstd::string::is_ascii_spec_bytes;
use vstd::string::is_ascii;
use vstd::string::StringSliceAdditionalSpecFns;
use vstd::utf8::encode_utf8;
use vstd::utf8::encode_utf8_decode_utf8;

verus! {

/// An ASCII letter.
pub open spec fn is_letter(c: char) -> bool {
    ('a' <= c && c <= 'z') || ('A' <= c && c <= 'Z')
}

/// A character that may follow the first one of a name.
pub open spec fn is_name_char(c: char) -> bool {
    is_letter(c) || c == '_' || ('0' <= c && c <= '9')
}

/// The grammar of names: a letter, then letters, digits and underscores.
pub open spec fn valid_name(s: Seq<char>) -> bool {
    &&& s.len() > 0
    &&& is_letter(s[0])
    &&& forall|i: int| 0 < i < s.len() ==> is_name_char(#[trigger] s[i])
}

/// Two strings with the same bytes hold the same characters.
pub proof fn lemma_bytes_determine_chars(a: Seq<char>, b: Seq<char>)
    requires
        encode_utf8(a) == encode_utf8(b),
    ensures
        a == b,
{
    encode_utf8_decode_utf8(a);
    encode_utf8_decode_utf8(b);
}

/// Whether two strings hold the same characters.
pub fn str_eq(a: &str, b: &str) -> (same: bool)
    ensures
        same == (a@ == b@),
{
    let x = a.as_bytes();
    let y = b.as_bytes();
    if x.len() != y.len() {
        return false;
    }
    let mut i: usize = 0;
    while i < x.len()
        invariant
            x@ == a.spec_bytes(),
            y@ == b.spec_bytes(),
            x@.len() == y@.len(),
            i <= x@.len(),
            forall|k: int| 0 <= k < i ==> x@[k] == y@[k],
        decreases x@.len() - i,
    {
        if x[i] != y[i] {
            return false;
        }
        i += 1;
    }
    proof {
        assert(x@ =~= y@);
        lemma_bytes_determine_chars(a@, b@);
    }
    true
}

/// Whether the byte is an ASCII letter.
fn byte_is_letter(b: u8) -> (r: bool)
    ensures
        r == ((0x61 <= b && b <= 0x7a) || (0x41 <= b && b <= 0x5a)),
{
    (0x61 <= b && b <= 0x7a) || (0x41 <= b && b <= 0x5a)
}

/// Whether `name` obeys the grammar of names.
pub fn check_name(name: &str) -> (ok: bool)
    ensures
        ok == valid_name(name@),
{
    if !name.is_ascii() {
        proof {
            let i = choose|i: int| 0 <= i < name@.len() && !('\0' <= #[trigger] name@[i] <= '\u{7f}');
            assert(!is_name_char(name@[i]));
            assert(!is_letter(name@[i]));
        }
        return false;
    }
    let bytes = name.as_bytes();
    proof {
        is_ascii_spec_bytes(name);
        assert(bytes@.len() == name@.len());
        assert(forall|k: int| 0 <= k < bytes@.len() ==> bytes@[k] == name@[k] as u8);
    }
    let n = bytes.len();
    if n == 0 {
        return false;
    }
    if !byte_is_letter(bytes[0]) {
        return false;
    }
    let mut i: usize = 1;
    while i < n
        invariant
            is_ascii(name),
            n == name@.len(),
            n == bytes@.len(),
            forall|k: int| 0 <= k < n ==> bytes@[k] == name@[k] as u8,
            1 <= i <= n,
            forall|k: int| 0 < k < i ==> is_name_char(#[trigger] name@[k]),
        decreases n - i,
    {
        let b = bytes[i];
        if !(byte_is_letter(b) || b == 0x5f || (0x30 <= b && b <= 0x39)) {
            assert(!is_name_char(name@[i as int]));
            return false;
        }
        i += 1;
    }
    true
}

} // verus!
