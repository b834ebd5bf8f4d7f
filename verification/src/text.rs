//! Text fields of a ticket: NUL-padded byte strings.

use vstd::prelude::*;
use vstd::string::StrSliceExecFns;
use vstd::utf8::{valid_utf8, decode_utf8};

verus! {

/// The characters that `String::from_utf8_lossy` makes of `bytes`: the
/// UTF-8 decoding, with each invalid sequence replaced by U+FFFD.
pub uninterp spec fn utf8_lossy(bytes: Seq<u8>) -> Seq<char>;

/// The lossy decoding of `bytes`: for valid UTF-8 the plain decoding.
pub open spec fn lossy_decode(bytes: Seq<u8>) -> Seq<char> {
    if valid_utf8(bytes) {
        decode_utf8(bytes)
    } else {
        utf8_lossy(bytes)
    }
}

/// `s` without its trailing NUL characters.
pub open spec fn trim_nul(s: Seq<char>) -> Seq<char>
    decreases s.len(),
{
    if s.len() > 0 && s.last() == '\0' {
        trim_nul(s.drop_last())
    } else {
        s
    }
}

/// Calls `String::from_utf8_lossy`. As std's documentation says, on valid
/// UTF-8 the result is the plain decoding; on other input it is named by
/// `utf8_lossy`.
#[verifier::external_body]
fn from_utf8_lossy(bytes: &[u8]) -> (r: String)
    ensures
        valid_utf8(bytes@) ==> r@ == decode_utf8(bytes@),
        !valid_utf8(bytes@) ==> r@ == utf8_lossy(bytes@),
{
    String::from_utf8_lossy(bytes).into_owned()
}

/// The text of a NUL-padded field: the lossy UTF-8 decoding of `bytes`
/// with the trailing NUL characters removed.
pub open spec fn spec_decode_string(bytes: Seq<u8>) -> Seq<char> {
    trim_nul(lossy_decode(bytes))
}

proof fn lemma_trim_nul_take(s: Seq<char>, k: int)
    requires
        0 <= k <= s.len(),
        forall|i: int| k <= i < s.len() ==> s[i] == '\0',
    ensures
        trim_nul(s) == trim_nul(s.take(k)),
    decreases s.len() - k,
{
    if k < s.len() {
        assert(s.drop_last().take(k) =~= s.take(k));
        lemma_trim_nul_take(s.drop_last(), k);
    } else {
        assert(s.take(k) =~= s);
    }
}

/// Decode a string from a byte slice.
pub fn decode_string(bytes: &[u8]) -> (r: String)
    ensures
        r@ == spec_decode_string(bytes@),
{
    let s = from_utf8_lossy(bytes);
    let st = s.as_str();
    let mut k = st.unicode_len();
    while k > 0 && st.get_char(k - 1) == '\0'
        invariant
            k <= st@.len(),
            st@ == lossy_decode(bytes@),
            forall|i: int| k <= i < st@.len() ==> st@[i] == '\0',
        decreases k,
    {
        k = k - 1;
    }
    proof {
        lemma_trim_nul_take(st@, k as int);
        assert(trim_nul(st@.take(k as int)) == st@.take(k as int)) by {
            if k > 0 {
                assert(st@.take(k as int).last() == st@[k - 1]);
            }
        }
        assert(st@.subrange(0, k as int) =~= st@.take(k as int));
    }
    st.substring_char(0, k).to_owned()
}

} // verus!
