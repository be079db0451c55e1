//! Whitespace, equality and prefixes of text.

use vstd::prelude::*;
use vstd::utf8::encode_utf8;

verus! {

/// The characters with the Unicode property `White_Space`.
pub open spec fn is_white_space(c: char) -> bool {
    ||| '\u{9}' <= c <= '\u{d}'
    ||| c == ' '
    ||| c == '\u{85}'
    ||| c == '\u{a0}'
    ||| c == '\u{1680}'
    ||| '\u{2000}' <= c <= '\u{200a}'
    ||| c == '\u{2028}'
    ||| c == '\u{2029}'
    ||| c == '\u{202f}'
    ||| c == '\u{205f}'
    ||| c == '\u{3000}'
}

/// `s` without its leading whitespace.
pub open spec fn trim_start(s: Seq<char>) -> Seq<char>
    decreases s.len(),
{
    if s.len() > 0 && is_white_space(s.first()) {
        trim_start(s.drop_first())
    } else {
        s
    }
}

/// `s` without its trailing whitespace.
pub open spec fn trim_end(s: Seq<char>) -> Seq<char>
    decreases s.len(),
{
    if s.len() > 0 && is_white_space(s.last()) {
        trim_end(s.drop_last())
    } else {
        s
    }
}

/// `s` without the whitespace at both ends.
pub open spec fn trimmed(s: Seq<char>) -> Seq<char> {
    trim_end(trim_start(s))
}

/// `str::trim` returns the text without its leading and trailing whitespace, where whitespace
/// is the Unicode property `White_Space`.
pub assume_specification[ str::trim ](s: &str) -> (r: &str)
    ensures
        r@ == trimmed(s@),
;

/// Calls `str::starts_with` with a string pattern: whether the text begins with the pattern.
#[verifier::external_body]
pub(crate) fn starts_with(s: &str, prefix: &str) -> (r: bool)
    ensures
        r == prefix@.is_prefix_of(s@),
{
    s.starts_with(prefix)
}

/// Two texts with the same UTF-8 encoding are the same text.
pub proof fn utf8_is_injective(a: Seq<char>, b: Seq<char>)
    ensures
        encode_utf8(a) == encode_utf8(b) ==> a == b,
{
    vstd::utf8::encode_utf8_decode_utf8(a);
    vstd::utf8::encode_utf8_decode_utf8(b);
}

/// Whether two texts are equal.
pub fn same_text(a: &str, b: &str) -> (r: bool)
    ensures
        r == (a@ == b@),
{
    let x: &[u8] = a.as_bytes();
    let y: &[u8] = b.as_bytes();
    proof {
        utf8_is_injective(a@, b@);
    }
    if x.len() != y.len() {
        return false;
    }
    let n: usize = x.len();
    let mut i: usize = 0;
    while i < n
        invariant
            i <= n,
            n == x@.len(),
            n == y@.len(),
            x@ == encode_utf8(a@),
            y@ == encode_utf8(b@),
            forall|k: int| 0 <= k < i ==> x@[k] == y@[k],
        decreases n - i,
    {
        if x[i] != y[i] {
            return false;
        }
        i += 1;
    }
    assert(x@ =~= y@);
    true
}

/// Leading whitespace is gone after [`trim_start`], and what is left is a suffix of the text.
pub proof fn trim_start_facts(s: Seq<char>)
    ensures
        trim_start(s).is_suffix_of(s),
        trim_start(s).len() > 0 ==> !is_white_space(trim_start(s).first()),
        trim_start(s).len() == 0 <==> (forall|i: int| 0 <= i < s.len() ==> is_white_space(s[i])),
    decreases s.len(),
{
    if s.len() > 0 && is_white_space(s.first()) {
        let t = s.drop_first();
        trim_start_facts(t);
        if trim_start(s).len() == 0 {
            assert forall|i: int| 0 <= i < s.len() implies is_white_space(s[i]) by {
                if i > 0 {
                    assert(s[i] == t[i - 1]);
                }
            }
        } else {
            let j = choose|j: int| 0 <= j < t.len() && !is_white_space(t[j]);
            assert(s[j + 1] == t[j]);
        }
    } else if s.len() > 0 {
        assert(!is_white_space(s[0]));
    }
}

/// Trailing whitespace is gone after [`trim_end`], and what is left is a prefix of the text.
pub proof fn trim_end_facts(s: Seq<char>)
    ensures
        trim_end(s).is_prefix_of(s),
        trim_end(s).len() > 0 ==> !is_white_space(trim_end(s).last()),
        trim_end(s).len() == 0 <==> (forall|i: int| 0 <= i < s.len() ==> is_white_space(s[i])),
    decreases s.len(),
{
    if s.len() > 0 && is_white_space(s.last()) {
        let t = s.drop_last();
        trim_end_facts(t);
        if trim_end(s).len() == 0 {
            assert forall|i: int| 0 <= i < s.len() implies is_white_space(s[i]) by {
                if i < s.len() - 1 {
                    assert(s[i] == t[i]);
                }
            }
        } else {
            let j = choose|j: int| 0 <= j < t.len() && !is_white_space(t[j]);
            assert(s[j] == t[j]);
        }
    } else if s.len() > 0 {
        assert(!is_white_space(s[s.len() - 1]));
    }
}

/// Trimmed text is empty exactly when the text is blank, and never begins or ends with
/// whitespace.
pub proof fn trimmed_facts(s: Seq<char>)
    ensures
        trimmed(s).len() == 0 <==> (forall|i: int| 0 <= i < s.len() ==> is_white_space(s[i])),
        trimmed(s).len() > 0 ==> !is_white_space(trimmed(s).first()),
        trimmed(s).len() > 0 ==> !is_white_space(trimmed(s).last()),
{
    let t = trim_start(s);
    trim_start_facts(s);
    trim_end_facts(t);
    if t.len() > 0 {
        assert(!is_white_space(t[0]));
        assert(trim_end(t).len() > 0);
        assert(trim_end(t)[0] == t[0]);
    }
}

/// Trimming text that was trimmed changes nothing.
pub proof fn trimming_is_idempotent(s: Seq<char>)
    ensures
        trimmed(trimmed(s)) == trimmed(s),
{
    trimmed_facts(s);
}

} // verus!
