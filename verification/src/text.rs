//! Whitespace and trimming of text, as the registry's validation uses them.

use vstd::prelude::*;

verus! {

/// Whether `c` has the Unicode property `White_Space`.
pub open spec fn is_white_space(c: char) -> bool {
    let n = c as u32;
    ||| 0x09 <= n <= 0x0D
    ||| n == 0x20
    ||| n == 0x85
    ||| n == 0xA0
    ||| n == 0x1680
    ||| 0x2000 <= n <= 0x200A
    ||| n == 0x2028
    ||| n == 0x2029
    ||| n == 0x202F
    ||| n == 0x205F
    ||| n == 0x3000
}

/// `s` without its leading whitespace.
pub open spec fn trim_start(s: Seq<char>) -> Seq<char>
    decreases s.len(),
{
    if s.len() > 0 && is_white_space(s[0]) {
        trim_start(s.drop_first())
    } else {
        s
    }
}

/// `s` without its trailing whitespace.
pub open spec fn trim_end(s: Seq<char>) -> Seq<char>
    decreases s.len(),
{
    if s.len() > 0 && is_white_space(s.last()) {
        trim_end(s.drop_last())
    } else {
        s
    }
}

/// `s` without its leading and trailing whitespace.
pub open spec fn trimmed(s: Seq<char>) -> Seq<char> {
    trim_end(trim_start(s))
}

/// Whether `s` neither begins nor ends with whitespace.
pub open spec fn is_trimmed(s: Seq<char>) -> bool {
    s.len() > 0 ==> !is_white_space(s[0]) && !is_white_space(s.last())
}

/// Whether every character of `s` is whitespace.
pub open spec fn is_blank(s: Seq<char>) -> bool {
    forall|i: int| 0 <= i < s.len() ==> is_white_space(#[trigger] s[i])
}

/// `trim_start` cuts a prefix of whitespace off `s` and stops at the first
/// character that is not whitespace.
pub proof fn lemma_trim_start(s: Seq<char>)
    ensures
        trim_start(s).len() <= s.len(),
        trim_start(s) == s.subrange(s.len() - trim_start(s).len(), s.len() as int),
        is_blank(s.subrange(0, s.len() - trim_start(s).len())),
        trim_start(s).len() > 0 ==> !is_white_space(trim_start(s)[0]),
    decreases s.len(),
{
    if s.len() > 0 && is_white_space(s[0]) {
        let rest = s.drop_first();
        lemma_trim_start(rest);
        let k = rest.len() - trim_start(rest).len();
        assert(rest.subrange(k, rest.len() as int) == s.subrange(k + 1, s.len() as int));
        assert forall|i: int| 0 <= i < k + 1 implies is_white_space(
            #[trigger] s.subrange(0, k + 1)[i],
        ) by {
            if i > 0 {
                assert(s.subrange(0, k + 1)[i] == rest.subrange(0, k)[i - 1]);
            }
        }
    } else {
        assert(s.subrange(0, s.len() as int) == s);
    }
}

/// `trim_end` cuts a suffix of whitespace off `s` and stops at the last
/// character that is not whitespace.
pub proof fn lemma_trim_end(s: Seq<char>)
    ensures
        trim_end(s).len() <= s.len(),
        trim_end(s) == s.subrange(0, trim_end(s).len() as int),
        is_blank(s.subrange(trim_end(s).len() as int, s.len() as int)),
        trim_end(s).len() > 0 ==> !is_white_space(trim_end(s).last()),
    decreases s.len(),
{
    if s.len() > 0 && is_white_space(s.last()) {
        let rest = s.drop_last();
        lemma_trim_end(rest);
        let k = trim_end(rest).len() as int;
        assert(rest.subrange(0, k) == s.subrange(0, k));
        assert forall|i: int| 0 <= i < s.len() - k implies is_white_space(
            #[trigger] s.subrange(k, s.len() as int)[i],
        ) by {
            if i < rest.len() - k {
                assert(s.subrange(k, s.len() as int)[i] == rest.subrange(k, rest.len() as int)[i]);
            }
        }
    } else {
        assert(s.subrange(0, s.len() as int) == s);
    }
}

/// Trimming keeps one stretch of `s`: what lies before it and after it is
/// whitespace, and the stretch itself neither begins nor ends with
/// whitespace.
pub proof fn lemma_trimmed_is_core(s: Seq<char>) -> (bounds: (int, int))
    ensures
        0 <= bounds.0 <= bounds.1 <= s.len(),
        trimmed(s) == s.subrange(bounds.0, bounds.1),
        is_blank(s.subrange(0, bounds.0)),
        is_blank(s.subrange(bounds.1, s.len() as int)),
        is_trimmed(trimmed(s)),
{
    let mid = trim_start(s);
    lemma_trim_start(s);
    lemma_trim_end(mid);
    let from = s.len() - mid.len();
    let to = from + trimmed(s).len();
    assert(mid.subrange(0, trimmed(s).len() as int) == s.subrange(from, to));
    assert(mid.subrange(trimmed(s).len() as int, mid.len() as int) == s.subrange(
        to,
        s.len() as int,
    ));
    if trimmed(s).len() > 0 {
        assert(trimmed(s)[0] == mid[0]);
    }
    (from, to)
}

/// Text that neither begins nor ends with whitespace is its own trimming.
pub proof fn lemma_trimmed_fixed(s: Seq<char>)
    requires
        is_trimmed(s),
    ensures
        trimmed(s) == s,
{
}

/// Trimming twice is trimming once.
pub proof fn lemma_trimmed_idempotent(s: Seq<char>)
    ensures
        trimmed(trimmed(s)) == trimmed(s),
{
    let _ = lemma_trimmed_is_core(s);
    lemma_trimmed_fixed(trimmed(s));
}

/// Trimming leaves nothing exactly when the text is whitespace throughout.
pub proof fn lemma_trimmed_empty_iff_blank(s: Seq<char>)
    ensures
        trimmed(s).len() == 0 <==> is_blank(s),
{
    let (from, to) = lemma_trimmed_is_core(s);
    if trimmed(s).len() == 0 {
        assert forall|i: int| 0 <= i < s.len() implies is_white_space(#[trigger] s[i]) by {
            if i < from {
                assert(s[i] == s.subrange(0, from)[i]);
            } else {
                assert(s[i] == s.subrange(to, s.len() as int)[i - to]);
            }
        }
    } else {
        assert(trimmed(s)[0] == s[from]);
    }
}

/// The standard library's `str::trim`: the slice of `s` that is left when
/// leading and trailing whitespace is removed, whitespace being the
/// characters with the Unicode property `White_Space`.
#[verifier::external_body]
pub(crate) fn trim(s: &str) -> (t: &str)
    ensures
        t@ == trimmed(s@),
{
    s.trim()
}

} // verus!
