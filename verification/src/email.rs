use vstd::prelude::*;

verus! {

/// A character a submitted email may be padded with: the Unicode
/// white-space characters, the set `str::trim` removes.
pub open spec fn is_padding(c: char) -> bool {
    ||| c == ' '
    ||| '\u{0009}' <= c <= '\u{000D}'
    ||| c == '\u{0085}'
    ||| c == '\u{00A0}'
    ||| c == '\u{1680}'
    ||| '\u{2000}' <= c <= '\u{200A}'
    ||| c == '\u{2028}'
    ||| c == '\u{2029}'
    ||| c == '\u{202F}'
    ||| c == '\u{205F}'
    ||| c == '\u{3000}'
}

/// `s` without its leading padding.
pub open spec fn spec_trim_front(s: Seq<char>) -> Seq<char>
    decreases s.len(),
{
    if s.len() > 0 && is_padding(s[0]) {
        spec_trim_front(s.drop_first())
    } else {
        s
    }
}

/// `s` without its trailing padding.
pub open spec fn spec_trim_back(s: Seq<char>) -> Seq<char>
    decreases s.len(),
{
    if s.len() > 0 && is_padding(s.last()) {
        spec_trim_back(s.drop_last())
    } else {
        s
    }
}

/// `s` without leading and trailing padding.
pub open spec fn spec_trim(s: Seq<char>) -> Seq<char> {
    spec_trim_back(spec_trim_front(s))
}

/// `s` ends with `suffix`.
pub open spec fn has_suffix(s: Seq<char>, suffix: Seq<char>) -> bool {
    s.len() >= suffix.len() && s.skip(s.len() - suffix.len()) == suffix
}

/// The institutional domain every accepted email must end with.
pub open spec fn spec_required_suffix() -> Seq<char> {
    "@imperial.ac.uk"@
}

/// A trimmed candidate email is acceptable when it carries the institutional
/// domain as a suffix.
pub open spec fn spec_acceptable(e: Seq<char>) -> bool {
    has_suffix(e, spec_required_suffix())
}

/// Dropping every leading padding character yields the front-trimmed view.
proof fn lemma_trim_front_skip(s: Seq<char>, a: int)
    requires
        0 <= a <= s.len(),
        forall|k: int| 0 <= k < a ==> is_padding(s[k]),
        a == s.len() || !is_padding(s[a]),
    ensures
        spec_trim_front(s) == s.skip(a),
    decreases a,
{
    if a == 0 {
        assert(s.skip(0) =~= s);
    } else {
        assert(is_padding(s[0]));
        lemma_trim_front_skip(s.drop_first(), a - 1);
        assert(s.drop_first().skip(a - 1) =~= s.skip(a));
    }
}

/// Dropping every trailing padding character yields the back-trimmed view.
proof fn lemma_trim_back_take(s: Seq<char>, b: int)
    requires
        0 <= b <= s.len(),
        forall|k: int| b <= k < s.len() ==> is_padding(s[k]),
        b == 0 || !is_padding(s[b - 1]),
    ensures
        spec_trim_back(s) == s.take(b),
    decreases s.len(),
{
    if s.len() == b {
        assert(s.take(b) =~= s);
    } else {
        assert(is_padding(s.last()));
        lemma_trim_back_take(s.drop_last(), b);
        assert(s.drop_last().take(b) =~= s.take(b));
    }
}

/// Padding check on a single character.
fn is_padding_char(c: char) -> (r: bool)
    ensures
        r == is_padding(c),
{
    c == ' ' || ('\u{0009}' <= c && c <= '\u{000D}') || c == '\u{0085}' || c == '\u{00A0}'
        || c == '\u{1680}' || ('\u{2000}' <= c && c <= '\u{200A}') || c == '\u{2028}'
        || c == '\u{2029}' || c == '\u{202F}' || c == '\u{205F}' || c == '\u{3000}'
}

/// Removes leading and trailing padding from a submitted email.
pub fn trim(s: &str) -> (r: &str)
    ensures
        r@ == spec_trim(s@),
{
    let n = s.unicode_len();
    let mut a: usize = 0;
    loop
        invariant
            a <= n,
            n == s@.len(),
            forall|k: int| 0 <= k < a ==> is_padding(s@[k]),
        ensures
            a <= n,
            forall|k: int| 0 <= k < a ==> is_padding(s@[k]),
            a == n || !is_padding(s@[a as int]),
        decreases n - a,
    {
        if a < n && is_padding_char(s.get_char(a)) {
            a += 1;
        } else {
            break;
        }
    }
    let mut b: usize = n;
    loop
        invariant
            a <= b <= n,
            n == s@.len(),
            forall|k: int| b <= k < n ==> is_padding(s@[k]),
        ensures
            a <= b <= n,
            forall|k: int| b <= k < n ==> is_padding(s@[k]),
            b == a || !is_padding(s@[b - 1]),
        decreases b,
    {
        if b > a && is_padding_char(s.get_char(b - 1)) {
            b -= 1;
        } else {
            break;
        }
    }
    proof {
        lemma_trim_front_skip(s@, a as int);
        let t = s@.skip(a as int);
        assert(forall|k: int| b - a <= k < t.len() ==> is_padding(t[k]));
        if b > a {
            assert(t[b - a - 1] == s@[b - 1]);
            assert(!is_padding(t[b - a - 1]));
        }
        lemma_trim_back_take(t, b - a);
        assert(t.take(b - a) =~= s@.subrange(a as int, b as int));
    }
    s.substring_char(a, b)
}

/// Checks whether `s` ends with `suffix`, character for character.
pub fn ends_with_suffix(s: &str, suffix: &str) -> (r: bool)
    ensures
        r == has_suffix(s@, suffix@),
{
    let n = s.unicode_len();
    let m = suffix.unicode_len();
    if n < m {
        return false;
    }
    let off = n - m;
    let mut j: usize = 0;
    while j < m
        invariant
            n == s@.len(),
            m == suffix@.len(),
            off == n - m,
            j <= m,
            forall|k: int| 0 <= k < j ==> s@[off + k] == suffix@[k],
        decreases m - j,
    {
        if s.get_char(off + j) != suffix.get_char(j) {
            proof {
                assert(s@.skip(off as int)[j as int] == s@[off + j]);
            }
            return false;
        }
        j += 1;
    }
    proof {
        assert(s@.skip(off as int) =~= suffix@);
    }
    true
}

/// The institutional domain check, applied to a trimmed candidate.
pub fn is_acceptable(email: &str) -> (r: bool)
    ensures
        r == spec_acceptable(email@),
{
    ends_with_suffix(email, "@imperial.ac.uk")
}

} // verus!
