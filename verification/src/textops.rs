//! Verified text operations: decimal rendering of indices and bounds,
//! character-level prefix, suffix and substring search, and the email and
//! URL shape checks.

use vstd::prelude::*;

verus! {

broadcast use vstd::string::group_string_axioms;

/// The decimal digits of `n`, most significant first.
pub open spec fn dec_of(n: nat) -> Seq<char>
    decreases n,
{
    if n < 10 {
        seq![digit_char(n)]
    } else {
        dec_of(n / 10).push(digit_char(n % 10))
    }
}

/// The character for one decimal digit.
pub open spec fn digit_char(d: nat) -> char {
    if d == 0 {
        '0'
    } else if d == 1 {
        '1'
    } else if d == 2 {
        '2'
    } else if d == 3 {
        '3'
    } else if d == 4 {
        '4'
    } else if d == 5 {
        '5'
    } else if d == 6 {
        '6'
    } else if d == 7 {
        '7'
    } else if d == 8 {
        '8'
    } else {
        '9'
    }
}

/// The one-character text for a decimal digit.
fn digit_str(d: usize) -> (s: &'static str)
    requires
        d < 10,
    ensures
        s@ == seq![digit_char(d as nat)],
{
    proof {
        reveal_strlit("0");
        reveal_strlit("1");
        reveal_strlit("2");
        reveal_strlit("3");
        reveal_strlit("4");
        reveal_strlit("5");
        reveal_strlit("6");
        reveal_strlit("7");
        reveal_strlit("8");
        reveal_strlit("9");
    }
    let s: &'static str = if d == 0 {
        "0"
    } else if d == 1 {
        "1"
    } else if d == 2 {
        "2"
    } else if d == 3 {
        "3"
    } else if d == 4 {
        "4"
    } else if d == 5 {
        "5"
    } else if d == 6 {
        "6"
    } else if d == 7 {
        "7"
    } else if d == 8 {
        "8"
    } else {
        "9"
    };
    proof {
        assert(s@ =~= seq![digit_char(d as nat)]);
    }
    s
}

/// The decimal rendering of `n`, as list indices and size bounds are shown
/// in issue paths and messages.
pub fn usize_to_string(n: usize) -> (s: String)
    ensures
        s@ == dec_of(n as nat),
    decreases n,
{
    if n < 10 {
        digit_str(n).to_owned()
    } else {
        let mut s = usize_to_string(n / 10);
        s.append(digit_str(n % 10));
        proof {
            assert(dec_of((n / 10) as nat) + seq![digit_char((n % 10) as nat)] =~= dec_of(
                n as nat,
            ));
        }
        s
    }
}

/// The byte length of a text: the length of its UTF-8 encoding, as the
/// machine word that text length bounds are compared against.
pub open spec fn byte_len(s: Seq<char>) -> usize {
    vstd::utf8::encode_utf8(s).len() as usize
}

/// `p` is a prefix of `s`.
pub open spec fn is_prefix(p: Seq<char>, s: Seq<char>) -> bool {
    p.len() <= s.len() && s.subrange(0, p.len() as int) == p
}

/// `p` is a suffix of `s`.
pub open spec fn is_suffix(p: Seq<char>, s: Seq<char>) -> bool {
    p.len() <= s.len() && s.subrange(s.len() - p.len(), s.len() as int) == p
}

/// `p` occurs in `s` starting at `i`.
pub open spec fn occurs_at(p: Seq<char>, s: Seq<char>, i: int) -> bool {
    0 <= i && i + p.len() <= s.len() && s.subrange(i, i + p.len()) == p
}

/// `p` occurs somewhere in `s`.
pub open spec fn is_substring(p: Seq<char>, s: Seq<char>) -> bool {
    exists|i: int| occurs_at(p, s, i)
}

/// Whether `p` occurs in `s` starting at position `i`.
#[verifier::loop_isolation(false)]
fn matches_at(s: &str, slen: usize, p: &str, plen: usize, i: usize) -> (r: bool)
    requires
        slen == s@.len(),
        plen == p@.len(),
        i + plen <= slen,
    ensures
        r == occurs_at(p@, s@, i as int),
{
    let mut k: usize = 0;
    while k < plen
        invariant
            k <= plen,
            forall|j: int| 0 <= j < k ==> s@[i + j] == p@[j],
        decreases plen - k,
    {
        if s.get_char(i + k) != p.get_char(k) {
            proof {
                assert(s@.subrange(i as int, i + p@.len())[k as int] != p@[k as int]);
            }
            return false;
        }
        k = k + 1;
    }
    proof {
        assert(s@.subrange(i as int, i + p@.len()) =~= p@);
    }
    true
}

/// Whether `p` is a prefix of `s`.
pub fn text_starts_with(s: &str, p: &str) -> (r: bool)
    ensures
        r == is_prefix(p@, s@),
{
    let slen = s.unicode_len();
    let plen = p.unicode_len();
    if plen > slen {
        return false;
    }
    let r = matches_at(s, slen, p, plen, 0);
    proof {
        assert(occurs_at(p@, s@, 0) == is_prefix(p@, s@));
    }
    r
}

/// Whether `p` is a suffix of `s`.
pub fn text_ends_with(s: &str, p: &str) -> (r: bool)
    ensures
        r == is_suffix(p@, s@),
{
    let slen = s.unicode_len();
    let plen = p.unicode_len();
    if plen > slen {
        return false;
    }
    let r = matches_at(s, slen, p, plen, slen - plen);
    proof {
        assert(occurs_at(p@, s@, s@.len() - p@.len()) == is_suffix(p@, s@));
    }
    r
}

/// Whether `p` occurs anywhere in `s`.
#[verifier::loop_isolation(false)]
pub fn text_contains(s: &str, p: &str) -> (r: bool)
    ensures
        r == is_substring(p@, s@),
{
    let slen = s.unicode_len();
    let plen = p.unicode_len();
    if plen > slen {
        proof {
            assert(forall|i: int| !occurs_at(p@, s@, i));
        }
        return false;
    }
    if plen == 0 {
        proof {
            assert(s@.subrange(0, 0) =~= p@);
            assert(occurs_at(p@, s@, 0));
        }
        return true;
    }
    let mut i: usize = 0;
    while i <= slen - plen
        invariant
            i <= slen - plen + 1,
            1 <= plen <= slen,
            forall|j: int| 0 <= j < i ==> !occurs_at(p@, s@, j),
        decreases slen - i,
    {
        if matches_at(s, slen, p, plen, i) {
            return true;
        }
        i = i + 1;
    }
    proof {
        assert(forall|j: int| occurs_at(p@, s@, j) ==> 0 <= j < i);
    }
    false
}

/// Whether two texts hold the same characters.
#[verifier::loop_isolation(false)]
pub fn text_equal(a: &str, b: &str) -> (r: bool)
    ensures
        r == (a@ == b@),
{
    let alen = a.unicode_len();
    let blen = b.unicode_len();
    if alen != blen {
        return false;
    }
    let mut k: usize = 0;
    while k < alen
        invariant
            k <= alen,
            alen == a@.len() == b@.len(),
            forall|j: int| 0 <= j < k ==> a@[j] == b@[j],
        decreases alen - k,
    {
        if a.get_char(k) != b.get_char(k) {
            return false;
        }
        k = k + 1;
    }
    proof {
        assert(a@ =~= b@);
    }
    true
}

/// The whitespace characters that the email shape rejects: the characters
/// with the Unicode White_Space property.
pub open spec fn is_space_char(c: char) -> bool {
    c == '\u{9}' || c == '\u{a}' || c == '\u{b}' || c == '\u{c}' || c == '\u{d}' || c == ' '
        || c == '\u{85}' || c == '\u{a0}' || c == '\u{1680}' || ('\u{2000}' <= c && c
        <= '\u{200a}') || c == '\u{2028}' || c == '\u{2029}' || c == '\u{202f}' || c == '\u{205f}'
        || c == '\u{3000}'
}

/// The text splits as an email at the `@` in position `i`: the `@` is the
/// only one, something precedes it, and a dot follows it with at least one
/// character on each side.
pub open spec fn email_split_at(s: Seq<char>, i: int) -> bool {
    &&& 1 <= i < s.len()
    &&& s[i] == '@'
    &&& forall|k: int| 0 <= k < s.len() && k != i ==> s[k] != '@'
    &&& exists|j: int| i + 2 <= j <= s.len() - 2 && s[j] == '.'
}

/// The email shape: no whitespace, one `@` with a nonempty local part, and
/// a dot in the domain with at least one character on each side.
pub open spec fn is_email(s: Seq<char>) -> bool {
    &&& forall|k: int| 0 <= k < s.len() ==> !is_space_char(s[k])
    &&& exists|i: int| email_split_at(s, i)
}

/// Whether a character is whitespace in the sense of the email shape.
fn space_char(c: char) -> (r: bool)
    ensures
        r == is_space_char(c),
{
    c == '\u{9}' || c == '\u{a}' || c == '\u{b}' || c == '\u{c}' || c == '\u{d}' || c == ' '
        || c == '\u{85}' || c == '\u{a0}' || c == '\u{1680}' || ('\u{2000}' <= c && c
        <= '\u{200a}') || c == '\u{2028}' || c == '\u{2029}' || c == '\u{202f}' || c == '\u{205f}'
        || c == '\u{3000}'
}

/// Whether the text has the email shape.
#[verifier::loop_isolation(false)]
pub fn is_valid_email(s: &str) -> (r: bool)
    ensures
        r == is_email(s@),
{
    let slen = s.unicode_len();
    // No whitespace anywhere, and exactly one `@`.
    let mut at_pos: usize = 0;
    let mut at_seen: bool = false;
    let mut k: usize = 0;
    while k < slen
        invariant
            k <= slen,
            slen == s@.len(),
            forall|j: int| 0 <= j < k ==> !is_space_char(s@[j]),
            at_seen ==> at_pos < k && s@[at_pos as int] == '@',
            forall|j: int| 0 <= j < k && j != at_pos ==> s@[j] != '@',
            !at_seen ==> forall|j: int| 0 <= j < k ==> s@[j] != '@',
        decreases slen - k,
    {
        let c = s.get_char(k);
        if space_char(c) {
            proof {
                assert(!is_email(s@));
            }
            return false;
        }
        if c == '@' {
            if at_seen {
                proof {
                    assert forall|i: int| !email_split_at(s@, i) by {
                        if email_split_at(s@, i) {
                            if i != at_pos {
                                assert(s@[at_pos as int] == '@');
                            } else {
                                assert(s@[k as int] == '@');
                            }
                        }
                    }
                }
                return false;
            }
            at_pos = k;
            at_seen = true;
        }
        k = k + 1;
    }
    if !at_seen {
        proof {
            assert forall|i: int| !email_split_at(s@, i) by {
                if email_split_at(s@, i) {
                    assert(s@[i] == '@');
                }
            }
        }
        return false;
    }
    if at_pos == 0 {
        proof {
            assert forall|i: int| !email_split_at(s@, i) by {
                if email_split_at(s@, i) {
                    if i != 0 {
                        assert(s@[i] != '@');
                    }
                }
            }
        }
        return false;
    }
    // A dot with at least one character on each side, after the `@`.
    if slen < 5 || at_pos > slen - 4 {
        proof {
            assert forall|i: int| !email_split_at(s@, i) by {
                if email_split_at(s@, i) {
                    assert(i == at_pos);
                }
            }
        }
        return false;
    }
    let mut j: usize = at_pos + 2;
    while j <= slen - 2
        invariant
            at_pos + 2 <= j <= slen - 1,
            slen == s@.len(),
            slen >= 2,
            at_pos >= 1,
            s@[at_pos as int] == '@',
            forall|t: int| 0 <= t < s@.len() && t != at_pos ==> s@[t] != '@',
            forall|t: int| 0 <= t < s@.len() ==> !is_space_char(s@[t]),
            forall|t: int| at_pos + 2 <= t < j ==> s@[t] != '.',
        decreases slen - j,
    {
        if s.get_char(j) == '.' {
            proof {
                assert(email_split_at(s@, at_pos as int));
            }
            return true;
        }
        j = j + 1;
    }
    proof {
        assert forall|i: int| !email_split_at(s@, i) by {
            if email_split_at(s@, i) {
                assert(i == at_pos);
            }
        }
    }
    false
}

/// The URL shape: an `http://` or `https://` scheme prefix.
pub open spec fn is_url(s: Seq<char>) -> bool {
    is_prefix("http://"@, s) || is_prefix("https://"@, s)
}

/// Whether the text has the URL shape.
pub fn is_valid_url(s: &str) -> (r: bool)
    ensures
        r == is_url(s@),
{
    text_starts_with(s, "http://") || text_starts_with(s, "https://")
}

} // verus!
