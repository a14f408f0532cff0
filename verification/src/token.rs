//! Identifier tokens and their normal form.

use vstd::prelude::*;

verus! {

/// The lower-case form of a string, as Unicode's case mapping defines it.
pub uninterp spec fn lowercase_of(s: Seq<char>) -> Seq<char>;

/// `str::to_lowercase` returns the lower-case equivalent of the string as a
/// new `String`; the result depends on the characters alone.
pub assume_specification[ str::to_lowercase ](s: &str) -> (lowered: String)
    ensures
        lowered@ == lowercase_of(s@),
;

/// Whether a character is white space: one of the code points with
/// Unicode's property `White_Space`.
pub open spec fn is_white_space(c: char) -> bool {
    ||| '\u{9}' <= c <= '\u{d}'
    ||| c == ' '
    ||| c == '\u{85}'
    ||| c == '\u{a0}'
    ||| c == '\u{1680}'
    ||| '\u{2000}' <= c <= '\u{200a}'
    ||| c == '\u{2028}'
    ||| c == '\u{2029}'
    ||| c == '\u{202f}'
    ||| c == '\u{205f}'
    ||| c == '\u{3000}'
}

/// A string without the white space that it begins with.
pub open spec fn without_leading_white(s: Seq<char>) -> Seq<char>
    decreases s.len(),
{
    if s.len() > 0 && is_white_space(s[0]) {
        without_leading_white(s.subrange(1, s.len() as int))
    } else {
        s
    }
}

/// A string without the white space that it ends with.
pub open spec fn without_trailing_white(s: Seq<char>) -> Seq<char>
    decreases s.len(),
{
    if s.len() > 0 && is_white_space(s.last()) {
        without_trailing_white(s.drop_last())
    } else {
        s
    }
}

/// A string without its leading and trailing white space.
pub open spec fn trimmed(s: Seq<char>) -> Seq<char> {
    without_trailing_white(without_leading_white(s))
}

/// Whether a string holds nothing but white space.
pub open spec fn is_blank(s: Seq<char>) -> bool {
    forall|i: int| 0 <= i < s.len() ==> is_white_space(#[trigger] s[i])
}

proof fn lemma_leading_white(s: Seq<char>)
    ensures
        without_leading_white(s).len() == 0 <==> is_blank(s),
        without_leading_white(s).len() > 0 ==> !is_white_space(without_leading_white(s)[0]),
    decreases s.len(),
{
    if s.len() > 0 && is_white_space(s[0]) {
        let rest = s.subrange(1, s.len() as int);
        lemma_leading_white(rest);
        if is_blank(rest) {
            assert forall|i: int| 0 <= i < s.len() implies is_white_space(#[trigger] s[i]) by {
                if i > 0 {
                    assert(s[i] == rest[i - 1]);
                }
            }
        }
        if is_blank(s) {
            assert forall|i: int| 0 <= i < rest.len() implies is_white_space(
                #[trigger] rest[i],
            ) by {
                assert(rest[i] == s[i + 1]);
            }
        }
    }
}

proof fn lemma_trailing_white(s: Seq<char>)
    ensures
        without_trailing_white(s).len() == 0 <==> is_blank(s),
    decreases s.len(),
{
    if s.len() > 0 && is_white_space(s.last()) {
        let rest = s.drop_last();
        lemma_trailing_white(rest);
        if is_blank(rest) {
            assert forall|i: int| 0 <= i < s.len() implies is_white_space(#[trigger] s[i]) by {
                if i < rest.len() {
                    assert(s[i] == rest[i]);
                }
            }
        }
        if is_blank(s) {
            assert forall|i: int| 0 <= i < rest.len() implies is_white_space(
                #[trigger] rest[i],
            ) by {
                assert(rest[i] == s[i]);
            }
        }
    }
}

/// Trimming leaves nothing exactly of a string that holds nothing but
/// white space.
pub proof fn lemma_trimmed_empty_iff_blank(s: Seq<char>)
    ensures
        trimmed(s).len() == 0 <==> is_blank(s),
{
    lemma_leading_white(s);
    let rest = without_leading_white(s);
    lemma_trailing_white(rest);
    if rest.len() > 0 {
        assert(!is_white_space(rest[0]));
    }
}

/// `str::trim` returns the slice of the string that is left when leading
/// and trailing white space is taken away, white space being the characters
/// with Unicode's property `White_Space`.
pub assume_specification[ str::trim ](s: &str) -> (rest: &str)
    ensures
        rest@ == trimmed(s@),
;

/// `str`'s `==` holds of two strings with the same characters.
pub assume_specification[ <str as PartialEq>::eq ](a: &str, b: &str) -> (same: bool)
    ensures
        same == (a@ == b@),
;

/// `str::strip_prefix` returns the string without the prefix where the
/// string starts with it, and `None` where it does not.
#[verifier::external_body]
pub(crate) fn strip_prefix<'a>(s: &'a str, prefix: &str) -> (rest: Option<&'a str>)
    ensures
        match rest {
            Some(r) => s@ == prefix@ + r@,
            None => !prefix@.is_prefix_of(s@),
        },
{
    s.strip_prefix(prefix)
}

/// The normal form under which an identifier is stored and looked up in
/// every tier.
pub open spec fn normal_form(raw: Seq<char>) -> Seq<char> {
    lowercase_of(raw)
}

/// Normalizes a raw identifier.
pub fn normalize(username: &str) -> (token: String)
    ensures
        token@ == normal_form(username@),
{
    username.to_lowercase()
}

/// The texts of a sequence of strings.
pub open spec fn texts(names: Seq<String>) -> Seq<Seq<char>> {
    Seq::new(names.len(), |i: int| names[i]@)
}

/// The parts of a list, written one after the other with `sep` between
/// each two.
pub open spec fn spec_join(parts: Seq<Seq<char>>, sep: Seq<char>) -> Seq<char>
    decreases parts.len(),
{
    if parts.len() == 0 {
        Seq::empty()
    } else if parts.len() == 1 {
        parts[0]
    } else {
        spec_join(parts.drop_last(), sep) + sep + parts.last()
    }
}

/// Writes the parts of a list one after the other, with `sep` between each
/// two.
pub fn join(parts: &Vec<String>, sep: &str) -> (joined: String)
    ensures
        joined@ == spec_join(texts(parts@), sep@),
{
    let mut joined = String::new();
    let n = parts.len();
    let mut i: usize = 0;
    while i < n
        invariant
            n == parts.len(),
            i <= n,
            joined@ == spec_join(texts(parts@.subrange(0, i as int)), sep@),
        decreases n - i,
    {
        let ghost done = texts(parts@.subrange(0, i as int));
        let ghost next = texts(parts@.subrange(0, i + 1));
        proof {
            assert(next.drop_last() =~= done);
            assert(next.last() == parts@[i as int]@);
        }
        if i > 0 {
            joined.append(sep);
        } else {
            proof {
                assert(joined@ + parts@[0]@ =~= parts@[0]@);
            }
        }
        joined.append(parts[i].as_str());
        i = i + 1;
    }
    proof {
        assert(parts@.subrange(0, n as int) =~= parts@);
    }
    joined
}

} // verus!
