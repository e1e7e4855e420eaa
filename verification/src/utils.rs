//! Ids and slugs in the form the upstream site writes them.
use vstd::prelude::*;
use vstd::string::{StrSliceExecFns, StringExecFns};

verus! {

/// The digit of base 36 that stands for `d`: `0` to `9`, then `a` to `z`.
pub open spec fn base36_digit(d: int) -> char {
    "0123456789abcdefghijklmnopqrstuvwxyz"@[d]
}

/// `value` in base 36, most significant digit first, without leading
/// zeros; zero is `0`.
pub open spec fn base36_text(value: nat) -> Seq<char>
    decreases value,
{
    if value < 36 {
        seq![base36_digit(value as int)]
    } else {
        base36_text(value / 36).push(base36_digit((value % 36) as int))
    }
}

/// Writes `value` in base 36.
pub fn base36(value: u64) -> (text: String)
    ensures
        text@ == base36_text(value as nat),
{
    let digits = "0123456789abcdefghijklmnopqrstuvwxyz";
    proof {
        reveal_strlit("0123456789abcdefghijklmnopqrstuvwxyz");
        assert(digits@.len() == 36);
        assert(digits.is_ascii());
    }
    let last = (value % 36) as usize;
    let mut text = String::from_str(digits.substring_ascii(last, last + 1));
    let mut rest = value / 36;
    assert(text@ =~= seq![base36_digit(last as int)]);
    while rest > 0
        invariant
            digits@ == "0123456789abcdefghijklmnopqrstuvwxyz"@,
            digits@.len() == 36,
            digits.is_ascii(),
            base36_text(value as nat) == (if rest == 0 {
                text@
            } else {
                base36_text(rest as nat) + text@
            }),
        decreases rest,
    {
        let digit = (rest % 36) as usize;
        let ghost lower = text@;
        text = String::from_str(digits.substring_ascii(digit, digit + 1)).concat(text.as_str());
        proof {
            assert(text@ =~= seq![base36_digit(digit as int)] + lower);
            if rest < 36 {
                assert(base36_text(rest as nat) + lower =~= text@);
            } else {
                assert(base36_text(rest as nat) + lower =~= base36_text((rest / 36) as nat) + text@);
            }
        }
        rest = rest / 36;
    }
    text
}

/// The number that a digit of base 36 stands for; `None` for any other
/// character. Upper-case letters are no digits.
pub open spec fn base36_digit_value(c: char) -> Option<nat> {
    if '0' <= c <= '9' {
        Some((c as nat - '0' as nat) as nat)
    } else if 'a' <= c <= 'z' {
        Some((c as nat - 'a' as nat + 10) as nat)
    } else {
        None
    }
}

/// The number that the first `n` characters of `text` write in base 36;
/// `None` where one of them is no digit. No digits write zero.
pub open spec fn base36_value(text: Seq<char>, n: nat) -> Option<nat>
    decreases n,
{
    if n == 0 || n > text.len() {
        Some(0)
    } else {
        match (base36_value(text, (n - 1) as nat), base36_digit_value(text[n - 1])) {
            (Some(higher), Some(digit)) => Some(higher * 36 + digit),
            _ => None,
        }
    }
}

/// The number that `text` writes in base 36, where it is one or more digits
/// and the number fits 64 bits.
pub open spec fn base36_number(text: Seq<char>) -> Option<u64> {
    match base36_value(text, text.len()) {
        Some(value) => if text.len() > 0 && value <= u64::MAX {
            Some(value as u64)
        } else {
            None
        },
        None => None,
    }
}

/// More digits never write a smaller number.
proof fn lemma_base36_value_grows(text: Seq<char>, n: nat, m: nat)
    requires
        n <= m <= text.len(),
        base36_value(text, m) is Some,
    ensures
        base36_value(text, n) matches Some(shorter) && shorter <= base36_value(text, m)->0,
    decreases m,
{
    if n < m {
        lemma_base36_value_grows(text, n, (m - 1) as nat);
        let higher = base36_value(text, (m - 1) as nat)->0;
        assert(higher * 36 >= higher) by (nonlinear_arith)
            requires
                higher >= 0,
        ;
    }
}

/// Reads a number written in base 36. `None` for no digits at all, for a
/// character that is no digit, and for a number beyond 64 bits.
pub fn u64_from_base36(text: &str) -> (number: Option<u64>)
    ensures
        number == base36_number(text@),
{
    let len = text.unicode_len();
    if len == 0 {
        return None;
    }
    let mut value: u64 = 0;
    let mut i: usize = 0;
    while i < len
        invariant
            i <= len,
            len == text@.len(),
            base36_value(text@, i as nat) == Some(value as nat),
        decreases len - i,
    {
        let code = text.get_char(i) as u32;
        let digit: u64 = if 48 <= code && code <= 57 {
            (code - 48) as u64
        } else if 97 <= code && code <= 122 {
            (code - 97 + 10) as u64
        } else {
            proof {
                assert(base36_value(text@, (i + 1) as nat) is None);
                if base36_value(text@, len as nat) is Some {
                    lemma_base36_value_grows(text@, (i + 1) as nat, len as nat);
                }
            }
            return None;
        };
        assert(base36_digit_value(text@[i as int]) == Some(digit as nat));
        let next = match value.checked_mul(36) {
            Some(shifted) => shifted.checked_add(digit),
            None => None,
        };
        match next {
            Some(next) => {
                value = next;
            },
            None => {
                proof {
                    assert(base36_value(text@, (i + 1) as nat) == Some((value * 36 + digit) as nat));
                    if base36_value(text@, len as nat) is Some {
                        lemma_base36_value_grows(text@, (i + 1) as nat, len as nat);
                    }
                }
                return None;
            },
        }
        i += 1;
    }
    Some(value)
}

/// What base 36 writes, it reads back.
pub proof fn lemma_base36_round_trip(value: u64)
    ensures
        base36_number(base36_text(value as nat)) == Some(value),
{
    lemma_base36_text_value(value as nat);
}

/// The digits of a number write that number, and there is at least one.
proof fn lemma_base36_text_value(value: nat)
    ensures
        base36_text(value).len() > 0,
        base36_value(base36_text(value), base36_text(value).len()) == Some(value),
    decreases value,
{
    reveal_strlit("0123456789abcdefghijklmnopqrstuvwxyz");
    let text = base36_text(value);
    if value < 36 {
        assert(base36_digit_value(base36_digit(value as int)) == Some(value));
        assert(base36_value(text, 0) == Some(0nat));
    } else {
        let higher = base36_text(value / 36);
        lemma_base36_text_value(value / 36);
        assert(base36_digit_value(base36_digit((value % 36) as int)) == Some(value % 36));
        lemma_base36_value_ignores_what_follows(higher, text, higher.len());
    }
}

/// The number that some digits write does not depend on what follows them.
proof fn lemma_base36_value_ignores_what_follows(text: Seq<char>, longer: Seq<char>, n: nat)
    requires
        n <= text.len() <= longer.len(),
        forall|i: int| 0 <= i < text.len() ==> text[i] == longer[i],
    ensures
        base36_value(text, n) == base36_value(longer, n),
    decreases n,
{
    if n > 0 {
        lemma_base36_value_ignores_what_follows(text, longer, (n - 1) as nat);
    }
}

/// Whether `c` is an ASCII letter or digit.
pub open spec fn is_ascii_alphanumeric(c: char) -> bool {
    ('0' <= c <= '9') || ('a' <= c <= 'z') || ('A' <= c <= 'Z')
}

/// What one character of a name gives to the slug: a letter or digit
/// stays, a space becomes an underscore, anything else is left out.
pub open spec fn slug_piece(c: char) -> Seq<char> {
    if is_ascii_alphanumeric(c) {
        seq![c]
    } else if c == ' ' {
        seq!['_']
    } else {
        Seq::empty()
    }
}

/// The slug made of the first `n` characters of `name`.
pub open spec fn src_slug_text(name: Seq<char>, n: nat) -> Seq<char>
    decreases n,
{
    if n == 0 || n > name.len() {
        Seq::empty()
    } else {
        src_slug_text(name, (n - 1) as nat) + slug_piece(name[n - 1])
    }
}

/// Makes the slug of a name: letters and digits as they are, underscores
/// for spaces, nothing for the rest.
pub fn src_slugify(name: &str) -> (slug: String)
    ensures
        slug@ == src_slug_text(name@, name@.len()),
{
    let mut slug = String::new();
    let len = name.unicode_len();
    let mut i: usize = 0;
    while i < len
        invariant
            i <= len,
            len == name@.len(),
            slug@ == src_slug_text(name@, i as nat),
        decreases len - i,
    {
        let c = name.get_char(i);
        let code = c as u32;
        let ghost before = slug@;
        if (48 <= code && code <= 57) || (97 <= code && code <= 122) || (65 <= code && code <= 90) {
            slug.append(name.substring_char(i, i + 1));
            assert(slug@ =~= before + slug_piece(c));
        } else if code == 32 {
            proof {
                reveal_strlit("_");
            }
            slug.append("_");
            assert(slug@ =~= before + slug_piece(c));
        } else {
            assert(slug@ =~= before + slug_piece(c));
        }
        i += 1;
    }
    slug
}

/// What one character gives to a slug of our own: a letter in lower case,
/// a digit as it is, a hyphen for a space, an underscore or a hyphen, and
/// nothing for the rest.
pub open spec fn own_slug_piece(c: char) -> Seq<char> {
    if 'A' <= c <= 'Z' {
        seq!["abcdefghijklmnopqrstuvwxyz"@[c as int - 'A' as int]]
    } else if ('a' <= c <= 'z') || ('0' <= c <= '9') {
        seq![c]
    } else if c == ' ' || c == '_' || c == '-' {
        seq!['-']
    } else {
        Seq::empty()
    }
}

/// The slug of our own made of the first `n` characters of `text`.
pub open spec fn slug_text(text: Seq<char>, n: nat) -> Seq<char>
    decreases n,
{
    if n == 0 || n > text.len() {
        Seq::empty()
    } else {
        slug_text(text, (n - 1) as nat) + own_slug_piece(text[n - 1])
    }
}

/// Makes a slug of our own from any text: lower-case letters, digits and
/// hyphens only.
pub fn slugify(text: &str) -> (slug: String)
    ensures
        slug@ == slug_text(text@, text@.len()),
{
    let letters = "abcdefghijklmnopqrstuvwxyz";
    proof {
        reveal_strlit("abcdefghijklmnopqrstuvwxyz");
        reveal_strlit("-");
        assert(letters@.len() == 26);
        assert(letters.is_ascii());
    }
    let mut slug = String::new();
    let len = text.unicode_len();
    let mut i: usize = 0;
    while i < len
        invariant
            i <= len,
            len == text@.len(),
            letters@ == "abcdefghijklmnopqrstuvwxyz"@,
            letters@.len() == 26,
            letters.is_ascii(),
            "-"@ == seq!['-'],
            slug@ == slug_text(text@, i as nat),
        decreases len - i,
    {
        let c = text.get_char(i);
        let code = c as u32;
        let ghost before = slug@;
        if 65 <= code && code <= 90 {
            let at = (code - 65) as usize;
            slug.append(letters.substring_ascii(at, at + 1));
            assert(slug@ =~= before + own_slug_piece(c));
        } else if (97 <= code && code <= 122) || (48 <= code && code <= 57) {
            slug.append(text.substring_char(i, i + 1));
            assert(slug@ =~= before + own_slug_piece(c));
        } else if code == 32 || code == 95 || code == 45 {
            slug.append("-");
            assert(slug@ =~= before + own_slug_piece(c));
        } else {
            assert(slug@ =~= before + own_slug_piece(c));
        }
        i += 1;
    }
    slug
}

} // verus!
