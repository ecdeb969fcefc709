//! Text helpers: asset names derived from native file names, and frame labels.

use vstd::prelude::*;
use vstd::string::{StrSliceExecFns, StringExecFns};

verus! {

/// What `str::to_lowercase` makes of a string.
pub uninterp spec fn lower_of(s: Seq<char>) -> Seq<char>;

/// What `Path::file_stem` makes of a path, when it has a stem.
pub uninterp spec fn file_stem_of(s: Seq<char>) -> Option<Seq<char>>;

/// Relies on `str::to_lowercase`: the result depends on the characters alone.
#[verifier::external_body]
fn lowercase(s: &str) -> (r: String)
    ensures
        r@ == lower_of(s@),
{
    s.to_lowercase()
}

/// Relies on `Path::file_stem`: the final component without its extension; a
/// stem of a `str` path is itself valid text.
#[verifier::external_body]
fn file_stem(s: &str) -> (r: Option<String>)
    ensures
        r matches Some(t) ==> file_stem_of(s@) == Some(t@),
        r is None ==> file_stem_of(s@) is None,
{
    match std::path::Path::new(s).file_stem() {
        Some(stem) => stem.to_str().map(String::from),
        None => None,
    }
}

/// Whether `s` ends with `suffix`.
fn ends_with(s: &str, suffix: &str) -> (r: bool)
    ensures
        r == (s@.len() >= suffix@.len() && s@.subrange(s@.len() - suffix@.len(), s@.len() as int)
            == suffix@),
{
    let n = s.unicode_len();
    let m = suffix.unicode_len();
    if n < m {
        return false;
    }
    let mut i: usize = 0;
    while i < m
        invariant
            n == s@.len(),
            m == suffix@.len(),
            m <= n,
            0 <= i <= m,
            forall|j: int| 0 <= j < i ==> s@[n - m + j] == suffix@[j],
        decreases m - i,
    {
        if s.get_char(n - m + i) != suffix.get_char(i) {
            assert(s@.subrange(n - m, n as int)[i as int] != suffix@[i as int]);
            return false;
        }
        i = i + 1;
    }
    assert(s@.subrange(n - m, n as int) =~= suffix@);
    true
}

/// The extension of native bitmap containers.
pub open spec fn bitmap_suffix() -> Seq<char> {
    seq!['.', 'b', 'm']
}

/// The asset name of a native container file: its lower-cased stem, for a
/// bitmap container.
pub open spec fn asset_name_of(filename: Seq<char>) -> Option<Seq<char>> {
    let lower = lower_of(filename);
    if lower.len() >= 3 && lower.subrange(lower.len() - 3, lower.len() as int) == bitmap_suffix() {
        file_stem_of(lower)
    } else {
        None
    }
}

/// The asset name of a native container file, or `None` for any file that is
/// not a bitmap container.
pub fn asset_name(filename: &str) -> (r: Option<String>)
    ensures
        r matches Some(t) ==> asset_name_of(filename@) == Some(t@),
        r is None ==> asset_name_of(filename@) is None,
{
    let lower = lowercase(filename);
    let suffix = ".bm";
    proof {
        reveal_strlit(".bm");
    }
    assert(suffix@ =~= bitmap_suffix());
    if !ends_with(lower.as_str(), suffix) {
        return None;
    }
    file_stem(lower.as_str())
}

/// The decimal digits of `n`.
pub open spec fn decimal(n: nat) -> Seq<char>
    decreases n,
{
    if n < 10 {
        seq![digit_char(n)]
    } else {
        decimal(n / 10).push(digit_char(n % 10))
    }
}

pub open spec fn digit_char(d: nat) -> char {
    if d == 0 {
        '0'
    } else if d == 1 {
        '1'
    } else if d == 2 {
        '2'
    } else if d == 3 {
        '3'
    } else if d == 4 {
        '4'
    } else if d == 5 {
        '5'
    } else if d == 6 {
        '6'
    } else if d == 7 {
        '7'
    } else if d == 8 {
        '8'
    } else {
        '9'
    }
}

/// `n` in decimal with at least two digits.
pub open spec fn two_digits(n: nat) -> Seq<char> {
    if n < 10 {
        seq!['0'] + decimal(n)
    } else {
        decimal(n)
    }
}

/// The name of frame `n` (counted from one) of the animation `name`: `name (0n)`.
pub open spec fn frame_name(name: Seq<char>, n: nat) -> Seq<char> {
    name + seq![' ', '('] + two_digits(n) + seq![')']
}

fn push_decimal(s: &mut String, n: usize)
    ensures
        final(s)@ == old(s)@ + decimal(n as nat),
    decreases n,
{
    if n >= 10 {
        push_decimal(s, n / 10);
    }
    s.append(hex_digit(n % 10));
    assert(final(s)@ =~= old(s)@ + decimal(n as nat));
}

/// The name of frame `n` (counted from one) of the animation `name`.
pub fn format_frame_name(name: &str, n: usize) -> (r: String)
    ensures
        r@ == frame_name(name@, n as nat),
{
    let mut s = String::new();
    s.append(name);
    proof {
        reveal_strlit(" (");
        reveal_strlit("0");
        reveal_strlit(")");
    }
    s.append(" (");
    if n < 10 {
        s.append("0");
    }
    push_decimal(&mut s, n);
    s.append(")");
    assert(s@ =~= frame_name(name@, n as nat));
    s
}

pub open spec fn hex_char(d: nat) -> char {
    if d < 10 {
        digit_char(d)
    } else if d == 10 {
        'a'
    } else if d == 11 {
        'b'
    } else if d == 12 {
        'c'
    } else if d == 13 {
        'd'
    } else if d == 14 {
        'e'
    } else {
        'f'
    }
}

/// The lower-case hexadecimal digits of `n`.
pub open spec fn hex_digits(n: nat) -> Seq<char>
    decreases n,
{
    if n < 16 {
        seq![hex_char(n)]
    } else {
        hex_digits(n / 16).push(hex_char(n % 16))
    }
}

/// `n` written `0x…` in lower-case hexadecimal.
pub open spec fn hex_of(n: nat) -> Seq<char> {
    seq!['0', 'x'] + hex_digits(n)
}

/// The hexadecimal digit `d` as text.
fn hex_digit(d: usize) -> (r: &'static str)
    requires
        d < 16,
    ensures
        r@ == seq![hex_char(d as nat)],
{
    if d == 0 {
        proof {
            reveal_strlit("0");
        }
        assert("0"@ =~= seq![hex_char(0)]);
        "0"
    } else if d == 1 {
        proof {
            reveal_strlit("1");
        }
        assert("1"@ =~= seq![hex_char(1)]);
        "1"
    } else if d == 2 {
        proof {
            reveal_strlit("2");
        }
        assert("2"@ =~= seq![hex_char(2)]);
        "2"
    } else if d == 3 {
        proof {
            reveal_strlit("3");
        }
        assert("3"@ =~= seq![hex_char(3)]);
        "3"
    } else if d == 4 {
        proof {
            reveal_strlit("4");
        }
        assert("4"@ =~= seq![hex_char(4)]);
        "4"
    } else if d == 5 {
        proof {
            reveal_strlit("5");
        }
        assert("5"@ =~= seq![hex_char(5)]);
        "5"
    } else if d == 6 {
        proof {
            reveal_strlit("6");
        }
        assert("6"@ =~= seq![hex_char(6)]);
        "6"
    } else if d == 7 {
        proof {
            reveal_strlit("7");
        }
        assert("7"@ =~= seq![hex_char(7)]);
        "7"
    } else if d == 8 {
        proof {
            reveal_strlit("8");
        }
        assert("8"@ =~= seq![hex_char(8)]);
        "8"
    } else if d == 9 {
        proof {
            reveal_strlit("9");
        }
        assert("9"@ =~= seq![hex_char(9)]);
        "9"
    } else if d == 10 {
        proof {
            reveal_strlit("a");
        }
        assert("a"@ =~= seq![hex_char(10)]);
        "a"
    } else if d == 11 {
        proof {
            reveal_strlit("b");
        }
        assert("b"@ =~= seq![hex_char(11)]);
        "b"
    } else if d == 12 {
        proof {
            reveal_strlit("c");
        }
        assert("c"@ =~= seq![hex_char(12)]);
        "c"
    } else if d == 13 {
        proof {
            reveal_strlit("d");
        }
        assert("d"@ =~= seq![hex_char(13)]);
        "d"
    } else if d == 14 {
        proof {
            reveal_strlit("e");
        }
        assert("e"@ =~= seq![hex_char(14)]);
        "e"
    } else {
        proof {
            reveal_strlit("f");
        }
        assert("f"@ =~= seq![hex_char(15)]);
        "f"
    }
}

fn push_hex_digits(s: &mut String, n: usize)
    ensures
        final(s)@ == old(s)@ + hex_digits(n as nat),
    decreases n,
{
    if n >= 16 {
        push_hex_digits(s, n / 16);
    }
    s.append(hex_digit(n % 16));
    assert(final(s)@ =~= old(s)@ + hex_digits(n as nat));
}

/// Appends `n` written `0x…` in lower-case hexadecimal.
pub fn push_hex(s: &mut String, n: usize)
    ensures
        final(s)@ == old(s)@ + hex_of(n as nat),
{
    proof {
        reveal_strlit("0x");
    }
    s.append("0x");
    push_hex_digits(s, n);
    assert(final(s)@ =~= old(s)@ + hex_of(n as nat));
}

/// Appends `t`.
pub fn append(s: &mut String, t: &str)
    ensures
        final(s)@ == old(s)@ + t@,
{
    s.append(t);
}

} // verus!
