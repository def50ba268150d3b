//! Canonical domain names: ASCII lowercasing, the trailing dot, and the
//! suffix test used by wildcard registrations.

use vstd::prelude::*;
use vstd::string::StrSliceExecFns;
use vstd::string::StringExecFns;

verus! {

/// ASCII lowercasing of one character; anything but `'A'..='Z'` is kept.
pub open spec fn lower_char(c: char) -> char {
    match c {
        'A' => 'a',
        'B' => 'b',
        'C' => 'c',
        'D' => 'd',
        'E' => 'e',
        'F' => 'f',
        'G' => 'g',
        'H' => 'h',
        'I' => 'i',
        'J' => 'j',
        'K' => 'k',
        'L' => 'l',
        'M' => 'm',
        'N' => 'n',
        'O' => 'o',
        'P' => 'p',
        'Q' => 'q',
        'R' => 'r',
        'S' => 's',
        'T' => 't',
        'U' => 'u',
        'V' => 'v',
        'W' => 'w',
        'X' => 'x',
        'Y' => 'y',
        'Z' => 'z',
        _ => c,
    }
}

pub open spec fn lowercase_seq(s: Seq<char>) -> Seq<char> {
    s.map_values(|c: char| lower_char(c))
}

/// The sequence with a trailing dot appended when it does not end in one.
pub open spec fn with_trailing_dot(s: Seq<char>) -> Seq<char> {
    if s.len() > 0 && s[s.len() - 1] == '.' {
        s
    } else {
        s.push('.')
    }
}

/// The canonical form of a name: ASCII letters lowered, trailing dot present.
pub open spec fn normalize_spec(s: Seq<char>) -> Seq<char> {
    with_trailing_dot(lowercase_seq(s))
}

/// `name` ends with `suffix`.
pub open spec fn ends_with(name: Seq<char>, suffix: Seq<char>) -> bool {
    suffix.len() <= name.len() && name.skip(name.len() - suffix.len()) == suffix
}

fn append_lower(out: &mut String, s: &str, i: usize)
    requires
        i < s@.len(),
        i < usize::MAX,
    ensures
        final(out)@ == old(out)@ + seq![lower_char(s@[i as int])],
{
    let c = s.get_char(i);
    match c {
        'A' => {
            proof { reveal_strlit("a"); }
            out.append("a");
        },
        'B' => {
            proof { reveal_strlit("b"); }
            out.append("b");
        },
        'C' => {
            proof { reveal_strlit("c"); }
            out.append("c");
        },
        'D' => {
            proof { reveal_strlit("d"); }
            out.append("d");
        },
        'E' => {
            proof { reveal_strlit("e"); }
            out.append("e");
        },
        'F' => {
            proof { reveal_strlit("f"); }
            out.append("f");
        },
        'G' => {
            proof { reveal_strlit("g"); }
            out.append("g");
        },
        'H' => {
            proof { reveal_strlit("h"); }
            out.append("h");
        },
        'I' => {
            proof { reveal_strlit("i"); }
            out.append("i");
        },
        'J' => {
            proof { reveal_strlit("j"); }
            out.append("j");
        },
        'K' => {
            proof { reveal_strlit("k"); }
            out.append("k");
        },
        'L' => {
            proof { reveal_strlit("l"); }
            out.append("l");
        },
        'M' => {
            proof { reveal_strlit("m"); }
            out.append("m");
        },
        'N' => {
            proof { reveal_strlit("n"); }
            out.append("n");
        },
        'O' => {
            proof { reveal_strlit("o"); }
            out.append("o");
        },
        'P' => {
            proof { reveal_strlit("p"); }
            out.append("p");
        },
        'Q' => {
            proof { reveal_strlit("q"); }
            out.append("q");
        },
        'R' => {
            proof { reveal_strlit("r"); }
            out.append("r");
        },
        'S' => {
            proof { reveal_strlit("s"); }
            out.append("s");
        },
        'T' => {
            proof { reveal_strlit("t"); }
            out.append("t");
        },
        'U' => {
            proof { reveal_strlit("u"); }
            out.append("u");
        },
        'V' => {
            proof { reveal_strlit("v"); }
            out.append("v");
        },
        'W' => {
            proof { reveal_strlit("w"); }
            out.append("w");
        },
        'X' => {
            proof { reveal_strlit("x"); }
            out.append("x");
        },
        'Y' => {
            proof { reveal_strlit("y"); }
            out.append("y");
        },
        'Z' => {
            proof { reveal_strlit("z"); }
            out.append("z");
        },
        _ => {
            let piece = s.substring_char(i, i + 1);
            proof {
                assert(piece@ =~= seq![s@[i as int]]);
            }
            out.append(piece);
        },
    }
    proof {
        assert(final(out)@ =~= old(out)@ + seq![lower_char(s@[i as int])]);
    }
}

/// The canonical form of a name, as the policy uses it on ingress.
pub fn normalize_name(s: &str) -> (r: String)
    ensures
        r@ == normalize_spec(s@),
{
    let n = s.unicode_len();
    let mut out = String::new();
    let mut i: usize = 0;
    while i < n
        invariant
            i <= n,
            n == s@.len(),
            out@ == lowercase_seq(s@.take(i as int)),
        decreases n - i,
    {
        append_lower(&mut out, s, i);
        i = i + 1;
        proof {
            assert(out@ =~= lowercase_seq(s@.take(i as int)));
        }
    }
    proof {
        assert(s@.take(n as int) =~= s@);
        assert(out@ == lowercase_seq(s@));
        assert(lowercase_seq(s@).len() == s@.len());
    }
    if n == 0 {
        proof { reveal_strlit("."); }
        out.append(".");
        proof {
            assert(out@ =~= normalize_spec(s@));
        }
        return out;
    }
    let last = out.as_str().get_char(n - 1);
    if last != '.' {
        proof { reveal_strlit("."); }
        out.append(".");
        proof {
            assert(out@ =~= normalize_spec(s@));
        }
    }
    out
}

/// Whether `name` ends with `suffix`, by characters.
pub fn ends_with_exec(name: &str, suffix: &str) -> (r: bool)
    ensures
        r == ends_with(name@, suffix@),
{
    let n = name.unicode_len();
    let m = suffix.unicode_len();
    if m > n {
        return false;
    }
    let mut j: usize = 0;
    while j < m
        invariant
            j <= m,
            m <= n,
            n == name@.len(),
            m == suffix@.len(),
            forall|k: int| 0 <= k < j ==> name@[n - m + k] == suffix@[k],
        decreases m - j,
    {
        let a = name.get_char(n - m + j);
        let b = suffix.get_char(j);
        if a != b {
            proof {
                assert(name@.skip(n as int - m as int)[j as int] != suffix@[j as int]);
            }
            return false;
        }
        j = j + 1;
    }
    proof {
        assert(name@.skip(n as int - m as int) =~= suffix@);
    }
    true
}

} // verus!
