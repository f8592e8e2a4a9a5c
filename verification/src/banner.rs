//! The start-up banner.
use vstd::prelude::*;

use crate::text::{chars_of_str};

verus! {

/// The banner, with blank lines around it.
pub const PHI_BANNER: &'static str = r#"
         ⢀⡴⠂
   ⢀⣠⣤⠶⠒⣠⠎⣀⡀    █████╗  ██████╗ ███████╗███╗   ██╗████████╗
  ⣰⣿⠏ ⣠⡾⠃ ⣸⣿   ██╔══██╗██╔════╝ ██╔════╝████╗  ██║╚══██╔══╝
  ⣿⣏⢠⣾⣿⡁⢀⣰⣿⠋   ███████║██║  ███╗█████╗  ██╔██╗ ██║   ██║
   ⠉⣰⡿⠫⠶⠛⠋     ██╔══██║██║   ██║██╔══╝  ██║╚██╗██║   ██║
  ⢠⠞⠁          ██║  ██║╚██████╔╝███████╗██║ ╚████║   ██║
               ╚═╝  ╚═╝ ╚═════╝ ╚══════╝╚═╝  ╚═══╝   ╚═╝

"#;

/// Number of leading `c` characters of `s`.
pub open spec fn leading_run(s: Seq<char>, c: char) -> nat
    decreases s.len(),
{
    if s.len() > 0 && s[0] == c {
        1 + leading_run(s.drop_first(), c)
    } else {
        0
    }
}

/// Number of trailing `c` characters of `s`.
pub open spec fn trailing_run(s: Seq<char>, c: char) -> nat
    decreases s.len(),
{
    if s.len() > 0 && s.last() == c {
        1 + trailing_run(s.drop_last(), c)
    } else {
        0
    }
}

/// `s` without leading and trailing `c` characters (`str::trim_matches`).
pub open spec fn trim_matches_chars(s: Seq<char>, c: char) -> Seq<char> {
    let front = leading_run(s, c);
    let rest = s.subrange(front as int, s.len() as int);
    rest.subrange(0, rest.len() - trailing_run(rest, c))
}

proof fn lemma_leading_run(s: Seq<char>, c: char)
    ensures
        leading_run(s, c) <= s.len(),
        leading_run(s, c) < s.len() ==> s[leading_run(s, c) as int] != c,
        forall|i: int| 0 <= i < leading_run(s, c) ==> #[trigger] s[i] == c,
    decreases s.len(),
{
    if s.len() > 0 && s[0] == c {
        lemma_leading_run(s.drop_first(), c);
        assert forall|i: int| 0 <= i < leading_run(s, c) implies #[trigger] s[i] == c by {
            if i > 0 {
                assert(s[i] == s.drop_first()[i - 1]);
            }
        }
    }
}

proof fn lemma_trailing_run(s: Seq<char>, c: char)
    ensures
        trailing_run(s, c) <= s.len(),
        trailing_run(s, c) < s.len() ==> s[s.len() - trailing_run(s, c) - 1] != c,
        forall|i: int| s.len() - trailing_run(s, c) <= i < s.len() ==> #[trigger] s[i] == c,
    decreases s.len(),
{
    if s.len() > 0 && s.last() == c {
        lemma_trailing_run(s.drop_last(), c);
        assert forall|i: int| s.len() - trailing_run(s, c) <= i < s.len() implies #[trigger] s[i] == c by {
            if i < s.len() - 1 {
                assert(s[i] == s.drop_last()[i]);
            }
        }
    }
}

/// `text` without leading and trailing `c` characters.
pub fn trim_matches<'a>(text: &'a str, c: char) -> (trimmed: &'a str)
    ensures
        trimmed@ == trim_matches_chars(text@, c),
{
    let chars = chars_of_str(text);
    proof { lemma_leading_run(chars@, c); }
    let mut start: usize = 0;
    while start < chars.len() && chars[start] == c
        invariant
            chars@ == text@,
            start <= leading_run(chars@, c),
            leading_run(chars@, c) <= chars@.len(),
            leading_run(chars@, c) < chars@.len() ==> chars@[leading_run(chars@, c) as int] != c,
            forall|i: int| 0 <= i < leading_run(chars@, c) ==> #[trigger] chars@[i] == c,
        decreases chars.len() - start,
    {
        start += 1;
    }
    let ghost rest = chars@.subrange(start as int, chars@.len() as int);
    proof { lemma_trailing_run(rest, c); }
    let mut back: usize = 0;
    while back < chars.len() - start && chars[chars.len() - 1 - back] == c
        invariant
            start <= chars@.len(),
            rest == chars@.subrange(start as int, chars@.len() as int),
            back <= trailing_run(rest, c),
            trailing_run(rest, c) <= rest.len(),
            trailing_run(rest, c) < rest.len() ==> rest[rest.len() - trailing_run(rest, c) - 1] != c,
            forall|i: int| rest.len() - trailing_run(rest, c) <= i < rest.len() ==> #[trigger] rest[i] == c,
        decreases chars.len() - start - back,
    {
        assert(rest[rest.len() - back - 1] == chars@[chars@.len() - 1 - back]);
        back += 1;
    }
    proof {
        if back < rest.len() {
            assert(rest[rest.len() - back - 1] == chars@[chars@.len() - 1 - back]);
        }
    }
    let trimmed = text.substring_char(start, chars.len() - back);
    assert(trimmed@ =~= trim_matches_chars(text@, c));
    trimmed
}

/// The banner without its surrounding blank lines.
pub fn startup_banner() -> (banner: &'static str)
    ensures
        banner@ == trim_matches_chars(PHI_BANNER@, '\n'),
{
    trim_matches(PHI_BANNER, '\n')
}

} // verus!
