//! Splitting a status line into whitespace-delimited tokens.
use vstd::prelude::*;

verus! {

/// Whether a character separates tokens: the characters with Unicode's
/// white-space property.
pub open spec fn is_space(c: char) -> bool {
    ||| c == ' ' || c == '\t' || c == '\n' || c == '\r' || c == '\u{b}' || c == '\u{c}'
    ||| c == '\u{85}' || c == '\u{a0}' || c == '\u{1680}'
    ||| '\u{2000}' <= c && c <= '\u{200a}'
    ||| c == '\u{2028}' || c == '\u{2029}' || c == '\u{202f}' || c == '\u{205f}' || c == '\u{3000}'
}

/// The tokens of `s` given a partial token `cur` already read: spaces
/// end the current token, other characters extend it.
pub open spec fn tokens_from(s: Seq<char>, cur: Seq<char>) -> Seq<Seq<char>>
    decreases s.len(),
{
    if s.len() == 0 {
        if cur.len() == 0 {
            Seq::empty()
        } else {
            seq![cur]
        }
    } else if is_space(s[0]) {
        if cur.len() == 0 {
            tokens_from(s.drop_first(), Seq::empty())
        } else {
            seq![cur] + tokens_from(s.drop_first(), Seq::empty())
        }
    } else {
        tokens_from(s.drop_first(), cur.push(s[0]))
    }
}

/// The whitespace-delimited tokens of `s`.
pub open spec fn tokens_of(s: Seq<char>) -> Seq<Seq<char>> {
    tokens_from(s, Seq::empty())
}

fn is_space_exec(c: char) -> (b: bool)
    ensures
        b == is_space(c),
{
    c == ' ' || c == '\t' || c == '\n' || c == '\r' || c == '\u{b}' || c == '\u{c}' || c == '\u{85}'
        || c == '\u{a0}' || c == '\u{1680}' || ('\u{2000}' <= c && c <= '\u{200a}') || c
        == '\u{2028}' || c == '\u{2029}' || c == '\u{202f}' || c == '\u{205f}' || c == '\u{3000}'
}

/// Splits `s` into its whitespace-delimited tokens, in order.
pub fn split_whitespace(s: &str) -> (r: Vec<String>)
    ensures
        r.deep_view() == tokens_of(s@),
{
    let len = s.unicode_len();
    let mut r: Vec<String> = Vec::new();
    let mut i: usize = 0;
    let mut start: usize = 0;
    let mut in_token = false;
    proof {
        assert(r.deep_view() =~= Seq::<Seq<char>>::empty());
        assert(s@.skip(0) =~= s@);
        assert(r.deep_view() + tokens_from(s@, Seq::<char>::empty()) =~= tokens_from(
            s@,
            Seq::<char>::empty(),
        ));
    }
    while i < len
        invariant
            i <= len,
            len == s@.len(),
            in_token ==> start < i,
            !in_token ==> r.deep_view() + tokens_from(s@.skip(i as int), Seq::empty())
                == tokens_of(s@),
            in_token ==> r.deep_view() + tokens_from(
                s@.skip(i as int),
                s@.subrange(start as int, i as int),
            ) == tokens_of(s@),
        decreases len - i,
    {
        let c = s.get_char(i);
        let sp = is_space_exec(c);
        proof {
            assert(s@.skip(i as int)[0] == s@[i as int]);
            assert(s@.skip(i as int).drop_first() =~= s@.skip(i + 1));
        }
        if in_token && sp {
            let tok = s.substring_char(start, i);
            proof {
                assert(s@.subrange(start as int, i as int).len() > 0);
            }
            let ghost r0 = r.deep_view();
            r.push(tok.to_owned());
            proof {
                assert(r.deep_view() =~= r0.push(s@.subrange(start as int, i as int)));
                assert(r.deep_view() + tokens_from(s@.skip(i + 1), Seq::empty()) =~= r0 + (seq![
                    s@.subrange(start as int, i as int),
                ] + tokens_from(s@.skip(i + 1), Seq::empty())));
            }
            in_token = false;
        } else if !in_token && !sp {
            start = i;
            proof {
                assert(Seq::<char>::empty().push(s@[i as int]) =~= s@.subrange(
                    i as int,
                    i + 1,
                ));
            }
            in_token = true;
        } else if in_token {
            proof {
                assert(s@.subrange(start as int, i as int).push(s@[i as int]) =~= s@.subrange(
                    start as int,
                    i + 1,
                ));
            }
        }
        i = i + 1;
    }
    proof {
        assert(s@.skip(len as int) =~= Seq::<char>::empty());
    }
    if in_token {
        let tok = s.substring_char(start, len);
        let ghost r0 = r.deep_view();
        r.push(tok.to_owned());
        proof {
            assert(s@.subrange(start as int, len as int).len() > 0);
            assert(r.deep_view() =~= r0.push(s@.subrange(start as int, len as int)));
            assert(r0 + seq![s@.subrange(start as int, len as int)] =~= r.deep_view());
        }
    }
    r
}

} // verus!
