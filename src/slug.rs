//! Slugs: the URL-safe, kebab-cased form of an article title.

use vstd::prelude::*;

verus! {

/// Characters kept in a slug: ASCII letters and digits.
pub open spec fn is_slug_char(c: char) -> bool {
    ('a' <= c && c <= 'z') || ('A' <= c && c <= 'Z') || ('0' <= c && c <= '9')
}

/// ASCII lower-casing of one character.
pub open spec fn lower_char(c: char) -> char {
    if 'A' <= c && c <= 'Z' {
        ((c as u32) + 32) as char
    } else {
        c
    }
}

/// The maximal runs of ASCII letters and digits of `s`, in order, each
/// lower-cased.
pub open spec fn words(s: Seq<char>) -> Seq<Seq<char>>
    decreases s.len(),
{
    if s.len() == 0 {
        Seq::empty()
    } else {
        let ws = words(s.drop_last());
        let c = s.last();
        if !is_slug_char(c) {
            ws
        } else if s.len() >= 2 && is_slug_char(s[s.len() - 2]) {
            ws.drop_last().push(ws.last().push(lower_char(c)))
        } else {
            ws.push(seq![lower_char(c)])
        }
    }
}

/// Words joined by single dashes.
pub open spec fn join_dashes(ws: Seq<Seq<char>>) -> Seq<char>
    decreases ws.len(),
{
    if ws.len() == 0 {
        Seq::empty()
    } else if ws.len() == 1 {
        ws[0]
    } else {
        join_dashes(ws.drop_last()) + seq!['-'] + ws.last()
    }
}

/// The slug of a title: its maximal runs of ASCII letters and digits,
/// lower-cased and joined by single dashes.
pub open spec fn slugify(s: Seq<char>) -> Seq<char> {
    join_dashes(words(s))
}

proof fn lemma_join_extend_last(ws: Seq<Seq<char>>, x: char)
    requires
        ws.len() > 0,
    ensures
        join_dashes(ws.drop_last().push(ws.last().push(x))) == join_dashes(ws).push(x),
{
    let v = ws.drop_last().push(ws.last().push(x));
    assert(v.drop_last() =~= ws.drop_last());
    if ws.len() > 1 {
        assert(join_dashes(v) =~= join_dashes(ws).push(x));
    }
}

proof fn lemma_join_push(ws: Seq<Seq<char>>, w: Seq<char>)
    ensures
        join_dashes(ws.push(w)) == if ws.len() == 0 {
            w
        } else {
            join_dashes(ws) + seq!['-'] + w
        },
{
    assert(ws.push(w).drop_last() =~= ws);
}

proof fn lemma_join_nonempty(ws: Seq<Seq<char>>)
    requires
        ws.len() > 0,
        forall|k: int| 0 <= k < ws.len() ==> (#[trigger] ws[k]).len() > 0,
    ensures
        join_dashes(ws).len() > 0,
    decreases ws.len(),
{
    if ws.len() > 1 {
        assert(ws.last() == ws[ws.len() - 1]);
    }
}

/// Relies on `String: FromIterator<char>`: the string holds exactly the
/// given characters, in order.
#[verifier::external_body]
fn string_from_chars(chars: &Vec<char>) -> (r: String)
    ensures
        r@ == chars@,
{
    chars.iter().collect()
}

fn lower(c: char) -> (r: char)
    ensures
        r == lower_char(c),
{
    if 'A' <= c && c <= 'Z' {
        let b: u8 = c as u8;
        (b + 32) as char
    } else {
        c
    }
}

/// The slug of `title` (see `slugify`).
pub fn convert_title_to_slug(title: &str) -> (r: String)
    ensures
        r@ == slugify(title@),
{
    let n = title.unicode_len();
    let mut out: Vec<char> = Vec::new();
    let mut pending = false;
    let mut i: usize = 0;
    while i < n
        invariant
            n == title@.len(),
            i <= n,
            out@ == join_dashes(words(title@.subrange(0, i as int))),
            pending == (i > 0 && !is_slug_char(title@[i - 1])),
            forall|k: int|
                0 <= k < words(title@.subrange(0, i as int)).len() ==> (#[trigger] words(
                    title@.subrange(0, i as int),
                )[k]).len() > 0,
            i > 0 && is_slug_char(title@[i - 1]) ==> words(title@.subrange(0, i as int)).len() > 0,
            words(title@.subrange(0, i as int)).len() > 0 ==> i > 0,
        decreases n - i,
    {
        let ghost pre = title@.subrange(0, i as int);
        let ghost ws = words(pre);
        let ghost next = title@.subrange(0, i + 1);
        proof {
            assert(next.drop_last() =~= pre);
            assert(next.last() == title@[i as int]);
            if i > 0 {
                assert(next[next.len() - 2] == title@[i - 1]);
            }
            if ws.len() > 0 {
                lemma_join_nonempty(ws);
            }
        }
        let c = title.get_char(i);
        if ('a' <= c && c <= 'z') || ('A' <= c && c <= 'Z') || ('0' <= c && c <= '9') {
            let x = lower(c);
            if pending && out.len() > 0 {
                out.push('-');
            }
            out.push(x);
            proof {
                if i > 0 && is_slug_char(title@[i - 1]) {
                    lemma_join_extend_last(ws, x);
                    assert(words(next) == ws.drop_last().push(ws.last().push(x)));
                    assert forall|k: int| 0 <= k < words(next).len() implies (#[trigger] words(
                        next,
                    )[k]).len() > 0 by {
                        if k < ws.len() - 1 {
                            assert(words(next)[k] == ws[k]);
                        }
                    }
                } else {
                    lemma_join_push(ws, seq![x]);
                    assert(words(next) == ws.push(seq![x]));
                    if ws.len() > 0 {
                        assert(out@ =~= join_dashes(ws) + seq!['-'] + seq![x]);
                    } else {
                        assert(out@ =~= seq![x]);
                    }
                    assert forall|k: int| 0 <= k < words(next).len() implies (#[trigger] words(
                        next,
                    )[k]).len() > 0 by {
                        if k < ws.len() {
                            assert(words(next)[k] == ws[k]);
                        }
                    }
                }
            }
            pending = false;
        } else {
            proof {
                assert(words(next) == ws);
            }
            pending = true;
        }
        i = i + 1;
    }
    proof {
        assert(title@.subrange(0, n as int) =~= title@);
    }
    string_from_chars(&out)
}

} // verus!
