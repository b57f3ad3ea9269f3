//! Verified rendering of JSON text fragments: string escaping, quoting, and
//! string-to-string objects, as the commit log's actions need them.
use vstd::prelude::*;

verus! {

use crate::strings::push_char;

/// The hexadecimal digit character for a value below 16.
pub open spec fn hex_char_of(d: nat) -> char {
    if d < 10 {
        crate::strings::digit_char_of(d)
    } else if d == 10 {
        'a'
    } else if d == 11 {
        'b'
    } else if d == 12 {
        'c'
    } else if d == 13 {
        'd'
    } else if d == 14 {
        'e'
    } else {
        'f'
    }
}

/// The escape of one character inside a JSON string literal.
pub open spec fn esc_char(c: char) -> Seq<char> {
    if c == '"' {
        seq!['\\', '"']
    } else if c == '\\' {
        seq!['\\', '\\']
    } else if c == '\n' {
        seq!['\\', 'n']
    } else if c == '\r' {
        seq!['\\', 'r']
    } else if c == '\t' {
        seq!['\\', 't']
    } else if (c as nat) < 32 {
        seq!['\\', 'u', '0', '0', hex_char_of((c as nat) / 16), hex_char_of((c as nat) % 16)]
    } else {
        seq![c]
    }
}

/// The escape of a whole string.
pub open spec fn json_escape(s: Seq<char>) -> Seq<char>
    decreases s.len(),
{
    if s.len() == 0 {
        Seq::empty()
    } else {
        esc_char(s[0]) + json_escape(s.drop_first())
    }
}

/// Escaping distributes over appending one character.
pub proof fn lemma_json_escape_snoc(s: Seq<char>, c: char)
    ensures
        json_escape(s.push(c)) == json_escape(s) + esc_char(c),
    decreases s.len(),
{
    if s.len() == 0 {
        assert(s.push(c)[0] == c);
        assert(s.push(c).drop_first() =~= Seq::<char>::empty());
        assert(json_escape(Seq::<char>::empty()) == Seq::<char>::empty());
        assert(json_escape(s.push(c)) == esc_char(c) + json_escape(Seq::<char>::empty()));
        assert(json_escape(s.push(c)) =~= esc_char(c));
        assert(json_escape(s) + esc_char(c) =~= esc_char(c));
    } else {
        assert(s.push(c).drop_first() =~= s.drop_first().push(c));
        lemma_json_escape_snoc(s.drop_first(), c);
        assert(json_escape(s.push(c)) =~= json_escape(s) + esc_char(c));
    }
}

/// A quoted, escaped JSON string literal.
pub open spec fn json_quote(s: Seq<char>) -> Seq<char> {
    seq!['"'] + json_escape(s) + seq!['"']
}

/// The exec hexadecimal digit character.
pub fn hex_char(d: u8) -> (r: char)
    requires
        d < 16,
    ensures
        r == hex_char_of(d as nat),
{
    if d < 10 {
        crate::strings::digit_char(d)
    } else if d == 10 {
        'a'
    } else if d == 11 {
        'b'
    } else if d == 12 {
        'c'
    } else if d == 13 {
        'd'
    } else if d == 14 {
        'e'
    } else {
        'f'
    }
}

/// Appends the escape of one character.
fn push_escaped(out: &mut String, c: char)
    ensures
        final(out)@ == old(out)@ + esc_char(c),
{
    if c == '"' {
        push_char(out, '\\');
        push_char(out, '"');
    } else if c == '\\' {
        push_char(out, '\\');
        push_char(out, '\\');
    } else if c == '\n' {
        push_char(out, '\\');
        push_char(out, 'n');
    } else if c == '\r' {
        push_char(out, '\\');
        push_char(out, 'r');
    } else if c == '\t' {
        push_char(out, '\\');
        push_char(out, 't');
    } else if (c as u32) < 32 {
        push_char(out, '\\');
        push_char(out, 'u');
        push_char(out, '0');
        push_char(out, '0');
        let v: u32 = c as u32;
        push_char(out, hex_char((v / 16) as u8));
        push_char(out, hex_char((v % 16) as u8));
        proof {
            assert((c as nat) / 16 == ((v / 16) as nat));
            assert((c as nat) % 16 == ((v % 16) as nat));
            assert(final(out)@ =~= old(out)@ + esc_char(c));
        }
    } else {
        push_char(out, c);
        proof {
            assert(final(out)@ =~= old(out)@ + esc_char(c));
        }
    }
    proof {
        assert(final(out)@ =~= old(out)@ + esc_char(c));
    }
}

/// Appends a quoted, escaped JSON string literal.
pub fn append_json_quoted(out: &mut String, s: &str)
    ensures
        final(out)@ == old(out)@ + json_quote(s@),
{
    push_char(out, '"');
    let n = s.unicode_len();
    let ghost base = old(out)@ + seq!['"'];
    let mut i: usize = 0;
    while i < n
        invariant
            n == s@.len(),
            i <= n,
            out@ == base + json_escape(s@.take(i as int)),
        decreases n - i,
    {
        let c = s.get_char(i);
        proof {
            assert(s@.take(i + 1) =~= s@.take(i as int).push(s@[i as int]));
            lemma_json_escape_snoc(s@.take(i as int), s@[i as int]);
        }
        push_escaped(out, c);
        i = i + 1;
    }
    push_char(out, '"');
    proof {
        assert(s@.take(n as int) =~= s@);
        assert(final(out)@ =~= old(out)@ + json_quote(s@));
    }
}

/// One member of a string-to-string JSON object; a missing value renders as
/// a JSON null.
pub open spec fn json_member(k: Seq<char>, v: Option<Seq<char>>) -> Seq<char> {
    json_quote(k) + seq![':'] + (match v {
        Some(s) => json_quote(s),
        None => "null"@,
    })
}

/// The members of a string-to-string JSON object, joined by commas.
pub open spec fn json_members(pairs: Seq<(Seq<char>, Option<Seq<char>>)>) -> Seq<char>
    decreases pairs.len(),
{
    if pairs.len() == 0 {
        Seq::empty()
    } else if pairs.len() == 1 {
        json_member(pairs[0].0, pairs[0].1)
    } else {
        json_member(pairs[0].0, pairs[0].1) + seq![','] + json_members(pairs.drop_first())
    }
}

/// Joining distributes over appending one member.
pub proof fn lemma_json_members_snoc(
    pairs: Seq<(Seq<char>, Option<Seq<char>>)>,
    x: (Seq<char>, Option<Seq<char>>),
)
    ensures
        json_members(pairs.push(x)) == if pairs.len() == 0 {
            json_member(x.0, x.1)
        } else {
            json_members(pairs) + seq![','] + json_member(x.0, x.1)
        },
    decreases pairs.len(),
{
    if pairs.len() == 0 {
        assert(pairs.push(x)[0] == x);
        assert(json_members(pairs.push(x)) =~= json_member(x.0, x.1));
    } else {
        assert(pairs.push(x).drop_first() =~= pairs.drop_first().push(x));
        lemma_json_members_snoc(pairs.drop_first(), x);
        if pairs.len() == 1 {
            assert(json_members(pairs.push(x)) =~= json_members(pairs) + seq![','] + json_member(
                x.0,
                x.1,
            ));
        } else {
            assert(json_members(pairs.push(x)) =~= json_members(pairs) + seq![','] + json_member(
                x.0,
                x.1,
            ));
        }
    }
}

/// A whole string-to-string JSON object.
pub open spec fn json_object(pairs: Seq<(Seq<char>, Option<Seq<char>>)>) -> Seq<char> {
    seq!['{'] + json_members(pairs) + seq!['}']
}

/// The views of the entries of a string-to-string object.
pub open spec fn str_pairs_view(pairs: Seq<(String, Option<String>)>) -> Seq<
    (Seq<char>, Option<Seq<char>>),
> {
    pairs.map(
        |i: int, e: (String, Option<String>)|
            (
                e.0@,
                match e.1 {
                    Some(s) => Some(s@),
                    None => None,
                },
            ),
    )
}

/// Appends a whole string-to-string JSON object.
pub fn append_json_object(out: &mut String, pairs: &Vec<(String, Option<String>)>)
    ensures
        final(out)@ == old(out)@ + json_object(str_pairs_view(pairs@)),
{
    push_char(out, '{');
    let ghost pv = str_pairs_view(pairs@);
    let ghost base = old(out)@ + seq!['{'];
    let n = pairs.len();
    let mut i: usize = 0;
    while i < n
        invariant
            n == pairs@.len(),
            pv == str_pairs_view(pairs@),
            pv.len() == n,
            i <= n,
            out@ == base + json_members(pv.take(i as int)),
        decreases n - i,
    {
        proof {
            assert(pv[i as int] == (
                pairs@[i as int].0@,
                match pairs@[i as int].1 {
                    Some(s) => Some(s@),
                    None => None,
                },
            ));
            assert(pv.take(i + 1) =~= pv.take(i as int).push(pv[i as int]));
            lemma_json_members_snoc(pv.take(i as int), pv[i as int]);
        }
        if i > 0 {
            push_char(out, ',');
        }
        append_json_quoted(out, pairs[i].0.as_str());
        push_char(out, ':');
        match &pairs[i].1 {
            Some(v) => {
                append_json_quoted(out, v.as_str());
            },
            None => {
                out.append("null");
            },
        }
        proof {
            if i == 0 {
                assert(json_members(pv.take(0)) =~= Seq::<char>::empty());
                assert(out@ =~= base + json_members(pv.take(i + 1)));
            } else {
                assert(out@ =~= base + json_members(pv.take(i + 1)));
            }
        }
        i = i + 1;
    }
    push_char(out, '}');
    proof {
        assert(pv.take(n as int) =~= pv);
        assert(final(out)@ =~= old(out)@ + json_object(pv));
    }
}

} // verus!
