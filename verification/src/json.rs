//! A small JSON writer for the user records.
//!
//! The response body of `/api/users` is a fixed byte sequence, so the
//! encoder is specified down to the exact characters it produces.

use vstd::prelude::*;
use crate::users::User;

verus! {

/// The lowercase hexadecimal digit for `d` (meaningful for `0 <= d < 16`).
pub open spec fn hex_digit(d: int) -> char {
    if d == 0 { '0' } else if d == 1 { '1' } else if d == 2 { '2' } else if d == 3 { '3' }
    else if d == 4 { '4' } else if d == 5 { '5' } else if d == 6 { '6' } else if d == 7 { '7' }
    else if d == 8 { '8' } else if d == 9 { '9' } else if d == 10 { 'a' } else if d == 11 { 'b' }
    else if d == 12 { 'c' } else if d == 13 { 'd' } else if d == 14 { 'e' } else { 'f' }
}

/// How one character appears inside a JSON string literal: quote and
/// backslash get a backslash escape, the control characters with a short
/// escape use it, the remaining control characters are written `\u00XX`,
/// and every other character stands for itself.
pub open spec fn escaped_char(c: char) -> Seq<char> {
    if c == '"' { seq!['\\', '"'] }
    else if c == '\\' { seq!['\\', '\\'] }
    else if c == '\u{8}' { seq!['\\', 'b'] }
    else if c == '\t' { seq!['\\', 't'] }
    else if c == '\n' { seq!['\\', 'n'] }
    else if c == '\u{c}' { seq!['\\', 'f'] }
    else if c == '\r' { seq!['\\', 'r'] }
    else if (c as u32) < 0x20 {
        seq!['\\', 'u', '0', '0', hex_digit(c as u32 as int / 16), hex_digit(c as u32 as int % 16)]
    } else {
        seq![c]
    }
}

/// The body of a JSON string literal for `s`: each character escaped.
pub open spec fn escaped(s: Seq<char>) -> Seq<char>
    decreases s.len(),
{
    if s.len() == 0 {
        Seq::empty()
    } else {
        escaped_char(s[0]) + escaped(s.skip(1))
    }
}

/// The JSON string literal for `s`: a quote, the escaped body, a quote.
pub open spec fn quoted(s: Seq<char>) -> Seq<char> {
    seq!['"'] + escaped(s) + seq!['"']
}

/// The JSON object for a user with these field values, fields in the
/// fixed order `id`, `name`, `email`.
pub open spec fn user_json(id: Seq<char>, name: Seq<char>, email: Seq<char>) -> Seq<char> {
    "{\"id\":"@ + quoted(id) + ",\"name\":"@ + quoted(name) + ",\"email\":"@ + quoted(email)
        + "}"@
}

/// The JSON object for the user record `u`.
pub open spec fn user_json_of(u: User) -> Seq<char> {
    user_json(u.id@, u.name@, u.email@)
}

/// The comma-separated JSON objects for `us`, without the brackets.
pub open spec fn users_json_items(us: Seq<User>) -> Seq<char>
    decreases us.len(),
{
    if us.len() == 0 {
        Seq::empty()
    } else if us.len() == 1 {
        user_json_of(us[0])
    } else {
        user_json_of(us[0]) + seq![','] + users_json_items(us.skip(1))
    }
}

/// The JSON array for `us`.
pub open spec fn users_json(us: Seq<User>) -> Seq<char> {
    seq!['['] + users_json_items(us) + seq![']']
}

/// Escaping a sequence one character longer appends that character's
/// escape to the escape of the prefix.
proof fn lemma_escaped_take_step(s: Seq<char>, i: int)
    requires
        0 <= i < s.len(),
    ensures
        escaped(s.take(i + 1)) == escaped(s.take(i)) + escaped_char(s[i]),
    decreases i,
{
    if i == 0 {
        let t = s.take(1);
        assert(t.len() == 1);
        assert(t[0] == s[0]);
        assert(t.skip(1) =~= Seq::<char>::empty());
        assert(escaped(t.skip(1)) == Seq::<char>::empty());
        assert(escaped(t) == escaped_char(s[0]) + escaped(t.skip(1)));
        assert(escaped_char(s[0]) + Seq::<char>::empty() =~= escaped_char(s[0]));
        assert(escaped(s.take(0)) == Seq::<char>::empty());
        assert(Seq::<char>::empty() + escaped_char(s[0]) =~= escaped_char(s[0]));
    } else {
        lemma_escaped_take_step(s.skip(1), i - 1);
        assert(s.take(i + 1).skip(1) =~= s.skip(1).take(i));
        assert(s.take(i).skip(1) =~= s.skip(1).take(i - 1));
        assert(s.skip(1)[i - 1] == s[i]);
        assert(escaped(s.take(i + 1)) == escaped_char(s[0]) + escaped(s.skip(1).take(i)));
        assert(escaped(s.take(i)) == escaped_char(s[0]) + escaped(s.skip(1).take(i - 1)));
        assert(escaped_char(s[0]) + (escaped(s.skip(1).take(i - 1)) + escaped_char(s[i]))
            =~= (escaped_char(s[0]) + escaped(s.skip(1).take(i - 1))) + escaped_char(s[i]));
    }
}

/// Appends the escaped form of `s` to `out`.
fn append_escaped(out: &mut String, s: &str)
    ensures
        final(out)@ == old(out)@ + escaped(s@),
{
    let ghost orig = out@;
    let n: usize = s.unicode_len();
    let mut i: usize = 0;
    while i < n
        invariant
            n == s@.len(),
            i <= n,
            out@ == orig + escaped(s@.take(i as int)),
        decreases n - i,
    {
        let ghost done = s@.take(i as int);
        let c = s.get_char(i);
        if c == '"' {
            out.append("\\\"");
            proof {
                reveal_strlit("\\\"");
                assert("\\\""@ =~= escaped_char(c));
            }
        } else if c == '\\' {
            out.append("\\\\");
            proof {
                reveal_strlit("\\\\");
                assert("\\\\"@ =~= escaped_char(c));
            }
        } else if c == '\u{8}' {
            out.append("\\b");
            proof {
                reveal_strlit("\\b");
                assert("\\b"@ =~= escaped_char(c));
            }
        } else if c == '\t' {
            out.append("\\t");
            proof {
                reveal_strlit("\\t");
                assert("\\t"@ =~= escaped_char(c));
            }
        } else if c == '\n' {
            out.append("\\n");
            proof {
                reveal_strlit("\\n");
                assert("\\n"@ =~= escaped_char(c));
            }
        } else if c == '\u{c}' {
            out.append("\\f");
            proof {
                reveal_strlit("\\f");
                assert("\\f"@ =~= escaped_char(c));
            }
        } else if c == '\r' {
            out.append("\\r");
            proof {
                reveal_strlit("\\r");
                assert("\\r"@ =~= escaped_char(c));
            }
        } else if (c as u32) < 0x20 {
            let v: u32 = c as u32;
            let hi: usize = (v / 16) as usize;
            let lo: usize = (v % 16) as usize;
            let table = "0123456789abcdef";
            proof {
                reveal_strlit("0123456789abcdef");
                assert(table@[hi as int] == hex_digit(hi as int));
                assert(table@[lo as int] == hex_digit(lo as int));
            }
            out.append("\\u00");
            out.append(table.substring_char(hi, hi + 1));
            out.append(table.substring_char(lo, lo + 1));
            proof {
                reveal_strlit("\\u00");
                assert(table@.subrange(hi as int, hi as int + 1) =~= seq![hex_digit(hi as int)]);
                assert(table@.subrange(lo as int, lo as int + 1) =~= seq![hex_digit(lo as int)]);
                assert((("\\u00"@ + seq![hex_digit(hi as int)]) + seq![hex_digit(lo as int)])
                    =~= escaped_char(c));
            }
        } else {
            let piece = s.substring_char(i, i + 1);
            out.append(piece);
            proof {
                assert(piece@ =~= seq![c]);
                assert(seq![c] =~= escaped_char(c));
            }
        }
        proof {
            lemma_escaped_take_step(s@, i as int);
            assert((orig + escaped(done)) + escaped_char(c)
                =~= orig + escaped(s@.take(i as int + 1)));
        }
        i = i + 1;
    }
    proof {
        assert(s@.take(n as int) =~= s@);
    }
}

/// The JSON string literal for `s`: quote, escaped body, quote.
pub fn json_quote(s: &str) -> (r: String)
    ensures
        r@ == quoted(s@),
{
    let mut out = String::from_str("\"");
    append_escaped(&mut out, s);
    out.append("\"");
    proof {
        reveal_strlit("\"");
        assert(("\""@ + escaped(s@)) + "\""@ =~= quoted(s@));
    }
    out
}

/// The JSON object for the user record `u`, fields in the fixed order
/// `id`, `name`, `email`.
pub fn user_to_json(u: &User) -> (r: String)
    ensures
        r@ == user_json_of(*u),
{
    let mut out = String::from_str("{\"id\":");
    let id = json_quote(u.id.as_str());
    out.append(id.as_str());
    out.append(",\"name\":");
    let name = json_quote(u.name.as_str());
    out.append(name.as_str());
    out.append(",\"email\":");
    let email = json_quote(u.email.as_str());
    out.append(email.as_str());
    out.append("}");
    proof {
        assert(out@ =~= user_json_of(*u));
    }
    out
}

/// Appending one more user to a non-empty list appends a comma and its
/// object to the rendered items.
proof fn lemma_items_push(us: Seq<User>, u: User)
    requires
        us.len() >= 1,
    ensures
        users_json_items(us.push(u)) == users_json_items(us) + seq![','] + user_json_of(u),
    decreases us.len(),
{
    let p = us.push(u);
    if us.len() == 1 {
        assert(p.len() == 2);
        assert(p[0] == us[0]);
        assert(p.skip(1) =~= seq![u]);
        assert(seq![u].len() == 1);
        assert(seq![u][0] == u);
        assert(users_json_items(p.skip(1)) == user_json_of(u));
        assert(users_json_items(p) == user_json_of(us[0]) + seq![','] + users_json_items(
            p.skip(1),
        ));
        assert(users_json_items(us) == user_json_of(us[0]));
    } else {
        assert(p.len() >= 3);
        assert(p[0] == us[0]);
        assert(p.skip(1) =~= us.skip(1).push(u));
        lemma_items_push(us.skip(1), u);
        assert(users_json_items(p) == user_json_of(us[0]) + seq![','] + users_json_items(
            p.skip(1),
        ));
        assert(users_json_items(us) == user_json_of(us[0]) + seq![','] + users_json_items(
            us.skip(1),
        ));
        assert(user_json_of(us[0]) + seq![','] + (users_json_items(us.skip(1)) + seq![',']
            + user_json_of(u)) =~= (user_json_of(us[0]) + seq![','] + users_json_items(us.skip(1)))
            + seq![','] + user_json_of(u));
    }
}

/// The JSON array for the user list `users`.
pub fn users_to_json(users: &Vec<User>) -> (r: String)
    ensures
        r@ == users_json(users@),
{
    let mut out = String::from_str("[");
    proof {
        reveal_strlit("[");
        assert("["@ =~= seq!['[']);
    }
    let mut i: usize = 0;
    while i < users.len()
        invariant
            i <= users@.len(),
            out@ == seq!['['] + users_json_items(users@.take(i as int)),
        decreases users@.len() - i,
    {
        let ghost done = users@.take(i as int);
        if i > 0 {
            out.append(",");
            proof {
                reveal_strlit(",");
                assert(","@ =~= seq![',']);
            }
        }
        let piece = user_to_json(&users[i]);
        out.append(piece.as_str());
        proof {
            assert(users@.take(i as int + 1) =~= done.push(users@[i as int]));
            if i == 0 {
                assert(users_json_items(users@.take(1)) == user_json_of(users@[0]));
                assert(out@ =~= seq!['['] + users_json_items(users@.take(1)));
            } else {
                lemma_items_push(done, users@[i as int]);
                assert(out@ =~= seq!['['] + users_json_items(users@.take(i as int + 1)));
            }
        }
        i = i + 1;
    }
    out.append("]");
    proof {
        reveal_strlit("]");
        assert(users@.take(users@.len() as int) =~= users@);
        assert(out@ =~= users_json(users@));
    }
    out
}

/// The exact response body of `GET /api/users`: the fixed two-user
/// list, rendered as a JSON array with the fields in declaration order.
pub open spec fn users_body() -> Seq<char> {
    seq!['['] + user_json("1"@, "Alice"@, "alice@example.com"@) + seq![',']
        + user_json("2"@, "Bob"@, "bob@example.com"@) + seq![']']
}

/// Builds the `/api/users` response body. Every call returns the one
/// fixed character sequence `users_body()`.
pub fn users_response_body() -> (r: String)
    ensures
        r@ == users_body(),
{
    let users = crate::users::get_users();
    let r = users_to_json(&users);
    proof {
        assert(users@.len() == 2);
        assert(users@.skip(1).len() == 1);
        assert(users@.skip(1)[0] == users@[1]);
        assert(users_json_items(users@.skip(1)) == user_json_of(users@[1]));
        assert(users_json_items(users@) == user_json_of(users@[0]) + seq![',']
            + users_json_items(users@.skip(1)));
        assert(user_json_of(users@[0]) == user_json("1"@, "Alice"@, "alice@example.com"@));
        assert(user_json_of(users@[1]) == user_json("2"@, "Bob"@, "bob@example.com"@));
        assert(r@ =~= users_body());
    }
    r
}

/// The response of `GET /api/users` is idempotent: the body is one
/// fixed character sequence, so the bodies of any two calls are
/// identical.
pub proof fn lemma_response_idempotent(a: Seq<char>, b: Seq<char>)
    requires
        a == users_body(),
        b == users_body(),
    ensures
        a == b,
{
}

} // verus!
