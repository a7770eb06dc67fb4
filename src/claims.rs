use vstd::prelude::*;
use crate::primitives::{json_string_literal, json_string_value, json_quote, json_unquote};

verus! {

/// The claims a session token carries: expiry and issue time in unix
/// seconds, and the subject's email.
pub struct Claims {
    pub exp: usize,
    pub iat: usize,
    pub email: String,
}

pub open spec fn is_digit(c: char) -> bool {
    '0' <= c && c <= '9'
}

pub open spec fn digit_char(d: nat) -> char
    recommends
        d < 10,
{
    ((d + 48) as u32) as char
}

/// Decimal notation of `n`, without leading zeros.
pub open spec fn decimal(n: nat) -> Seq<char>
    decreases n,
{
    if n < 10 {
        seq![digit_char(n)]
    } else {
        decimal(n / 10).push(digit_char(n % 10))
    }
}

/// Value of a run of decimal digits.
pub open spec fn digits_value(s: Seq<char>) -> nat
    decreases s.len(),
{
    if s.len() == 0 {
        0
    } else {
        digits_value(s.drop_last()) * 10 + ((s.last() as u32) - 48) as nat
    }
}

fn digit_str(d: usize) -> (r: &'static str)
    requires
        d < 10,
    ensures
        r@ == seq![digit_char(d as nat)],
{
    proof {
        reveal_strlit("0");
        reveal_strlit("1");
        reveal_strlit("2");
        reveal_strlit("3");
        reveal_strlit("4");
        reveal_strlit("5");
        reveal_strlit("6");
        reveal_strlit("7");
        reveal_strlit("8");
        reveal_strlit("9");
    }
    let r = if d == 0 { "0" } else if d == 1 { "1" } else if d == 2 { "2" } else if d == 3 {
        "3"
    } else if d == 4 { "4" } else if d == 5 { "5" } else if d == 6 { "6" } else if d == 7 {
        "7"
    } else if d == 8 { "8" } else { "9" };
    assert(r@ =~= seq![digit_char(d as nat)]);
    r
}

fn push_decimal(out: &mut String, n: usize)
    ensures
        final(out)@ == old(out)@ + decimal(n as nat),
    decreases n,
{
    if n >= 10 {
        push_decimal(out, n / 10);
    }
    out.append(digit_str(n % 10));
    assert(out@ =~= old(out)@ + decimal(n as nat));
}

pub open spec fn exp_key() -> Seq<char> {
    seq!['{', '"', 'e', 'x', 'p', '"', ':']
}

pub open spec fn iat_key() -> Seq<char> {
    seq![',', '"', 'i', 'a', 't', '"', ':']
}

pub open spec fn email_key() -> Seq<char> {
    seq![',', '"', 'e', 'm', 'a', 'i', 'l', '"', ':']
}

/// The JSON text `{"exp":E,"iat":I,"email":Q}` of a claims set, where `Q`
/// is the email written as a JSON string literal.
pub open spec fn claims_text(exp: nat, iat: nat, quoted_email: Seq<char>) -> Seq<char> {
    exp_key() + decimal(exp) + iat_key() + decimal(iat) + email_key() + quoted_email + seq!['}']
}

/// The `usize` whose JSON number text is `s`.
pub open spec fn usize_of(s: Seq<char>) -> Option<usize> {
    if exists|n: usize| decimal(n as nat) == s {
        Some(choose|n: usize| decimal(n as nat) == s)
    } else {
        None
    }
}

/// A claims object's members, as pairs of key and raw JSON value text.
pub open spec fn members_view(ms: Seq<(String, String)>) -> Seq<(Seq<char>, Seq<char>)> {
    ms.map_values(|p: (String, String)| (p.0@, p.1@))
}

/// The raw value of the first member named `key`.
pub open spec fn member(ms: Seq<(Seq<char>, Seq<char>)>, key: Seq<char>) -> Option<Seq<char>>
    decreases ms.len(),
{
    if ms.len() == 0 {
        None
    } else if ms[0].0 == key {
        Some(ms[0].1)
    } else {
        member(ms.drop_first(), key)
    }
}

/// The claims `(exp, iat, email)` that a claims object holds: `exp` and
/// `iat` must be numbers that fit in `usize` and `email` a string; members
/// in any order, and other members, are allowed.
pub open spec fn claims_of_members(ms: Seq<(Seq<char>, Seq<char>)>) -> Option<(usize, usize, Seq<char>)> {
    match (member(ms, "exp"@), member(ms, "iat"@), member(ms, "email"@)) {
        (Some(e), Some(i), Some(m)) => match (usize_of(e), usize_of(i), json_string_value(m)) {
            (Some(exp), Some(iat), Some(email)) => Some((exp, iat, email)),
            _ => None,
        },
        _ => None,
    }
}

impl Claims {
    /// The JSON text of these claims, as a token carries it.
    pub fn to_json(&self) -> (r: String)
        ensures
            json_string_literal(self.email@) matches Some(q) && r@ == claims_text(
                self.exp as nat,
                self.iat as nat,
                q,
            ) && json_string_value(q) == Some(self.email@),
    {
        let quoted = match json_quote(self.email.as_str()) {
            Ok(q) => q,
            Err(_) => {
                proof {
                    assert(false);
                }
                String::new()
            },
        };
        proof {
            reveal_strlit("{\"exp\":");
            reveal_strlit(",\"iat\":");
            reveal_strlit(",\"email\":");
            reveal_strlit("}");
        }
        let mut out = String::new();
        out.append("{\"exp\":");
        push_decimal(&mut out, self.exp);
        out.append(",\"iat\":");
        push_decimal(&mut out, self.iat);
        out.append(",\"email\":");
        out.append(quoted.as_str());
        out.append("}");
        assert(out@ =~= claims_text(self.exp as nat, self.iat as nat, quoted@));
        out
    }
}

proof fn lemma_decimal(n: nat)
    ensures
        decimal(n).len() >= 1,
        forall|i: int| 0 <= i < decimal(n).len() ==> is_digit(#[trigger] decimal(n)[i]),
        digits_value(decimal(n)) == n,
    decreases n,
{
    if n >= 10 {
        lemma_decimal(n / 10);
        let d = decimal(n);
        assert(d.drop_last() =~= decimal(n / 10));
        assert(digit_char(n % 10) as u32 == n % 10 + 48);
        assert(d.last() == digit_char(n % 10));
        assert((n / 10) * 10 + n % 10 == n) by (nonlinear_arith);
        assert(digits_value(d) == digits_value(decimal(n / 10)) * 10 + n % 10);
    } else {
        assert(digit_char(n) as u32 == n + 48);
        assert(seq![digit_char(n)].drop_last() =~= Seq::<char>::empty());
        assert(digits_value(decimal(n)) == digits_value(Seq::<char>::empty()) * 10 + n);
    }
}

proof fn lemma_prefix_value(s: Seq<char>, k: int)
    requires
        0 <= k <= s.len(),
        forall|i: int| 0 <= i < s.len() ==> is_digit(#[trigger] s[i]),
    ensures
        digits_value(s.subrange(0, k)) <= digits_value(s),
    decreases s.len() - k,
{
    if k < s.len() {
        let t = s.drop_last();
        lemma_prefix_value(t, k);
        assert(t.subrange(0, k) =~= s.subrange(0, k));
        assert(digits_value(t) <= digits_value(s));
    } else {
        assert(s.subrange(0, k) =~= s);
    }
}

/// The decimal notation of `n` stands at `start`, and no digit follows it.
pub open spec fn number_at(s: Seq<char>, start: int, n: nat) -> bool {
    let p = start + decimal(n).len();
    &&& p <= s.len()
    &&& s.subrange(start, p) == decimal(n)
    &&& (p == s.len() || !is_digit(s[p]))
}

fn is_digit_char(c: char) -> (r: bool)
    ensures
        r == is_digit(c),
{
    '0' <= c && c <= '9'
}

/// Reads the run of decimal digits that starts at `start`; `None` when the
/// run is empty or its value exceeds `usize`.
fn scan_number(s: &str, start: usize) -> (r: Option<(usize, usize)>)
    requires
        start <= s@.len(),
    ensures
        r matches Some((v, j)) ==> {
            &&& start < j <= s@.len()
            &&& forall|k: int| start <= k < j ==> is_digit(#[trigger] s@[k])
            &&& (j == s@.len() || !is_digit(s@[j as int]))
            &&& v == digits_value(s@.subrange(start as int, j as int))
        },
        forall|n: usize|
            #[trigger] number_at(s@, start as int, n as nat) ==> r == Some((n, (start + decimal(n as nat).len()) as usize)),
{
    let len = s.unicode_len();
    let mut i: usize = start;
    let mut acc: usize = 0;
    assert(s@.subrange(start as int, start as int) =~= Seq::<char>::empty());
    while i < len && is_digit_char(s.get_char(i))
        invariant
            len == s@.len(),
            start <= i <= len,
            forall|k: int| start <= k < i ==> is_digit(#[trigger] s@[k]),
            acc == digits_value(s@.subrange(start as int, i as int)),
        decreases len - i,
    {
        let c = s.get_char(i);
        let d: usize = (c as u32 - 48) as usize;
        let ghost next = s@.subrange(start as int, i as int + 1);
        assert(next.drop_last() =~= s@.subrange(start as int, i as int));
        if acc > (usize::MAX - d) / 10 {
            proof {
                assert forall|n: usize|
                    #[trigger] number_at(s@, start as int, n as nat) implies false by {
                    let dn = decimal(n as nat);
                    let p = start + dn.len();
                    lemma_decimal(n as nat);
                    if i + 1 > p {
                        assert(s@[p] == s@.subrange(start as int, p)[p - start]) by {
                            assert(p < len);
                        }
                    }
                    assert(next == dn.subrange(0, i + 1 - start));
                    lemma_prefix_value(dn, i + 1 - start);
                    assert(acc * 10 + d > usize::MAX) by (nonlinear_arith)
                        requires acc > (usize::MAX - d) / 10, d < 10;
                }
            }
            return None;
        }
        acc = acc * 10 + d;
        i = i + 1;
    }
    if i == start {
        proof {
            assert forall|n: usize|
                #[trigger] number_at(s@, start as int, n as nat) implies false by {
                lemma_decimal(n as nat);
                assert(s@[start as int] == s@.subrange(start as int, start + decimal(n as nat).len())[0]);
            }
        }
        return None;
    }
    proof {
        assert forall|n: usize|
            #[trigger] number_at(s@, start as int, n as nat) implies i == start + decimal(n as nat).len() && acc == n by {
            let dn = decimal(n as nat);
            let p = start + dn.len();
            lemma_decimal(n as nat);
            if i > p {
                assert(s@[p] == s@.subrange(start as int, p)[p - start]) by {
                    assert(p < len);
                }
            }
            if i < p {
                assert(s@[i as int] == dn[i - start]);
            }
            assert(s@.subrange(start as int, i as int) =~= dn);
        }
    }
    Some((acc, i))
}

/// The decimal notation of a `usize` reads back as that number.
pub proof fn lemma_usize_of_decimal(n: usize)
    ensures
        usize_of(decimal(n as nat)) == Some(n),
{
    let m = choose|m: usize| decimal(m as nat) == decimal(n as nat);
    lemma_decimal(n as nat);
    lemma_decimal(m as nat);
}

/// Reads a JSON number that fits in `usize`: decimal digits without a
/// leading zero.
pub fn parse_usize(s: &str) -> (r: Option<usize>)
    ensures
        r == usize_of(s@),
{
    let len = s.unicode_len();
    proof {
        assert forall|n: usize| decimal(n as nat) == s@ implies #[trigger] number_at(s@, 0, n as nat) by {
            assert(s@.subrange(0, s@.len() as int) =~= s@);
        }
    }
    if let Some((v, j)) = scan_number(s, 0) {
        if j == len {
            let mut t = String::new();
            push_decimal(&mut t, v);
            if t == String::from_str(s) {
                proof {
                    lemma_usize_of_decimal(v);
                }
                return Some(v);
            }
        }
    }
    proof {
        assert forall|n: usize| decimal(n as nat) != s@ by {
            if decimal(n as nat) == s@ {
                assert(number_at(s@, 0, n as nat));
            }
        }
    }
    None
}

fn find_member(ms: &Vec<(String, String)>, key: &str) -> (r: Option<String>)
    ensures
        match member(members_view(ms@), key@) {
            Some(t) => r matches Some(x) && x@ == t,
            None => r is None,
        },
{
    let ghost all = members_view(ms@);
    let target = String::from_str(key);
    let mut i: usize = 0;
    assert(all.subrange(0, all.len() as int) =~= all);
    while i < ms.len()
        invariant
            all == members_view(ms@),
            target@ == key@,
            i <= ms@.len(),
            member(all, key@) == member(all.subrange(i as int, all.len() as int), key@),
        decreases ms@.len() - i,
    {
        let ghost rest = all.subrange(i as int, all.len() as int);
        assert(rest[0] == all[i as int]);
        assert(rest.drop_first() =~= all.subrange(i + 1, all.len() as int));
        if ms[i].0 == target {
            return Some(ms[i].1.clone());
        }
        i = i + 1;
    }
    None
}

/// The claims that a decoded claims object holds.
pub fn claims_from_members(ms: &Vec<(String, String)>) -> (r: Option<Claims>)
    ensures
        match claims_of_members(members_view(ms@)) {
            Some(c) => r matches Some(x) && x.exp == c.0 && x.iat == c.1 && x.email@ == c.2,
            None => r is None,
        },
{
    let exp_text = find_member(ms, "exp");
    let iat_text = find_member(ms, "iat");
    let email_text = find_member(ms, "email");
    match (exp_text, iat_text, email_text) {
        (Some(e), Some(i), Some(m)) => {
            let exp = parse_usize(e.as_str());
            let iat = parse_usize(i.as_str());
            let email = json_unquote(m.as_str());
            match (exp, iat, email) {
                (Some(exp), Some(iat), Ok(email)) => Some(Claims { exp, iat, email }),
                _ => None,
            }
        },
        _ => None,
    }
}

} // verus!
