use vstd::prelude::*;

verus! {

/// The decimal digit character for `d`, which must be below ten.
pub open spec fn digit_char(d: int) -> char {
    if d == 0 { '0' }
    else if d == 1 { '1' }
    else if d == 2 { '2' }
    else if d == 3 { '3' }
    else if d == 4 { '4' }
    else if d == 5 { '5' }
    else if d == 6 { '6' }
    else if d == 7 { '7' }
    else if d == 8 { '8' }
    else { '9' }
}

/// Decimal digits of a natural number, most significant first, without leading zeros.
pub open spec fn nat_text(n: nat) -> Seq<char>
    decreases n,
{
    if n < 10 {
        seq![digit_char(n as int)]
    } else {
        nat_text(n / 10).push(digit_char((n % 10) as int))
    }
}

/// Decimal text of an integer, with a leading minus sign when negative.
pub open spec fn int_text(n: int) -> Seq<char> {
    if n < 0 {
        seq!['-'] + nat_text((-n) as nat)
    } else {
        nat_text(n as nat)
    }
}

pub open spec fn is_lower(c: char) -> bool {
    'a' <= c && c <= 'z'
}

/// Every underscore in `s` is followed by a lower-case letter.
pub open spec fn underscores_lead_lower(s: Seq<char>) -> bool {
    forall|i: int| 0 <= i < s.len() && #[trigger] s[i] == '_' ==> i + 1 < s.len() && is_lower(s[i + 1])
}

/// `s` holds no underscore.
pub open spec fn no_underscore(s: Seq<char>) -> bool {
    forall|i: int| 0 <= i < s.len() ==> #[trigger] s[i] != '_'
}

pub proof fn lemma_underscores_concat(a: Seq<char>, b: Seq<char>)
    requires
        underscores_lead_lower(a),
        underscores_lead_lower(b),
    ensures
        underscores_lead_lower(a + b),
{
    let s = a + b;
    assert forall|i: int| 0 <= i < s.len() && #[trigger] s[i] == '_' implies i + 1 < s.len() && is_lower(s[i + 1]) by {
        if i < a.len() {
            assert(a[i] == '_');
            let c = a[i + 1];
            assert(i + 1 < a.len());
            assert(s[i + 1] == c);
        } else {
            let j = i - a.len();
            assert(b[j] == '_');
            let c = b[j + 1];
            assert(j + 1 < b.len());
            assert(s[i + 1] == c);
        }
    }
}

pub proof fn lemma_no_underscore_leads_lower(s: Seq<char>)
    requires
        no_underscore(s),
    ensures
        underscores_lead_lower(s),
{
}

pub proof fn lemma_no_underscore_concat(a: Seq<char>, b: Seq<char>)
    requires
        no_underscore(a),
        no_underscore(b),
    ensures
        no_underscore(a + b),
{
    assert forall|i: int| 0 <= i < (a + b).len() implies #[trigger] (a + b)[i] != '_' by {
        if i < a.len() {
            assert((a + b)[i] == a[i]);
        } else {
            assert((a + b)[i] == b[i - a.len()]);
        }
    }
}

pub proof fn lemma_nat_text_no_underscore(n: nat)
    ensures
        no_underscore(nat_text(n)),
    decreases n,
{
    if n >= 10 {
        lemma_nat_text_no_underscore(n / 10);
        lemma_no_underscore_concat(nat_text(n / 10), seq![digit_char((n % 10) as int)]);
        assert(nat_text(n) =~= nat_text(n / 10) + seq![digit_char((n % 10) as int)]);
    }
}

/// Decimal text holds digits and a sign, never an underscore.
pub proof fn lemma_int_text_no_underscore(n: int)
    ensures
        no_underscore(int_text(n)),
{
    if n < 0 {
        lemma_nat_text_no_underscore((-n) as nat);
        lemma_no_underscore_concat(seq!['-'], nat_text((-n) as nat));
    } else {
        lemma_nat_text_no_underscore(n as nat);
    }
}

fn digit_str(d: u64) -> (r: &'static str)
    requires
        d < 10,
    ensures
        r@ == seq![digit_char(d as int)],
{
    proof {
        reveal_strlit("0");
        reveal_strlit("1");
        reveal_strlit("2");
        reveal_strlit("3");
        reveal_strlit("4");
        reveal_strlit("5");
        reveal_strlit("6");
        reveal_strlit("7");
        reveal_strlit("8");
        reveal_strlit("9");
    }
    if d == 0 { "0" }
    else if d == 1 { "1" }
    else if d == 2 { "2" }
    else if d == 3 { "3" }
    else if d == 4 { "4" }
    else if d == 5 { "5" }
    else if d == 6 { "6" }
    else if d == 7 { "7" }
    else if d == 8 { "8" }
    else { "9" }
}

/// Appends the decimal digits of `n`.
pub fn push_nat(s: &mut String, n: u64)
    ensures
        final(s)@ == old(s)@ + nat_text(n as nat),
    decreases n,
{
    if n < 10 {
        s.append(digit_str(n));
    } else {
        push_nat(s, n / 10);
        s.append(digit_str(n % 10));
        proof {
            assert(final(s)@ =~= old(s)@ + nat_text(n as nat));
        }
    }
}

/// Appends the decimal text of `n`, with a minus sign when it is negative.
pub fn push_int(s: &mut String, n: i64)
    ensures
        final(s)@ == old(s)@ + int_text(n as int),
{
    if n < 0 {
        proof {
            reveal_strlit("-");
        }
        s.append("-");
        let mag: u64 = ((-(n + 1)) as u64) + 1;
        push_nat(s, mag);
        proof {
            assert(final(s)@ =~= old(s)@ + int_text(n as int));
        }
    } else {
        push_nat(s, n as u64);
    }
}

} // verus!
