use vstd::prelude::*;
use vstd::string::StringExecFns;

verus! {

/// The character of a decimal digit.
pub open spec fn digit_char(d: nat) -> char
    recommends
        d < 10,
{
    (48 + d) as char
}

/// The decimal representation of `n`: no sign, no leading zeros, `"0"` for zero.
pub open spec fn decimal(n: nat) -> Seq<char>
    decreases n,
{
    if n < 10 {
        seq![digit_char(n)]
    } else {
        decimal(n / 10).push(digit_char(n % 10))
    }
}

/// Whether `c` is one of the characters `'0'` to `'9'`.
pub open spec fn is_digit(c: char) -> bool {
    48 <= (c as int) <= 57
}

/// The number that a string of decimal digits reads as, most significant
/// digit first.
pub open spec fn numeral_value(s: Seq<char>) -> int
    decreases s.len(),
{
    if s.len() == 0 {
        0
    } else {
        numeral_value(s.drop_last()) * 10 + (s.last() as int - 48)
    }
}

/// A standard base-10 numeral: at least one character, all of them digits,
/// and no leading zero unless the numeral is `"0"` itself.
pub open spec fn is_numeral(s: Seq<char>) -> bool {
    &&& s.len() >= 1
    &&& forall|i: int| 0 <= i < s.len() ==> is_digit(#[trigger] s[i])
    &&& (s[0] == '0' ==> s.len() == 1)
}

/// The decimal representation of every number is a standard numeral that
/// reads back as that number.
pub proof fn lemma_decimal_reads_back(n: nat)
    ensures
        is_numeral(decimal(n)),
        numeral_value(decimal(n)) == n,
    decreases n,
{
    if n < 10 {
        let s = decimal(n);
        assert(s.drop_last() =~= Seq::<char>::empty());
        assert(numeral_value(Seq::<char>::empty()) == 0);
        assert(s.last() as int == 48 + n);
        assert(numeral_value(s) == numeral_value(s.drop_last()) * 10 + (s.last() as int - 48));
    } else {
        lemma_decimal_reads_back(n / 10);
        let p = decimal(n / 10);
        let s = decimal(n);
        assert(s == p.push(digit_char(n % 10)));
        assert(s.drop_last() =~= p);
        assert(s.last() as int == 48 + n % 10);
        assert(numeral_value(s) == numeral_value(p) * 10 + (s.last() as int - 48));
        assert((n / 10) * 10 + n % 10 == n);
        assert(s[0] == p[0]);
        assert forall|i: int| 0 <= i < s.len() implies is_digit(#[trigger] s[i]) by {
            if i < p.len() {
                assert(s[i] == p[i]);
            }
        }
        assert(p[0] == '0' ==> n / 10 == 0) by {
            if p[0] == '0' {
                assert(p.len() == 1);
                assert(p.drop_last() =~= Seq::<char>::empty());
                assert(numeral_value(Seq::<char>::empty()) == 0);
                assert(p.last() == p[0]);
                assert(('0' as int) == 48);
                assert(numeral_value(p) == numeral_value(p.drop_last()) * 10 + (p.last() as int - 48));
            }
        }
    }
}

/// Two numbers with the same decimal representation are equal: the
/// representation loses nothing.
pub proof fn lemma_decimal_injective(m: nat, n: nat)
    requires
        decimal(m) == decimal(n),
    ensures
        m == n,
{
    lemma_decimal_reads_back(m);
    lemma_decimal_reads_back(n);
}

/// Appends one character to a string with std's `String::push`, which is
/// trusted to leave the old characters in place and add `c` after them.
#[verifier::external_body]
fn push_char(s: &mut String, c: char)
    ensures
        final(s)@ == old(s)@.push(c),
{
    s.push(c);
}

fn push_decimal(s: &mut String, n: usize)
    ensures
        final(s)@ == old(s)@ + decimal(n as nat),
    decreases n,
{
    if n >= 10 {
        push_decimal(s, n / 10);
    }
    let d: u8 = (n % 10) as u8;
    let c: char = (48u8 + d) as char;
    push_char(s, c);
    proof {
        assert(c == digit_char((n % 10) as nat));
    }
}

/// The decimal representation of `n`.
pub fn to_decimal_string(n: usize) -> (s: String)
    ensures
        s@ == decimal(n as nat),
        is_numeral(s@),
        numeral_value(s@) == n,
{
    let mut s = String::new();
    push_decimal(&mut s, n);
    assert(s@ =~= decimal(n as nat));
    proof {
        lemma_decimal_reads_back(n as nat);
    }
    s
}

/// Formats the sum of two numbers as a string.
pub fn sum_as_string(a: usize, b: usize) -> (s: String)
    requires
        a + b <= usize::MAX,
    ensures
        s@ == decimal((a + b) as nat),
        is_numeral(s@),
        numeral_value(s@) == a + b,
{
    to_decimal_string(a + b)
}

/// Where a sleeping job ran: on an operating-system thread or on the tokio runtime.
#[derive(PartialEq, Eq, Structural, Clone, Copy, Debug)]
pub enum SleepSite {
    /// An operating-system thread that called `thread::sleep`.
    Thread,
    /// A tokio task.
    Tokio,
}

/// The words that follow a job's number in its completion message.
pub open spec fn completion_suffix(site: SleepSite) -> Seq<char> {
    match site {
        SleepSite::Thread => " complete via thread::sleep!"@,
        SleepSite::Tokio => " complete via tokio!"@,
    }
}

/// The message that a sleeping job with number `id` sends when it is done:
/// the number in decimal, then where it slept.
pub fn completion_message(id: u8, site: SleepSite) -> (s: String)
    ensures
        s@ == decimal(id as nat) + completion_suffix(site),
        s@.len() > completion_suffix(site).len(),
        s@.subrange(s@.len() - completion_suffix(site).len(), s@.len() as int) == completion_suffix(site),
        is_numeral(s@.subrange(0, s@.len() - completion_suffix(site).len())),
        numeral_value(s@.subrange(0, s@.len() - completion_suffix(site).len())) == id,
{
    let mut s = String::new();
    push_decimal(&mut s, id as usize);
    match site {
        SleepSite::Thread => s.append(" complete via thread::sleep!"),
        SleepSite::Tokio => s.append(" complete via tokio!"),
    }
    proof {
        let d = decimal(id as nat);
        let x = completion_suffix(site);
        lemma_decimal_reads_back(id as nat);
        assert(s@.subrange(0, s@.len() - x.len()) =~= d);
        assert(s@.subrange(s@.len() - x.len(), s@.len() as int) =~= x);
    }
    s
}

} // verus!
