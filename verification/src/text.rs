//! Comparing and writing texts.

use vstd::prelude::*;
use vstd::string::*;

verus! {

/// Whether `k` is the first place at which `a` and `b` differ, and `a` ends
/// there or has the lower character there.
pub open spec fn less_at(a: Seq<char>, b: Seq<char>, k: int) -> bool {
    &&& 0 <= k <= a.len()
    &&& k < b.len()
    &&& a.take(k) == b.take(k)
    &&& (k == a.len() || (a[k] as u32) < (b[k] as u32))
}

/// Whether `a` comes before `b` in the order of a dictionary, characters
/// being ordered by their code points.
pub open spec fn lex_less(a: Seq<char>, b: Seq<char>) -> bool {
    exists|k: int| less_at(a, b, k)
}

/// No text comes before itself.
pub proof fn lemma_lex_irreflexive(a: Seq<char>)
    ensures
        !lex_less(a, a),
{
}

/// What comes before a text comes before all that the text comes before.
pub proof fn lemma_lex_transitive(a: Seq<char>, b: Seq<char>, c: Seq<char>)
    requires
        lex_less(a, b),
        lex_less(b, c),
    ensures
        lex_less(a, c),
{
    let k1 = choose|k: int| less_at(a, b, k);
    let k2 = choose|k: int| less_at(b, c, k);
    if k1 < k2 {
        assert(a.take(k1) =~= b.take(k2).take(k1));
        assert(c.take(k1) =~= c.take(k2).take(k1));
        assert(b.take(k2)[k1] == c.take(k2)[k1]);
        assert(less_at(a, c, k1));
    } else if k2 < k1 {
        assert(a.take(k2) =~= a.take(k1).take(k2));
        assert(b.take(k2) =~= b.take(k1).take(k2));
        assert(a.take(k1)[k2] == b.take(k1)[k2]);
        assert(less_at(a, c, k2));
    } else {
        assert(less_at(a, c, k1));
    }
}

/// How two texts stand to each other.
#[derive(Clone, Copy, PartialEq, Eq, Debug, Structural)]
pub enum TextOrder {
    Before,
    Same,
    After,
}

/// Holds two texts against each other.
pub fn compare_text(a: &str, b: &str) -> (o: TextOrder)
    ensures
        match o {
            TextOrder::Before => lex_less(a@, b@),
            TextOrder::Same => a@ == b@,
            TextOrder::After => lex_less(b@, a@),
        },
{
    let la = a.unicode_len();
    let lb = b.unicode_len();
    let mut i: usize = 0;
    while i < la && i < lb
        invariant
            la == a@.len(),
            lb == b@.len(),
            i <= la,
            i <= lb,
            a@.take(i as int) == b@.take(i as int),
        decreases la - i,
    {
        let ca = a.get_char(i);
        let cb = b.get_char(i);
        if ca != cb {
            if (ca as u32) < (cb as u32) {
                assert(less_at(a@, b@, i as int));
                return TextOrder::Before;
            } else {
                assert(less_at(b@, a@, i as int));
                return TextOrder::After;
            }
        }
        assert(a@.take(i + 1) =~= a@.take(i as int).push(a@[i as int]));
        assert(b@.take(i + 1) =~= b@.take(i as int).push(b@[i as int]));
        i = i + 1;
    }
    if la == lb {
        assert(a@ =~= a@.take(i as int));
        assert(b@ =~= b@.take(i as int));
        TextOrder::Same
    } else if la < lb {
        assert(less_at(a@, b@, i as int));
        TextOrder::Before
    } else {
        assert(less_at(b@, a@, i as int));
        TextOrder::After
    }
}

/// Whether two texts are the same.
pub fn same_text(a: &str, b: &str) -> (same: bool)
    ensures
        same == (a@ == b@),
{
    match compare_text(a, b) {
        TextOrder::Same => true,
        TextOrder::Before => {
            proof {
                lemma_lex_irreflexive(a@);
            }
            false
        },
        TextOrder::After => {
            proof {
                lemma_lex_irreflexive(a@);
            }
            false
        },
    }
}

/// The character of a digit.
pub open spec fn digit_char(d: nat) -> char {
    if d == 0 {
        '0'
    } else if d == 1 {
        '1'
    } else if d == 2 {
        '2'
    } else if d == 3 {
        '3'
    } else if d == 4 {
        '4'
    } else if d == 5 {
        '5'
    } else if d == 6 {
        '6'
    } else if d == 7 {
        '7'
    } else if d == 8 {
        '8'
    } else {
        '9'
    }
}

/// A number written in decimal digits, without leading zeros.
pub open spec fn decimal(n: nat) -> Seq<char>
    decreases n,
{
    if n < 10 {
        seq![digit_char(n)]
    } else {
        decimal(n / 10).push(digit_char(n % 10))
    }
}

fn digit_text(d: u32) -> (s: &'static str)
    requires
        d < 10,
    ensures
        s@ == seq![digit_char(d as nat)],
{
    proof {
        reveal_strlit("0");
        reveal_strlit("1");
        reveal_strlit("2");
        reveal_strlit("3");
        reveal_strlit("4");
        reveal_strlit("5");
        reveal_strlit("6");
        reveal_strlit("7");
        reveal_strlit("8");
        reveal_strlit("9");
    }
    let s = match d {
        0 => "0",
        1 => "1",
        2 => "2",
        3 => "3",
        4 => "4",
        5 => "5",
        6 => "6",
        7 => "7",
        8 => "8",
        _ => "9",
    };
    assert(s@ =~= seq![digit_char(d as nat)]);
    s
}

/// Writes a number in decimal digits.
pub fn decimal_string(n: u32) -> (s: String)
    ensures
        s@ == decimal(n as nat),
    decreases n,
{
    if n < 10 {
        String::from_str(digit_text(n))
    } else {
        let front = decimal_string(n / 10);
        let s = front.concat(digit_text(n % 10));
        assert(s@ =~= decimal(n as nat));
        s
    }
}

/// The number that `i32::from_str` reads from a text, where it reads one.
pub uninterp spec fn parsed_i32(text: Seq<char>) -> Option<i32>;

/// The number that `u32::from_str` reads from a text, where it reads one.
pub uninterp spec fn parsed_u32(text: Seq<char>) -> Option<u32>;

/// Reads a number with `str::parse`, which hands the text to
/// `i32::from_str`: the same text always gives the same number, or none.
#[verifier::external_body]
pub(crate) fn parse_i32(input: &str) -> (r: Option<i32>)
    ensures
        r == parsed_i32(input@),
{
    input.parse::<i32>().ok()
}

/// Reads a number with `str::parse`, which hands the text to
/// `u32::from_str`: the same text always gives the same number, or none.
#[verifier::external_body]
pub(crate) fn parse_u32(input: &str) -> (r: Option<u32>)
    ensures
        r == parsed_u32(input@),
{
    input.parse::<u32>().ok()
}

} // verus!
