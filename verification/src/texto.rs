//! Text helpers: white space, characters of a string, decimal numerals.

use vstd::prelude::*;
use vstd::std_specs::iter::IteratorSpec;
use vstd::string::StringExecFns;

verus! {

/// Whether `c` has the Unicode property White_Space.
pub open spec fn espaco(c: char) -> bool {
    let n = c as u32;
    ||| 0x09 <= n <= 0x0D
    ||| n == 0x20
    ||| n == 0x85
    ||| n == 0xA0
    ||| n == 0x1680
    ||| 0x2000 <= n <= 0x200A
    ||| n == 0x2028
    ||| n == 0x2029
    ||| n == 0x202F
    ||| n == 0x205F
    ||| n == 0x3000
}

/// Whether a text is made of white space alone, that is, whether nothing
/// is left of it once white space is trimmed from both ends.
pub open spec fn em_branco(s: Seq<char>) -> bool {
    forall|i: int| 0 <= i < s.len() ==> espaco(#[trigger] s[i])
}

/// Tests one character for white space.
pub fn eh_espaco(c: char) -> (r: bool)
    ensures
        r == espaco(c),
{
    let n: u32 = c as u32;
    (0x09 <= n && n <= 0x0D) || n == 0x20 || n == 0x85 || n == 0xA0 || n == 0x1680 || (0x2000 <= n
        && n <= 0x200A) || n == 0x2028 || n == 0x2029 || n == 0x202F || n == 0x205F || n == 0x3000
}

/// Whether `trecho` stands in `t` from the position `k` on.
pub open spec fn ocorre_em(t: Seq<char>, trecho: Seq<char>, k: int) -> bool {
    0 <= k && k + trecho.len() <= t.len() && t.subrange(k, k + trecho.len()) == trecho
}

/// Whether `trecho` occurs somewhere in `t` as a run of neighbouring
/// characters.
pub open spec fn contem(t: Seq<char>, trecho: Seq<char>) -> bool {
    exists|k: int| ocorre_em(t, trecho, k)
}

/// Tests whether a string holds white space alone.
pub fn so_espacos(s: &str) -> (r: bool)
    ensures
        r == em_branco(s@),
{
    let cs: Vec<char> = caracteres(s);
    let mut i: usize = 0;
    while i < cs.len()
        invariant
            cs@ == s@,
            i <= cs.len(),
            forall|k: int| 0 <= k < i ==> espaco(#[trigger] s@[k]),
        decreases cs.len() - i,
    {
        if !eh_espaco(cs[i]) {
            return false;
        }
        i = i + 1;
    }
    true
}

/// The texts of a list of string slices.
pub open spec fn ver_textos(partes: Seq<&str>) -> Seq<Seq<char>> {
    Seq::new(partes.len(), |i: int| partes[i]@)
}

/// The parts written one after the other with `sep` between neighbours.
pub open spec fn juntado(partes: Seq<Seq<char>>, sep: Seq<char>) -> Seq<char>
    decreases partes.len(),
{
    if partes.len() == 0 {
        Seq::empty()
    } else if partes.len() == 1 {
        partes[0]
    } else {
        juntado(partes.drop_last(), sep) + sep + partes.last()
    }
}

/// Joins the parts with `sep` between neighbours.
pub fn juntar(partes: &Vec<&str>, sep: &str) -> (r: String)
    ensures
        r@ == juntado(ver_textos(partes@), sep@),
{
    let mut r: String = String::new();
    let mut i: usize = 0;
    while i < partes.len()
        invariant
            i <= partes.len(),
            r@ == juntado(ver_textos(partes@).take(i as int), sep@),
        decreases partes.len() - i,
    {
        let ghost antes = ver_textos(partes@).take(i as int);
        let ghost depois = ver_textos(partes@).take(i + 1);
        proof {
            assert(depois.drop_last() =~= antes);
            assert(depois.last() == partes@[i as int]@);
        }
        if i > 0 {
            r.append(sep);
        }
        r.append(partes[i]);
        proof {
            if i == 0 {
                assert(r@ =~= partes@[0]@);
            }
        }
        i = i + 1;
    }
    proof {
        assert(ver_textos(partes@).take(partes.len() as int) =~= ver_textos(partes@));
    }
    r
}

/// The characters of a string, in order.
pub fn caracteres(s: &str) -> (r: Vec<char>)
    ensures
        r@ == s@,
{
    let mut r: Vec<char> = Vec::new();
    let mut it = s.chars();
    loop
        invariant
            it.obeys_prophetic_iter_laws(),
            it.decrease() is Some,
            r@ + it.remaining() == s@,
        ensures
            r@ == s@,
        decreases it.decrease()->0,
    {
        let ghost antes = it.remaining();
        match it.next() {
            Some(c) => {
                r.push(c);
                proof {
                    assert(r@ + it.remaining() =~= r@.drop_last() + antes);
                }
            },
            None => {
                proof {
                    assert(r@ + it.remaining() =~= r@);
                }
                break ;
            },
        }
    }
    r
}

/// The decimal digit of a value below ten.
pub open spec fn digito(d: int) -> char {
    if d == 0 {
        '0'
    } else if d == 1 {
        '1'
    } else if d == 2 {
        '2'
    } else if d == 3 {
        '3'
    } else if d == 4 {
        '4'
    } else if d == 5 {
        '5'
    } else if d == 6 {
        '6'
    } else if d == 7 {
        '7'
    } else if d == 8 {
        '8'
    } else {
        '9'
    }
}

/// The decimal numeral of a natural number, without leading zeros.
pub open spec fn numeral_nat(n: nat) -> Seq<char>
    decreases n,
{
    if n < 10 {
        seq![digito(n as int)]
    } else {
        numeral_nat(n / 10).push(digito((n % 10) as int))
    }
}

/// The decimal numeral of an integer: a minus sign before the numeral of
/// its magnitude where it is negative.
pub open spec fn numeral(n: int) -> Seq<char> {
    if n < 0 {
        seq!['-'] + numeral_nat((-n) as nat)
    } else {
        numeral_nat(n as nat)
    }
}

/// A numeral is never empty and ends in a digit, so it is never blank.
pub proof fn lema_numeral_visivel(n: int)
    ensures
        numeral(n).len() > 0,
        !em_branco(numeral(n)),
{
    let m: nat = if n < 0 {
        (-n) as nat
    } else {
        n as nat
    };
    let s = numeral_nat(m);
    assert(s.len() > 0 && !espaco(s.last())) by {
        reveal_with_fuel(numeral_nat, 2);
    }
    let t = numeral(n);
    assert(t.len() > 0);
    assert(t.last() == s.last());
    assert(!espaco(t[t.len() - 1]));
}

/// One decimal digit as a string of one character.
fn digito_texto(d: u64) -> (r: &'static str)
    requires
        d < 10,
    ensures
        r@ == seq![digito(d as int)],
{
    proof {
        reveal_strlit("0");
        reveal_strlit("1");
        reveal_strlit("2");
        reveal_strlit("3");
        reveal_strlit("4");
        reveal_strlit("5");
        reveal_strlit("6");
        reveal_strlit("7");
        reveal_strlit("8");
        reveal_strlit("9");
    }
    let r: &'static str = if d == 0 {
        "0"
    } else if d == 1 {
        "1"
    } else if d == 2 {
        "2"
    } else if d == 3 {
        "3"
    } else if d == 4 {
        "4"
    } else if d == 5 {
        "5"
    } else if d == 6 {
        "6"
    } else if d == 7 {
        "7"
    } else if d == 8 {
        "8"
    } else {
        "9"
    };
    proof {
        assert(r@ =~= seq![digito(d as int)]);
    }
    r
}

/// Writes a natural number in decimal.
pub fn decimal_nat(n: u64) -> (r: String)
    ensures
        r@ == numeral_nat(n as nat),
    decreases n,
{
    if n < 10 {
        String::from_str(digito_texto(n))
    } else {
        let mut r: String = decimal_nat(n / 10);
        r.append(digito_texto(n % 10));
        r
    }
}

/// Writes an integer in decimal, as `numeral` gives it.
pub fn decimal(n: i32) -> (r: String)
    ensures
        r@ == numeral(n as int),
{
    if n < 0 {
        let m: i64 = -(n as i64);
        let mut r: String = String::from_str("-");
        proof {
            reveal_strlit("-");
        }
        let d: String = decimal_nat(m as u64);
        r.append(d.as_str());
        proof {
            assert(r@ =~= numeral(n as int));
        }
        r
    } else {
        decimal_nat(n as u64)
    }
}

} // verus!
