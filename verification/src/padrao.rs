//! Search patterns in the manner of SQL's `LIKE`: `%` stands for any run of
//! characters, `_` for any one character, and a backslash takes the
//! character after it literally.

use vstd::prelude::*;
use vstd::string::StringExecFns;
use crate::texto::{caracteres, contem, ocorre_em};

verus! {

/// One element of a pattern.
#[derive(Clone, Copy, Debug, PartialEq, Eq, Structural)]
pub enum Simbolo {
    /// `%`: any run of characters, the empty one too.
    Qualquer,
    /// `_`: any one character.
    Um,
    /// The character itself.
    Literal(char),
}

/// The number of characters that the first element of a pattern takes:
/// two for a backslash and the character it escapes, else one.
pub open spec fn largura(p: Seq<char>) -> int {
    if p.len() >= 2 && p[0] == '\\' {
        2
    } else {
        1
    }
}

/// The first element of a pattern that is not empty. A backslash that ends
/// the pattern, with nothing after it to escape, stands for itself.
pub open spec fn primeiro(p: Seq<char>) -> Simbolo {
    if p.len() >= 2 && p[0] == '\\' {
        Simbolo::Literal(p[1])
    } else if p[0] == '%' {
        Simbolo::Qualquer
    } else if p[0] == '_' {
        Simbolo::Um
    } else {
        Simbolo::Literal(p[0])
    }
}

/// The elements that a pattern is made of.
pub open spec fn simbolos(p: Seq<char>) -> Seq<Simbolo>
    decreases p.len(),
{
    if p.len() == 0 {
        Seq::empty()
    } else {
        seq![primeiro(p)] + simbolos(p.skip(largura(p)))
    }
}

/// Whether the elements from the `i`-th on match the text from its `j`-th
/// character to its end.
pub open spec fn casa_de(ss: Seq<Simbolo>, t: Seq<char>, i: int, j: int) -> bool
    decreases ss.len() - i, t.len() - j,
{
    if i >= ss.len() {
        j >= t.len()
    } else {
        match ss[i] {
            Simbolo::Qualquer => casa_de(ss, t, i + 1, j) || (j < t.len() && casa_de(
                ss,
                t,
                i,
                j + 1,
            )),
            Simbolo::Um => j < t.len() && casa_de(ss, t, i + 1, j + 1),
            Simbolo::Literal(c) => j < t.len() && t[j] == c && casa_de(ss, t, i + 1, j + 1),
        }
    }
}

/// Whether the whole text matches the pattern.
pub open spec fn casa(p: Seq<char>, t: Seq<char>) -> bool {
    casa_de(simbolos(p), t, 0, 0)
}

/// The pattern that matches the texts in which `trecho` occurs: the
/// fragment between two `%`.
pub open spec fn envolto(trecho: Seq<char>) -> Seq<char> {
    seq!['%'] + trecho + seq!['%']
}

/// Builds the pattern that looks for `trecho` anywhere in a text.
pub fn envolver(trecho: &str) -> (r: String)
    ensures
        r@ == envolto(trecho@),
{
    proof {
        reveal_strlit("%");
        assert("%"@ =~= seq!['%']);
    }
    let mut r: String = String::from_str("%");
    r.append(trecho);
    r.append("%");
    r
}

/// Splits a pattern into its elements.
pub fn analisar(p: &str) -> (r: Vec<Simbolo>)
    ensures
        r@ == simbolos(p@),
{
    let cs: Vec<char> = caracteres(p);
    let n: usize = cs.len();
    let mut r: Vec<Simbolo> = Vec::new();
    let mut i: usize = 0;
    proof {
        assert(cs@.skip(0) =~= cs@);
        assert(r@ + simbolos(cs@) =~= simbolos(cs@));
    }
    while i < n
        invariant
            n == cs.len(),
            cs@ == p@,
            i <= n,
            r@ + simbolos(cs@.skip(i as int)) == simbolos(cs@),
        decreases n - i,
    {
        let c: char = cs[i];
        let ghost resto = cs@.skip(i as int);
        let ghost feito = r@;
        proof {
            assert(resto[0] == c);
        }
        if c == '\\' && i + 1 < n {
            r.push(Simbolo::Literal(cs[i + 1]));
            proof {
                assert(resto[1] == cs@[i + 1]);
                assert(resto.skip(2) =~= cs@.skip(i + 2));
                assert(r@ + simbolos(cs@.skip(i + 2)) =~= feito + simbolos(resto));
            }
            i = i + 2;
        } else {
            if c == '%' {
                r.push(Simbolo::Qualquer);
            } else if c == '_' {
                r.push(Simbolo::Um);
            } else {
                r.push(Simbolo::Literal(c));
            }
            proof {
                assert(resto.skip(1) =~= cs@.skip(i + 1));
                assert(r@ + simbolos(cs@.skip(i + 1)) =~= feito + simbolos(resto));
            }
            i = i + 1;
        }
    }
    proof {
        assert(simbolos(cs@.skip(n as int)) =~= Seq::<Simbolo>::empty());
        assert(r@ + Seq::<Simbolo>::empty() =~= r@);
    }
    r
}

/// Matches a text against the elements of a pattern.
pub fn casar(ss: &Vec<Simbolo>, t: &Vec<char>) -> (r: bool)
    ensures
        r == casa_de(ss@, t@, 0, 0),
{
    let m: usize = ss.len();
    let n: usize = t.len();
    // `linha[j]` tells whether the elements from `i` on match the text from `j` on.
    let mut linha: Vec<bool> = Vec::new();
    while linha.len() < n
        invariant
            n == t.len(),
            m == ss.len(),
            linha.len() <= n,
            forall|x: int| 0 <= x < linha.len() ==> linha@[x] == casa_de(ss@, t@, m as int, x),
        decreases n - linha.len(),
    {
        linha.push(false);
    }
    linha.push(true);
    let mut i: usize = m;
    while i > 0
        invariant
            n == t.len(),
            m == ss.len(),
            i <= m,
            linha.len() == n + 1,
            forall|x: int| 0 <= x <= n ==> linha@[x] == casa_de(ss@, t@, i as int, x),
        decreases i,
    {
        i = i - 1;
        let s: Simbolo = ss[i];
        let mut j: usize = linha.len();
        let mut diagonal: bool = false;
        while j > 0
            invariant
                n == t.len(),
                m == ss.len(),
                i < m,
                s == ss@[i as int],
                linha.len() == n + 1,
                j <= n + 1,
                forall|x: int| 0 <= x < j ==> linha@[x] == casa_de(ss@, t@, i + 1, x),
                forall|x: int| j <= x <= n ==> linha@[x] == casa_de(ss@, t@, i as int, x),
                j <= n ==> diagonal == casa_de(ss@, t@, i + 1, j as int),
            decreases j,
        {
            j = j - 1;
            let acima: bool = linha[j];
            let novo: bool = match s {
                Simbolo::Qualquer => acima || (j < n && linha[j + 1]),
                Simbolo::Um => j < n && diagonal,
                Simbolo::Literal(c) => j < n && t[j] == c && diagonal,
            };
            linha.set(j, novo);
            diagonal = acima;
        }
    }
    linha[0]
}

/// Tells whether the text matches the pattern.
pub fn corresponde(padrao: &str, texto: &str) -> (r: bool)
    ensures
        r == casa(padrao@, texto@),
{
    let ss: Vec<Simbolo> = analisar(padrao);
    let t: Vec<char> = caracteres(texto);
    casar(&ss, &t)
}

/// Whether a fragment holds no character that a pattern reads specially.
pub open spec fn sem_curingas(trecho: Seq<char>) -> bool {
    forall|i: int|
        0 <= i < trecho.len() ==> (#[trigger] trecho[i]) != '%' && trecho[i] != '_' && trecho[i]
            != '\\'
}

/// The element that stands for the character `c` itself.
pub open spec fn literal(c: char) -> Simbolo {
    Simbolo::Literal(c)
}

/// The characters of a fragment as elements that stand for themselves.
pub open spec fn literais(trecho: Seq<char>) -> Seq<Simbolo> {
    Seq::new(trecho.len(), |i: int| literal(trecho[i]))
}

/// A fragment without special characters that begins a pattern is read
/// character by character.
proof fn lema_simbolos_literais(trecho: Seq<char>, resto: Seq<char>)
    requires
        sem_curingas(trecho),
    ensures
        simbolos(trecho + resto) == literais(trecho) + simbolos(resto),
    decreases trecho.len(),
{
    if trecho.len() == 0 {
        assert(trecho + resto =~= resto);
        assert(literais(trecho) + simbolos(resto) =~= simbolos(resto));
    } else {
        let p = trecho + resto;
        assert(p[0] == trecho[0]);
        assert(p.skip(1) =~= trecho.skip(1) + resto);
        assert(sem_curingas(trecho.skip(1))) by {
            assert forall|i: int| 0 <= i < trecho.skip(1).len() implies (#[trigger] trecho.skip(
                1,
            )[i]) != '%' && trecho.skip(1)[i] != '_' && trecho.skip(1)[i] != '\\' by {
                assert(trecho.skip(1)[i] == trecho[i + 1]);
            }
        }
        lema_simbolos_literais(trecho.skip(1), resto);
        assert(simbolos(p) == seq![Simbolo::Literal(trecho[0])] + simbolos(p.skip(1)));
        assert(seq![Simbolo::Literal(trecho[0])] + (literais(trecho.skip(1)) + simbolos(resto))
            =~= literais(trecho) + simbolos(resto));
    }
}

/// The elements of the pattern that looks for a fragment without special
/// characters: the fragment's characters between two `%`.
proof fn lema_simbolos_envolto(trecho: Seq<char>)
    requires
        sem_curingas(trecho),
    ensures
        simbolos(envolto(trecho)) == seq![Simbolo::Qualquer] + literais(trecho)
            + seq![Simbolo::Qualquer],
{
    let fim = seq!['%'];
    let p = envolto(trecho);
    assert(p[0] == '%');
    assert(p.skip(1) =~= trecho + fim);
    lema_simbolos_literais(trecho, fim);
    assert(simbolos(fim) =~= seq![Simbolo::Qualquer]) by {
        assert(fim.skip(1) =~= Seq::<char>::empty());
        assert(simbolos(fim) == seq![Simbolo::Qualquer] + simbolos(fim.skip(1)));
        assert(simbolos(fim.skip(1)) =~= Seq::<Simbolo>::empty());
    }
    assert(simbolos(p) == seq![Simbolo::Qualquer] + simbolos(p.skip(1)));
    assert(seq![Simbolo::Qualquer] + (literais(trecho) + seq![Simbolo::Qualquer])
        =~= seq![Simbolo::Qualquer] + literais(trecho) + seq![Simbolo::Qualquer]);
}

/// A `%` at the end of a pattern matches whatever is left of the text.
proof fn lema_resto_qualquer(ss: Seq<Simbolo>, t: Seq<char>, j: int)
    requires
        ss.len() > 0,
        ss.last() == Simbolo::Qualquer,
        0 <= j <= t.len(),
    ensures
        casa_de(ss, t, ss.len() - 1, j),
    decreases t.len() - j,
{
    if j < t.len() {
        lema_resto_qualquer(ss, t, j + 1);
    } else {
        assert(casa_de(ss, t, ss.len() as int, j));
    }
}

/// Whether the text from `k` on begins with the fragment from `a` on.
spec fn segue(trecho: Seq<char>, t: Seq<char>, a: int, k: int) -> bool {
    k + (trecho.len() - a) <= t.len() && forall|i: int|
        a <= i < trecho.len() ==> #[trigger] t[k + i - a] == trecho[i]
}

/// The characters of the fragment, followed by `%`, match the text from
/// `k` on when the text goes on with them there.
proof fn lema_meio(trecho: Seq<char>, t: Seq<char>, a: int, k: int)
    requires
        0 <= a <= trecho.len(),
        0 <= k <= t.len(),
    ensures
        casa_de(
            seq![Simbolo::Qualquer] + literais(trecho) + seq![Simbolo::Qualquer],
            t,
            1 + a,
            k,
        ) <==> segue(trecho, t, a, k),
    decreases trecho.len() - a,
{
    let ss = seq![Simbolo::Qualquer] + literais(trecho) + seq![Simbolo::Qualquer];
    if a == trecho.len() {
        lema_resto_qualquer(ss, t, k);
    } else {
        assert(ss[1 + a] == Simbolo::Literal(trecho[a]));
        if k < t.len() {
            lema_meio(trecho, t, a + 1, k + 1);
            if segue(trecho, t, a, k) {
                assert(t[k + a - a] == trecho[a]);
                assert forall|i: int| a + 1 <= i < trecho.len() implies #[trigger] t[k + 1 + i - (a
                    + 1)] == trecho[i] by {
                    assert(t[k + i - a] == trecho[i]);
                }
            }
            if t[k] == trecho[a] && segue(trecho, t, a + 1, k + 1) {
                assert forall|i: int| a <= i < trecho.len() implies #[trigger] t[k + i - a]
                    == trecho[i] by {
                    if i > a {
                        assert(t[k + 1 + i - (a + 1)] == trecho[i]);
                    }
                }
            }
        }
    }
}

/// A `%` at the head of a pattern lets the rest match from any later place.
proof fn lema_inicio(ss: Seq<Simbolo>, t: Seq<char>, j: int)
    requires
        ss.len() > 0,
        ss[0] == Simbolo::Qualquer,
        0 <= j <= t.len(),
    ensures
        casa_de(ss, t, 0, j) <==> exists|k: int| j <= k <= t.len() && casa_de(ss, t, 1, k),
    decreases t.len() - j,
{
    if j < t.len() {
        lema_inicio(ss, t, j + 1);
        if casa_de(ss, t, 0, j) {
            if casa_de(ss, t, 1, j) {
                assert(j <= j <= t.len() && casa_de(ss, t, 1, j));
            } else {
                let k = choose|k: int| j + 1 <= k <= t.len() && casa_de(ss, t, 1, k);
                assert(j <= k <= t.len() && casa_de(ss, t, 1, k));
            }
        }
        if exists|k: int| j <= k <= t.len() && casa_de(ss, t, 1, k) {
            let k = choose|k: int| j <= k <= t.len() && casa_de(ss, t, 1, k);
            if k > j {
                assert(j + 1 <= k <= t.len() && casa_de(ss, t, 1, k));
            }
        }
    } else {
        if casa_de(ss, t, 0, j) {
            assert(j <= j <= t.len() && casa_de(ss, t, 1, j));
        }
    }
}

/// A text matches the pattern made of a fragment between two `%` exactly
/// when the fragment occurs in the text, provided the fragment holds none
/// of `%`, `_` and the backslash.
pub proof fn lei_envolto_contem(trecho: Seq<char>, t: Seq<char>)
    requires
        sem_curingas(trecho),
    ensures
        casa(envolto(trecho), t) <==> contem(t, trecho),
{
    let ss = seq![Simbolo::Qualquer] + literais(trecho) + seq![Simbolo::Qualquer];
    lema_simbolos_envolto(trecho);
    lema_inicio(ss, t, 0);
    if casa(envolto(trecho), t) {
        let k = choose|k: int| 0 <= k <= t.len() && casa_de(ss, t, 1, k);
        lema_meio(trecho, t, 0, k);
        assert(t.subrange(k, k + trecho.len()) =~= trecho) by {
            assert forall|i: int| 0 <= i < trecho.len() implies t[k + i] == trecho[i] by {
                assert(t[k + i - 0] == trecho[i]);
            }
        }
        assert(ocorre_em(t, trecho, k));
    }
    if contem(t, trecho) {
        let k = choose|k: int| ocorre_em(t, trecho, k);
        lema_meio(trecho, t, 0, k);
        assert forall|i: int| 0 <= i < trecho.len() implies #[trigger] t[k + i - 0]
            == trecho[i] by {
            assert(t.subrange(k, k + trecho.len())[i] == t[k + i]);
        }
        assert(segue(trecho, t, 0, k));
        assert(0 <= k <= t.len() && casa_de(ss, t, 1, k));
    }
}

} // verus!
