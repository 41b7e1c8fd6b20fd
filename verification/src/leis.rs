//! What holds of the service as a whole, stated over the rows of the table
//! and proved from the contracts of its operations.

use vstd::prelude::*;
use crate::data_hora::DataHora;
use crate::livros::{registro_novo, Campos, Registro};
use crate::padrao::{casa_de, envolto, lei_envolto_contem, sem_curingas, simbolos};
use crate::servico::mensagem_cadastro;
use crate::tabela::{
    atualizada, bem_formada, cabe, casa_alguma, casa_autor, casa_categoria, eh_lugar,
    erro_de_atualizacao, erro_de_insercao, indice, inserida, lema_ha_lugar,
    lema_inserida_bem_formada,
    lema_lugar, lugar, reescrito, removida, tem_id,
};
use crate::texto::{contem, numeral, ocorre_em};

verus! {

/// The confirmation of an entry holds the numeral of the identifier and the
/// submitted name.
pub proof fn lei_confirmacao_contem(id: int, nome: Seq<char>)
    ensures
        contem(mensagem_cadastro(id, nome), numeral(id)),
        contem(mensagem_cadastro(id, nome), nome),
{
    let m = mensagem_cadastro(id, nome);
    let a = "Livro Cadastrado | ID: "@;
    let b = " | Nome: "@;
    let n = numeral(id);
    let j: int = a.len() as int;
    assert(m.subrange(j, j + n.len()) =~= n);
    assert(ocorre_em(m, n, j));
    let k: int = (a.len() + n.len() + b.len()) as int;
    assert(m.subrange(k, k + nome.len()) =~= nome);
    assert(ocorre_em(m, nome, k));
}

/// After a book has entered, the table is in order, fetching by its
/// identifier gives the submitted fields under that identifier with the
/// time of entry, and the list holds that row.
pub proof fn lei_cadastro_guarda(t: Seq<Registro>, c: Campos, id: int, agora: DataHora)
    requires
        bem_formada(t),
        erro_de_insercao(t, registro_novo(c, id, agora)) is None,
    ensures
        bem_formada(inserida(t, registro_novo(c, id, agora))),
        tem_id(inserida(t, registro_novo(c, id, agora)), id),
        inserida(t, registro_novo(c, id, agora))[indice(
            inserida(t, registro_novo(c, id, agora)),
            id,
        )] == registro_novo(c, id, agora),
        inserida(t, registro_novo(c, id, agora)).contains(registro_novo(c, id, agora)),
{
    let novo = registro_novo(c, id, agora);
    let u = inserida(t, novo);
    lema_ha_lugar(t, agora);
    lema_inserida_bem_formada(t, novo);
    let p = lugar(t, agora);
    assert(u[p] == novo);
    assert(tem_id(u, id));
}

/// A new row is the first of the list when no stored row was entered after
/// it.
pub proof fn lei_novo_primeiro(t: Seq<Registro>, novo: Registro)
    requires
        bem_formada(t),
        erro_de_insercao(t, novo) is None,
        forall|i: int|
            0 <= i < t.len() ==> !novo.data_cadastro.antes((#[trigger] t[i]).data_cadastro),
    ensures
        inserida(t, novo)[0] == novo,
{
    assert(eh_lugar(t, novo.data_cadastro, 0));
    lema_lugar(t, novo.data_cadastro, 0);
}

/// An update of a stored book with fields that fit is accepted. It writes
/// exactly the submitted fields to that row and leaves its identifier and
/// both times as they were, leaves every other row as it was, and a fetch
/// by the identifier then gives the rewritten row.
pub proof fn lei_atualizacao_troca(t: Seq<Registro>, id: int, c: Campos)
    requires
        bem_formada(t),
        tem_id(t, id),
        cabe(c),
    ensures
        erro_de_atualizacao(t, id, c) is None,
        bem_formada(atualizada(t, id, c)),
        tem_id(atualizada(t, id, c), id),
        atualizada(t, id, c)[indice(atualizada(t, id, c), id)] == reescrito(t[indice(t, id)], c),
        reescrito(t[indice(t, id)], c).campos == c,
        reescrito(t[indice(t, id)], c).id == id,
        reescrito(t[indice(t, id)], c).data_cadastro == t[indice(t, id)].data_cadastro,
        atualizada(t, id, c).len() == t.len(),
        forall|i: int|
            0 <= i < t.len() && t[i].id != id ==> #[trigger] atualizada(t, id, c)[i] == t[i],
{
    let k = indice(t, id);
    let u = atualizada(t, id, c);
    assert forall|i: int| 0 <= i < u.len() implies (#[trigger] u[i]).id == t[i].id
        && u[i].data_cadastro == t[i].data_cadastro by {}
    assert(u[k].id == id);
    assert(tem_id(u, id));
}

/// An update of a book that is not stored fails.
pub proof fn lei_atualizacao_sem_linha(t: Seq<Registro>, id: int, c: Campos)
    requires
        !tem_id(t, id),
    ensures
        erro_de_atualizacao(t, id, c) is Some,
{
}

/// Once a stored book is deleted no row has its identifier, so a fetch by
/// it fails; the other rows stay.
pub proof fn lei_remocao_some(t: Seq<Registro>, id: int)
    requires
        bem_formada(t),
        tem_id(t, id),
    ensures
        bem_formada(removida(t, id)),
        !tem_id(removida(t, id), id),
        forall|i: int| 0 <= i < t.len() && t[i].id != id ==> removida(t, id).contains(#[trigger] t[i]),
{
    let k = indice(t, id);
    let u = removida(t, id);
    assert forall|i: int| 0 <= i < u.len() implies #[trigger] u[i] == t[if i < k {
        i
    } else {
        i + 1
    }] by {}
    assert forall|i: int| 0 <= i < t.len() && t[i].id != id implies u.contains(
        #[trigger] t[i],
    ) by {
        if i < k {
            assert(u[i] == t[i]);
        } else {
            assert(u[i - 1] == t[i]);
        }
    }
}

/// A search by author for a fragment without `%`, `_` and backslash gives
/// the stored books in whose author the fragment occurs, and no others.
pub proof fn lei_busca_autor(t: Seq<Registro>, trecho: Seq<char>, r: Registro)
    requires
        sem_curingas(trecho),
    ensures
        t.filter(casa_autor(envolto(trecho))).contains(r) <==> t.contains(r) && contem(
            r.campos.autor,
            trecho,
        ),
{
    let f = casa_autor(envolto(trecho));
    lei_envolto_contem(trecho, r.campos.autor);
    assert(f(r) == contem(r.campos.autor, trecho));
    lema_filtro_contem(t, f, r);
}

/// A search by category for a fragment without `%`, `_` and backslash
/// gives the stored books that have a category in which the fragment
/// occurs, and no others: the test is made element by element.
pub proof fn lei_busca_categoria(t: Seq<Registro>, trecho: Seq<char>, r: Registro)
    requires
        sem_curingas(trecho),
    ensures
        t.filter(casa_categoria(envolto(trecho))).contains(r) <==> t.contains(r) && exists|
            i: int,
        |
            0 <= i < r.campos.categorias.len() && (#[trigger] r.campos.categorias[i]) is Some
                && contem(r.campos.categorias[i]->0, trecho),
{
    let f = casa_categoria(envolto(trecho));
    let cs = r.campos.categorias;
    let ss = simbolos(envolto(trecho));
    assert forall|i: int| 0 <= i < cs.len() && (#[trigger] cs[i]) is Some implies (casa_de(
        ss,
        cs[i]->0,
        0,
        0,
    ) <==> contem(cs[i]->0, trecho)) by {
        lei_envolto_contem(trecho, cs[i]->0);
    }
    assert(f(r) == casa_alguma(ss, cs));
    if casa_alguma(ss, cs) {
        let i = choose|i: int|
            0 <= i < cs.len() && (#[trigger] cs[i]) is Some && casa_de(ss, cs[i]->0, 0, 0);
        assert(cs[i] is Some && contem(cs[i]->0, trecho));
    }
    lema_filtro_contem(t, f, r);
}

/// A row is among the selected rows exactly when it is among the rows and
/// passes the test.
proof fn lema_filtro_contem(t: Seq<Registro>, f: spec_fn(Registro) -> bool, r: Registro)
    ensures
        t.filter(f).contains(r) <==> t.contains(r) && f(r),
    decreases t.len(),
{
    reveal(Seq::filter);
    if t.len() > 0 {
        let u = t.drop_last();
        lema_filtro_contem(u, f, r);
        if t.contains(r) {
            let i = choose|i: int| 0 <= i < t.len() && t[i] == r;
            if i < t.len() - 1 {
                assert(u[i] == r);
            }
        }
        if u.contains(r) {
            let i = choose|i: int| 0 <= i < u.len() && u[i] == r;
            assert(t[i] == r);
        }
        if f(t.last()) {
            let v = u.filter(f).push(t.last());
            if v.contains(r) {
                let i = choose|i: int| 0 <= i < v.len() && v[i] == r;
                if i < v.len() - 1 {
                    assert(u.filter(f)[i] == r);
                }
            }
            if u.filter(f).contains(r) {
                let i = choose|i: int| 0 <= i < u.filter(f).len() && u.filter(f)[i] == r;
                assert(v[i] == r);
            }
            if r == t.last() {
                assert(v[v.len() - 1] == r);
            }
        }
    }
}

} // verus!
