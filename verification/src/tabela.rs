//! The table of books: its rows, what it refuses, and the statements that
//! the service runs on it.

use vstd::prelude::*;
use vstd::string::StringExecFns;
use crate::data_hora::DataHora;
use crate::livros::{ver_categorias, AtualizarLivroInput, Campos, Livro, Registro};
use crate::padrao::{analisar, casa, casa_de, casar, simbolos, Simbolo};
use crate::texto::caracteres;

verus! {

/// The longest name or author, in characters, that a row can hold.
pub const LIMITE_TEXTO: usize = 64;

/// Why the table refused a statement.
#[derive(Clone, Copy, Debug, PartialEq, Eq, Structural)]
pub enum ErroTabela {
    /// No row has the identifier asked for.
    NaoEncontrado,
    /// A row with the identifier is already there.
    IdDuplicado,
    /// A name or an author is longer than the column allows.
    TextoLongo,
}

/// The text that reports an error of the table.
pub open spec fn texto_do_erro(e: ErroTabela) -> Seq<char> {
    match e {
        ErroTabela::NaoEncontrado => "Record not found"@,
        ErroTabela::IdDuplicado => "duplicate key value violates unique constraint \"livros_pkey\""@,
        ErroTabela::TextoLongo => "value too long for type character varying(64)"@,
    }
}

impl ErroTabela {
    /// Writes the text that reports the error.
    pub fn mensagem(&self) -> (r: String)
        ensures
            r@ == texto_do_erro(*self),
    {
        match self {
            ErroTabela::NaoEncontrado => String::from_str("Record not found"),
            ErroTabela::IdDuplicado => String::from_str(
                "duplicate key value violates unique constraint \"livros_pkey\"",
            ),
            ErroTabela::TextoLongo => String::from_str(
                "value too long for type character varying(64)",
            ),
        }
    }
}

/// The rows of a list of books as mathematical values.
pub open spec fn ver_livros(v: Seq<Livro>) -> Seq<Registro> {
    Seq::new(v.len(), |i: int| v[i]@)
}

/// Whether some row of `t` has the identifier `id`.
pub open spec fn tem_id(t: Seq<Registro>, id: int) -> bool {
    exists|k: int| 0 <= k < t.len() && (#[trigger] t[k]).id == id
}

/// The place of a row with the identifier `id`, where there is one.
pub open spec fn indice(t: Seq<Registro>, id: int) -> int {
    choose|k: int| 0 <= k < t.len() && (#[trigger] t[k]).id == id
}

/// Whether no two rows share an identifier.
pub open spec fn ids_distintos(t: Seq<Registro>) -> bool {
    forall|i: int, j: int|
        0 <= i < t.len() && 0 <= j < t.len() && i != j ==> (#[trigger] t[i]).id != (
        #[trigger] t[j]).id
}

/// Whether the rows stand newest first by their time of entry.
pub open spec fn ordenada(t: Seq<Registro>) -> bool {
    forall|i: int, j: int|
        0 <= i < j < t.len() ==> !(#[trigger] t[i]).data_cadastro.antes(
            (#[trigger] t[j]).data_cadastro,
        )
}

/// Whether name and author fit their columns.
pub open spec fn cabe(c: Campos) -> bool {
    c.nome.len() <= LIMITE_TEXTO && c.autor.len() <= LIMITE_TEXTO
}

/// What holds of the rows of every table: identifiers are unique, the rows
/// stand newest first, and every text fits its column.
pub open spec fn bem_formada(t: Seq<Registro>) -> bool {
    &&& ids_distintos(t)
    &&& ordenada(t)
    &&& forall|i: int| 0 <= i < t.len() ==> cabe((#[trigger] t[i]).campos)
}

/// Whether `p` is where a row entered at `d` goes: behind the rows that are
/// newer than it and before all others.
pub open spec fn eh_lugar(t: Seq<Registro>, d: DataHora, p: int) -> bool {
    &&& 0 <= p <= t.len()
    &&& forall|k: int| 0 <= k < p ==> d.antes((#[trigger] t[k]).data_cadastro)
    &&& p < t.len() ==> !d.antes(t[p].data_cadastro)
}

/// Where a row entered at `d` goes.
pub open spec fn lugar(t: Seq<Registro>, d: DataHora) -> int {
    choose|p: int| eh_lugar(t, d, p)
}

/// Why the table refuses to take `r` as a new row, if it does: a text that
/// does not fit is found before a duplicate identifier.
pub open spec fn erro_de_insercao(t: Seq<Registro>, r: Registro) -> Option<ErroTabela> {
    if !cabe(r.campos) {
        Some(ErroTabela::TextoLongo)
    } else if tem_id(t, r.id) {
        Some(ErroTabela::IdDuplicado)
    } else {
        None
    }
}

/// The rows after `r` has entered.
pub open spec fn inserida(t: Seq<Registro>, r: Registro) -> Seq<Registro> {
    t.insert(lugar(t, r.data_cadastro), r)
}

/// There is always a place for a new row.
pub proof fn lema_ha_lugar(t: Seq<Registro>, d: DataHora)
    ensures
        eh_lugar(t, d, lugar(t, d)),
    decreases t.len(),
{
    if t.len() == 0 || !d.antes(t[0].data_cadastro) {
        assert(eh_lugar(t, d, 0));
    } else {
        let u = t.skip(1);
        lema_ha_lugar(u, d);
        let p = lugar(u, d);
        assert forall|k: int| 0 <= k < p + 1 implies d.antes((#[trigger] t[k]).data_cadastro) by {
            if k > 0 {
                assert(t[k] == u[k - 1]);
            }
        }
        if p + 1 < t.len() {
            assert(t[p + 1] == u[p]);
        }
        assert(eh_lugar(t, d, p + 1));
    }
}

/// In a table that stands newest first there is one place for a new row.
pub proof fn lema_lugar(t: Seq<Registro>, d: DataHora, p: int)
    requires
        ordenada(t),
        eh_lugar(t, d, p),
    ensures
        lugar(t, d) == p,
{
    let q = lugar(t, d);
    if q < p {
        assert(d.antes(t[q].data_cadastro));
    }
    if p < q {
        assert(d.antes(t[p].data_cadastro));
    }
}

/// A row that the table accepts leaves the table in order.
pub proof fn lema_inserida_bem_formada(t: Seq<Registro>, r: Registro)
    requires
        bem_formada(t),
        erro_de_insercao(t, r) is None,
    ensures
        bem_formada(inserida(t, r)),
{
    lema_ha_lugar(t, r.data_cadastro);
    let p = lugar(t, r.data_cadastro);
    let u = inserida(t, r);
    let origem = |i: int| if i < p { i } else { i - 1 };
    assert forall|i: int| 0 <= i < u.len() && i != p implies u[i] == t[origem(i)] by {}
    assert forall|i: int, j: int| 0 <= i < u.len() && 0 <= j < u.len() && i != j implies u[i].id
        != u[j].id by {
        if i != p && j != p {
            assert(u[i] == t[origem(i)] && u[j] == t[origem(j)]);
        } else if i == p {
            assert(u[j] == t[origem(j)]);
        } else {
            assert(u[i] == t[origem(i)]);
        }
    }
    assert forall|i: int, j: int| 0 <= i < j < u.len() implies !u[i].data_cadastro.antes(
        u[j].data_cadastro,
    ) by {
        if i != p && j != p {
            assert(u[i] == t[origem(i)] && u[j] == t[origem(j)]);
        } else if i == p {
            assert(u[j] == t[origem(j)]);
            assert(!r.data_cadastro.antes(t[p].data_cadastro));
            if origem(j) > p {
                assert(!t[p].data_cadastro.antes(t[origem(j)].data_cadastro));
            }
        } else {
            assert(u[i] == t[origem(i)]);
            assert(r.data_cadastro.antes(t[i].data_cadastro));
        }
    }
    assert forall|i: int| 0 <= i < u.len() implies cabe(u[i].campos) by {
        if i != p {
            assert(u[i] == t[origem(i)]);
        }
    }
}

/// Why the table refuses to write the fields `c` to the row `id`, if it
/// does: a text that does not fit is found before a missing row.
pub open spec fn erro_de_atualizacao(t: Seq<Registro>, id: int, c: Campos) -> Option<ErroTabela> {
    if !cabe(c) {
        Some(ErroTabela::TextoLongo)
    } else if !tem_id(t, id) {
        Some(ErroTabela::NaoEncontrado)
    } else {
        None
    }
}

/// The row `r` with the fields `c` in place of its own: the identifier and
/// both times stay.
pub open spec fn reescrito(r: Registro, c: Campos) -> Registro {
    Registro { id: r.id, campos: c, data_cadastro: r.data_cadastro, data_atualizacao: r.data_atualizacao }
}

/// The rows after the fields `c` were written to the row `id`.
pub open spec fn atualizada(t: Seq<Registro>, id: int, c: Campos) -> Seq<Registro> {
    t.update(indice(t, id), reescrito(t[indice(t, id)], c))
}

/// The rows after the row `id` has left.
pub open spec fn removida(t: Seq<Registro>, id: int) -> Seq<Registro> {
    t.remove(indice(t, id))
}

/// The test that a search by author applies to a row: the author matches
/// the pattern.
pub open spec fn casa_autor(padrao: Seq<char>) -> spec_fn(Registro) -> bool {
    |r: Registro| casa(padrao, r.campos.autor)
}

/// Whether some category of the list is present and matches the elements
/// of a pattern; an absent category matches nothing.
pub open spec fn casa_alguma(ss: Seq<Simbolo>, cs: Seq<Option<Seq<char>>>) -> bool {
    exists|i: int| 0 <= i < cs.len() && (#[trigger] cs[i]) is Some && casa_de(ss, cs[i]->0, 0, 0)
}

/// The test that a search by category applies to a row: one of its
/// categories matches the pattern.
pub open spec fn casa_categoria(padrao: Seq<char>) -> spec_fn(Registro) -> bool {
    |r: Registro| casa_alguma(simbolos(padrao), r.campos.categorias)
}

/// Tells whether some category of the list matches the elements of a
/// pattern.
pub fn alguma_categoria(ss: &Vec<Simbolo>, categorias: &Vec<Option<String>>) -> (r: bool)
    ensures
        r == casa_alguma(ss@, ver_categorias(categorias@)),
{
    let ghost cs = ver_categorias(categorias@);
    let mut i: usize = 0;
    while i < categorias.len()
        invariant
            i <= categorias.len(),
            cs == ver_categorias(categorias@),
            forall|k: int|
                0 <= k < i ==> !((#[trigger] cs[k]) is Some && casa_de(ss@, cs[k]->0, 0, 0)),
        decreases categorias.len() - i,
    {
        match &categorias[i] {
            Some(c) => {
                let t: Vec<char> = caracteres(c.as_str());
                if casar(ss, &t) {
                    assert(cs[i as int] is Some && casa_de(ss@, cs[i as int]->0, 0, 0));
                    return true;
                }
            },
            None => {},
        }
        i = i + 1;
    }
    false
}

/// The table of books, held in memory.
pub struct Tabela {
    linhas: Vec<Livro>,
}

impl View for Tabela {
    type V = Seq<Registro>;

    closed spec fn view(&self) -> Seq<Registro> {
        ver_livros(self.linhas@)
    }
}

impl Tabela {
    /// Whether the table is in order, as `bem_formada` says of its rows.
    pub open spec fn valida(&self) -> bool {
        bem_formada(self@)
    }

    /// An empty table.
    pub fn new() -> (r: Tabela)
        ensures
            r@ == Seq::<Registro>::empty(),
            r.valida(),
    {
        let r = Tabela { linhas: Vec::new() };
        proof {
            assert(r@ =~= Seq::<Registro>::empty());
        }
        r
    }

    /// All rows, newest first.
    pub fn listar(&self) -> (r: Vec<Livro>)
        ensures
            ver_livros(r@) == self@,
    {
        let mut r: Vec<Livro> = Vec::new();
        let mut i: usize = 0;
        while i < self.linhas.len()
            invariant
                i <= self.linhas.len(),
                r.len() == i,
                forall|k: int| 0 <= k < i ==> r@[k]@ == self.linhas@[k]@,
            decreases self.linhas.len() - i,
        {
            r.push(self.linhas[i].clone());
            i = i + 1;
        }
        proof {
            assert(ver_livros(r@) =~= self@);
        }
        r
    }

    /// The place of the row with the identifier `id`, if there is one.
    fn procurar(&self, id: i32) -> (r: Option<usize>)
        ensures
            r is Some <==> tem_id(self@, id as int),
            r is Some ==> r->0 < self@.len() && self@[r->0 as int].id == id,
    {
        let mut i: usize = 0;
        while i < self.linhas.len()
            invariant
                i <= self.linhas.len(),
                forall|k: int| 0 <= k < i ==> (#[trigger] self@[k]).id != id,
            decreases self.linhas.len() - i,
        {
            if self.linhas[i].id == id {
                assert(self@[i as int].id == id);
                return Some(i);
            }
            i = i + 1;
        }
        None
    }

    /// Enters a new row and returns it as stored. Refuses a row whose name
    /// or author does not fit, and one whose identifier is taken; the table
    /// is then left as it was.
    pub fn inserir(&mut self, livro: Livro) -> (r: Result<Livro, ErroTabela>)
        requires
            old(self).valida(),
        ensures
            final(self).valida(),
            match erro_de_insercao(old(self)@, livro@) {
                Some(e) => r == Err::<Livro, ErroTabela>(e) && final(self)@ == old(self)@,
                None => r is Ok && r->Ok_0@ == livro@ && final(self)@ == inserida(
                    old(self)@,
                    livro@,
                ),
            },
    {
        if livro.nome.as_str().unicode_len() > LIMITE_TEXTO
            || livro.autor.as_str().unicode_len() > LIMITE_TEXTO {
            return Err(ErroTabela::TextoLongo);
        }
        if self.procurar(livro.id).is_some() {
            return Err(ErroTabela::IdDuplicado);
        }
        let mut p: usize = 0;
        while p < self.linhas.len() && livro.data_cadastro.eh_antes(&self.linhas[p].data_cadastro)
            invariant
                p <= self.linhas.len(),
                forall|k: int|
                    0 <= k < p ==> livro.data_cadastro.antes((#[trigger] self@[k]).data_cadastro),
            decreases self.linhas.len() - p,
        {
            p = p + 1;
        }
        let copia: Livro = livro.clone();
        proof {
            assert(eh_lugar(self@, livro@.data_cadastro, p as int));
            lema_lugar(self@, livro@.data_cadastro, p as int);
            lema_inserida_bem_formada(self@, livro@);
        }
        let ghost antes = self@;
        self.linhas.insert(p, livro);
        proof {
            assert(self@ =~= inserida(antes, copia@));
        }
        Ok(copia)
    }

    /// Writes the submitted fields to the row with the identifier of the
    /// input and returns the row as it then stands. Refuses fields that do
    /// not fit and an identifier that no row has; the table is then left as
    /// it was.
    pub fn atualizar(&mut self, input: AtualizarLivroInput) -> (r: Result<Livro, ErroTabela>)
        requires
            old(self).valida(),
        ensures
            final(self).valida(),
            match erro_de_atualizacao(old(self)@, input.id as int, input.campos()) {
                Some(e) => r == Err::<Livro, ErroTabela>(e) && final(self)@ == old(self)@,
                None => r is Ok && r->Ok_0@ == reescrito(
                    old(self)@[indice(old(self)@, input.id as int)],
                    input.campos(),
                ) && final(self)@ == atualizada(old(self)@, input.id as int, input.campos()),
            },
    {
        if input.nome.as_str().unicode_len() > LIMITE_TEXTO
            || input.autor.as_str().unicode_len() > LIMITE_TEXTO {
            return Err(ErroTabela::TextoLongo);
        }
        match self.procurar(input.id) {
            None => Err(ErroTabela::NaoEncontrado),
            Some(k) => {
                let ghost antes = self@;
                let ghost campos = input.campos();
                let novo = Livro {
                    id: self.linhas[k].id,
                    nome: input.nome,
                    autor: input.autor,
                    ano_publicacao: input.ano_publicacao,
                    data_cadastro: self.linhas[k].data_cadastro,
                    data_atualizacao: self.linhas[k].data_atualizacao,
                    categorias: input.categorias,
                };
                let copia: Livro = novo.clone();
                self.linhas.set(k, novo);
                proof {
                    assert(indice(antes, copia@.id) == k);
                    assert(copia@ == reescrito(antes[k as int], campos));
                    assert(self@ =~= atualizada(antes, copia@.id, campos));
                    assert forall|i: int| 0 <= i < self@.len() implies (#[trigger] self@[i]).id
                        == antes[i].id && self@[i].data_cadastro == antes[i].data_cadastro by {}
                }
                Ok(copia)
            },
        }
    }

    /// Takes the row with the identifier `id` out of the table and returns
    /// it. Where no row has the identifier the table is left as it was.
    pub fn remover(&mut self, id: i32) -> (r: Result<Livro, ErroTabela>)
        requires
            old(self).valida(),
        ensures
            final(self).valida(),
            r is Ok <==> tem_id(old(self)@, id as int),
            r is Ok ==> r->Ok_0@ == old(self)@[indice(old(self)@, id as int)] && final(self)@
                == removida(old(self)@, id as int),
            r is Err ==> r->Err_0 == ErroTabela::NaoEncontrado && final(self)@ == old(self)@,
    {
        match self.procurar(id) {
            None => Err(ErroTabela::NaoEncontrado),
            Some(k) => {
                let ghost antes = self@;
                let livro: Livro = self.linhas.remove(k);
                proof {
                    assert(indice(antes, id as int) == k);
                    assert(self@ =~= removida(antes, id as int));
                    assert forall|i: int| 0 <= i < self@.len() implies #[trigger] self@[i]
                        == antes[if i < k { i } else { i + 1 }] by {}
                }
                Ok(livro)
            },
        }
    }

    /// The row with the identifier `id`.
    pub fn buscar_id(&self, id: i32) -> (r: Result<Livro, ErroTabela>)
        requires
            self.valida(),
        ensures
            r is Ok <==> tem_id(self@, id as int),
            r is Ok ==> r->Ok_0@ == self@[indice(self@, id as int)],
            r is Err ==> r->Err_0 == ErroTabela::NaoEncontrado,
    {
        match self.procurar(id) {
            Some(k) => Ok(self.linhas[k].clone()),
            None => Err(ErroTabela::NaoEncontrado),
        }
    }

    /// The rows whose author matches the pattern, newest first.
    pub fn buscar_autor(&self, padrao: &str) -> (r: Vec<Livro>)
        ensures
            ver_livros(r@) == self@.filter(casa_autor(padrao@)),
    {
        let ss: Vec<Simbolo> = analisar(padrao);
        let mut r: Vec<Livro> = Vec::new();
        let mut i: usize = 0;
        proof {
            reveal(Seq::filter);
            assert(self@.take(0) =~= Seq::<Registro>::empty());
            assert(ver_livros(r@) =~= self@.take(0).filter(casa_autor(padrao@)));
        }
        while i < self.linhas.len()
            invariant
                i <= self.linhas.len(),
                ss@ == simbolos(padrao@),
                ver_livros(r@) == self@.take(i as int).filter(casa_autor(padrao@)),
            decreases self.linhas.len() - i,
        {
            let t: Vec<char> = caracteres(self.linhas[i].autor.as_str());
            let ghost feito = ver_livros(r@);
            proof {
                reveal(Seq::filter);
                assert(self@.take(i + 1).drop_last() =~= self@.take(i as int));
                assert(self@.take(i + 1).last() == self@[i as int]);
            }
            if casar(&ss, &t) {
                r.push(self.linhas[i].clone());
                proof {
                    assert(ver_livros(r@) =~= feito.push(self@[i as int]));
                }
            }
            i = i + 1;
        }
        proof {
            assert(self@.take(self@.len() as int) =~= self@);
        }
        r
    }

    /// The rows of which some category matches the pattern, newest first.
    pub fn buscar_categoria(&self, padrao: &str) -> (r: Vec<Livro>)
        ensures
            ver_livros(r@) == self@.filter(casa_categoria(padrao@)),
    {
        let ss: Vec<Simbolo> = analisar(padrao);
        let mut r: Vec<Livro> = Vec::new();
        let mut i: usize = 0;
        proof {
            reveal(Seq::filter);
            assert(self@.take(0) =~= Seq::<Registro>::empty());
            assert(ver_livros(r@) =~= self@.take(0).filter(casa_categoria(padrao@)));
        }
        while i < self.linhas.len()
            invariant
                i <= self.linhas.len(),
                ss@ == simbolos(padrao@),
                ver_livros(r@) == self@.take(i as int).filter(casa_categoria(padrao@)),
            decreases self.linhas.len() - i,
        {
            let ghost feito = ver_livros(r@);
            proof {
                reveal(Seq::filter);
                assert(self@.take(i + 1).drop_last() =~= self@.take(i as int));
                assert(self@.take(i + 1).last() == self@[i as int]);
            }
            if alguma_categoria(&ss, &self.linhas[i].categorias) {
                r.push(self.linhas[i].clone());
                proof {
                    assert(ver_livros(r@) =~= feito.push(self@[i as int]));
                }
            }
            i = i + 1;
        }
        proof {
            assert(self@.take(self@.len() as int) =~= self@);
        }
        r
    }
}

} // verus!
