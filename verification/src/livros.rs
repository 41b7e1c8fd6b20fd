//! The book records and the inputs that the service accepts.

use vstd::prelude::*;
use vstd::string::StringExecFns;
use crate::data_hora::DataHora;
use crate::texto::{
    decimal, em_branco, juntado, juntar, lema_numeral_visivel, numeral, so_espacos, ver_textos,
};

verus! {

/// The four fields of a book that a client submits and may later replace.
pub struct Campos {
    pub nome: Seq<char>,
    pub autor: Seq<char>,
    pub ano_publicacao: int,
    pub categorias: Seq<Option<Seq<char>>>,
}

/// A stored book as a mathematical value.
pub struct Registro {
    pub id: int,
    pub campos: Campos,
    pub data_cadastro: DataHora,
    pub data_atualizacao: Option<DataHora>,
}

/// A list of categories as a sequence of optional texts.
pub open spec fn ver_categorias(v: Seq<Option<String>>) -> Seq<Option<Seq<char>>> {
    Seq::new(
        v.len(),
        |i: int|
            match v[i] {
                Some(s) => Some(s@),
                None => None,
            },
    )
}

/// What a client submits to add a book.
#[derive(Clone, Debug, PartialEq, Eq)]
pub struct LivroInput {
    pub nome: String,
    pub autor: String,
    pub ano_publicacao: i32,
    pub categorias: Vec<Option<String>>,
}

impl View for LivroInput {
    type V = Campos;

    open spec fn view(&self) -> Campos {
        Campos {
            nome: self.nome@,
            autor: self.autor@,
            ano_publicacao: self.ano_publicacao as int,
            categorias: ver_categorias(self.categorias@),
        }
    }
}

/// The display names of the required fields that `c` leaves empty, in the
/// order in which they are reported.
pub open spec fn campos_faltando(c: Campos) -> Seq<Seq<char>> {
    let ano: Seq<Seq<char>> = if em_branco(numeral(c.ano_publicacao)) {
        seq!["Ano de Publicação"@]
    } else {
        Seq::empty()
    };
    let nome: Seq<Seq<char>> = if em_branco(c.nome) {
        seq!["Nome"@]
    } else {
        Seq::empty()
    };
    let autor: Seq<Seq<char>> = if em_branco(c.autor) {
        seq!["Autor"@]
    } else {
        Seq::empty()
    };
    let categorias: Seq<Seq<char>> = if c.categorias.len() == 0 {
        seq!["Categorias"@]
    } else {
        Seq::empty()
    };
    ano + nome + autor + categorias
}

/// The sentence that reports the empty required fields.
pub open spec fn mensagem_faltando(faltando: Seq<Seq<char>>) -> Seq<char> {
    "Erro ao cadastrar o livro. Os campos ["@ + juntado(faltando, ", "@)
        + "] deveriam estar preenchidos."@
}

/// Whether `c` may be stored as a new book: name and author are not blank
/// and there is at least one category.
pub open spec fn campos_validos(c: Campos) -> bool {
    !em_branco(c.nome) && !em_branco(c.autor) && c.categorias.len() > 0
}

impl LivroInput {
    /// Checks the required fields of a new book. Fails with the sentence
    /// that names every empty one, and only when there is one.
    pub fn validar_campos(&self) -> (r: Result<(), String>)
        ensures
            r is Ok <==> campos_validos(self@),
            r is Ok <==> campos_faltando(self@).len() == 0,
            r is Err ==> r->Err_0@ == mensagem_faltando(campos_faltando(self@)),
    {
        let mut faltando: Vec<&str> = Vec::new();
        proof {
            lema_numeral_visivel(self.ano_publicacao as int);
        }
        let ano: String = decimal(self.ano_publicacao);
        if so_espacos(ano.as_str()) {
            faltando.push("Ano de Publicação");
        }
        if so_espacos(self.nome.as_str()) {
            faltando.push("Nome");
        }
        if so_espacos(self.autor.as_str()) {
            faltando.push("Autor");
        }
        if self.categorias.len() == 0 {
            faltando.push("Categorias");
        }
        proof {
            assert(ver_categorias(self.categorias@).len() == self.categorias@.len());
            assert(ver_textos(faltando@) =~= campos_faltando(self@));
        }
        if faltando.len() > 0 {
            let mut m: String = String::from_str("Erro ao cadastrar o livro. Os campos [");
            let lista: String = juntar(&faltando, ", ");
            m.append(lista.as_str());
            m.append("] deveriam estar preenchidos.");
            return Err(m);
        }
        Ok(())
    }
}

/// What a client submits to replace the fields of the book `id`.
#[derive(Clone, Debug, PartialEq, Eq)]
pub struct AtualizarLivroInput {
    pub id: i32,
    pub nome: String,
    pub autor: String,
    pub ano_publicacao: i32,
    pub categorias: Vec<Option<String>>,
}

impl AtualizarLivroInput {
    /// The fields that the update writes.
    pub open spec fn campos(&self) -> Campos {
        Campos {
            nome: self.nome@,
            autor: self.autor@,
            ano_publicacao: self.ano_publicacao as int,
            categorias: ver_categorias(self.categorias@),
        }
    }
}

/// A stored book.
#[derive(Debug, PartialEq, Eq)]
pub struct Livro {
    pub id: i32,
    pub nome: String,
    pub autor: String,
    pub ano_publicacao: i32,
    pub data_cadastro: DataHora,
    pub data_atualizacao: Option<DataHora>,
    pub categorias: Vec<Option<String>>,
}

impl View for Livro {
    type V = Registro;

    open spec fn view(&self) -> Registro {
        Registro {
            id: self.id as int,
            campos: Campos {
                nome: self.nome@,
                autor: self.autor@,
                ano_publicacao: self.ano_publicacao as int,
                categorias: ver_categorias(self.categorias@),
            },
            data_cadastro: self.data_cadastro,
            data_atualizacao: self.data_atualizacao,
        }
    }
}

/// The record of a new book: the submitted fields under the identifier
/// `id`, entered at `agora` and never updated.
pub open spec fn registro_novo(c: Campos, id: int, agora: DataHora) -> Registro {
    Registro { id, campos: c, data_cadastro: agora, data_atualizacao: None }
}

/// Draws the identifier of a new book.
///
/// Trusted: calls `rand::random` for a `u16`, which takes a value from the
/// thread's generator. Nothing is claimed of the value beyond its type.
#[verifier::external_body]
fn sortear_id() -> (r: u16) {
    rand::random::<u16>()
}

impl Livro {
    /// Makes the record of a new book from the submitted fields, the
    /// identifier drawn for it and the time of entry.
    pub fn novo(input: LivroInput, id: u16, agora: DataHora) -> (r: Livro)
        ensures
            r@ == registro_novo(input@, id as int, agora),
    {
        Livro {
            id: id as i32,
            nome: input.nome,
            autor: input.autor,
            ano_publicacao: input.ano_publicacao,
            data_cadastro: agora,
            data_atualizacao: None,
            categorias: input.categorias,
        }
    }
}

/// The conversion draws an identifier and reads the clock, so no function
/// of the input alone gives its result: what holds of it is stated on
/// `from` itself.
impl vstd::std_specs::convert::FromSpecImpl<LivroInput> for Livro {
    open spec fn obeys_from_spec() -> bool {
        false
    }

    open spec fn from_spec(v: LivroInput) -> Livro {
        arbitrary()
    }
}

impl From<LivroInput> for Livro {
    /// Makes the record of a new book under an identifier drawn at random
    /// from 0 to 65535, entered at the current time.
    fn from(input: LivroInput) -> (r: Livro)
        ensures
            exists|id: u16, agora: DataHora| r@ == registro_novo(input@, id as int, agora),
    {
        let id: u16 = sortear_id();
        let agora: DataHora = DataHora::agora();
        Livro::novo(input, id, agora)
    }
}

/// Copies a list of categories.
pub fn copiar_categorias(v: &Vec<Option<String>>) -> (r: Vec<Option<String>>)
    ensures
        ver_categorias(r@) == ver_categorias(v@),
{
    let mut r: Vec<Option<String>> = Vec::new();
    let mut i: usize = 0;
    while i < v.len()
        invariant
            i <= v.len(),
            r.len() == i,
            forall|k: int| 0 <= k < i ==> ver_categorias(r@)[k] == ver_categorias(v@)[k],
        decreases v.len() - i,
    {
        let c: Option<String> = match &v[i] {
            Some(s) => Some(s.clone()),
            None => None,
        };
        r.push(c);
        i = i + 1;
    }
    proof {
        assert(ver_categorias(r@) =~= ver_categorias(v@));
    }
    r
}

impl Clone for Livro {
    fn clone(&self) -> (r: Livro)
        ensures
            r@ == self@,
    {
        Livro {
            id: self.id,
            nome: self.nome.clone(),
            autor: self.autor.clone(),
            ano_publicacao: self.ano_publicacao,
            data_cadastro: self.data_cadastro,
            data_atualizacao: self.data_atualizacao,
            categorias: copiar_categorias(&self.categorias),
        }
    }
}

/// The identifier of the book to fetch or to delete.
#[derive(Clone, Copy, Debug, PartialEq, Eq)]
pub struct IdInput {
    pub id: i32,
}

/// A fragment to look for in the authors' names.
#[derive(Clone, Debug, PartialEq, Eq)]
pub struct AutorInput {
    pub autor: String,
}

/// A fragment to look for in the categories.
#[derive(Clone, Debug, PartialEq, Eq)]
pub struct CategoriaInput {
    pub categoria: String,
}

} // verus!
