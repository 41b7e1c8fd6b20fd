//! The operations of the service, each one statement on the table and the
//! answer that reports its outcome.

use vstd::prelude::*;
use vstd::string::StringExecFns;
use crate::data_hora::DataHora;
use crate::livros::{
    campos_faltando, campos_validos, mensagem_faltando, registro_novo, AtualizarLivroInput,
    AutorInput, CategoriaInput, IdInput, Livro, LivroInput, Registro,
};
use crate::padrao::{envolto, envolver};
use crate::tabela::{
    atualizada, casa_autor, casa_categoria, erro_de_atualizacao, erro_de_insercao, indice,
    inserida, ordenada, reescrito, removida, tem_id, texto_do_erro, ver_livros, ErroTabela, Tabela,
};
use crate::texto::{decimal, numeral};

verus! {

/// The status of an answer that carries what was asked for.
pub const STATUS_OK: u16 = 200;

/// The status of an answer that reports a failure of the table.
pub const STATUS_ERRO_INTERNO: u16 = 500;

/// The sentence that confirms the entry of a book.
pub open spec fn mensagem_cadastro(id: int, nome: Seq<char>) -> Seq<char> {
    "Livro Cadastrado | ID: "@ + numeral(id) + " | Nome: "@ + nome
}

/// Writes the sentence that confirms the entry of `livro`.
pub fn mensagem_de_cadastro(livro: &Livro) -> (r: String)
    ensures
        r@ == mensagem_cadastro(livro@.id, livro@.campos.nome),
{
    let mut r: String = String::from_str("Livro Cadastrado | ID: ");
    let id: String = decimal(livro.id);
    r.append(id.as_str());
    r.append(" | Nome: ");
    r.append(livro.nome.as_str());
    r
}

/// The answer to an entry: the confirmation where the row was stored, else
/// the text of the failure as it came.
pub fn concluir_cadastro(mensagem: String, gravado: Result<Livro, String>) -> (r: Result<
    String,
    String,
>)
    ensures
        r == (match gravado {
            Ok(_) => Ok::<String, String>(mensagem),
            Err(e) => Err::<String, String>(e),
        }),
{
    match gravado {
        Ok(_) => Ok(mensagem),
        Err(e) => Err(e),
    }
}

/// Puts the status on an outcome: 200 on what was found, 500 on the text
/// of a failure.
pub fn responder<T>(resultado: Result<T, String>) -> (r: Result<(u16, T), (u16, String)>)
    ensures
        r == (match resultado {
            Ok(v) => Ok::<(u16, T), (u16, String)>((STATUS_OK, v)),
            Err(e) => Err::<(u16, T), (u16, String)>((STATUS_ERRO_INTERNO, e)),
        }),
{
    match resultado {
        Ok(v) => Ok((STATUS_OK, v)),
        Err(e) => Err((STATUS_ERRO_INTERNO, e)),
    }
}

/// Turns an outcome of the table into one that carries the text of the
/// error.
pub fn com_texto(resultado: Result<Livro, ErroTabela>) -> (r: Result<Livro, String>)
    ensures
        match resultado {
            Ok(l) => r == Ok::<Livro, String>(l),
            Err(e) => r is Err && r->Err_0@ == texto_do_erro(e),
        },
{
    match resultado {
        Ok(l) => Ok(l),
        Err(e) => Err(e.mensagem()),
    }
}

/// What the entry of the row `novo` into the rows `t` answers and leaves:
/// the confirmation and the rows with `novo` among them, or the text of the
/// table's refusal and the rows as they were.
pub open spec fn registrado(
    t: Seq<Registro>,
    novo: Registro,
    r: Result<String, String>,
    depois: Seq<Registro>,
) -> bool {
    match erro_de_insercao(t, novo) {
        Some(e) => r is Err && r->Err_0@ == texto_do_erro(e) && depois == t,
        None => r is Ok && r->Ok_0@ == mensagem_cadastro(novo.id, novo.campos.nome) && depois
            == inserida(t, novo),
    }
}

/// Stores the record of a new book and answers with the confirmation, or
/// with the text of the table's refusal.
pub fn registrar_livro(tabela: &mut Tabela, livro: Livro) -> (r: Result<String, String>)
    requires
        old(tabela).valida(),
    ensures
        final(tabela).valida(),
        registrado(old(tabela)@, livro@, r, final(tabela)@),
{
    let mensagem: String = mensagem_de_cadastro(&livro);
    let gravado: Result<Livro, String> = com_texto(tabela.inserir(livro));
    concluir_cadastro(mensagem, gravado)
}

/// Adds a book. The input is validated first: where a required field is
/// empty the answer is the sentence that names the empty fields and the
/// table is not touched. Else the book is stored under an identifier drawn
/// at random from 0 to 65535 with the current time as its time of entry,
/// as `registrar_livro` does.
pub fn cadastrar_livro(tabela: &mut Tabela, input: LivroInput) -> (r: Result<String, String>)
    requires
        old(tabela).valida(),
    ensures
        final(tabela).valida(),
        !campos_validos(input@) ==> r is Err && r->Err_0@ == mensagem_faltando(
            campos_faltando(input@),
        ) && final(tabela)@ == old(tabela)@,
        campos_validos(input@) ==> exists|id: u16, agora: DataHora|
            registrado(
                old(tabela)@,
                registro_novo(input@, id as int, agora),
                r,
                final(tabela)@,
            ),
{
    if let Err(mensagem_erro) = input.validar_campos() {
        return Err(mensagem_erro);
    }
    let livro: Livro = Livro::from(input);
    registrar_livro(tabela, livro)
}

/// Lists every book, newest first.
pub fn listar_livros(tabela: &Tabela) -> (r: Result<Vec<Livro>, String>)
    ensures
        r is Ok,
        ver_livros(r->Ok_0@) == tabela@,
        tabela.valida() ==> ordenada(ver_livros(r->Ok_0@)),
{
    Ok(tabela.listar())
}

/// Replaces name, author, year and categories of the book whose identifier
/// the input carries, without validating them, and answers with the row as
/// it then stands. Where the table refuses, the answer is the text of its
/// error and nothing has changed.
pub fn atualizar_livro(tabela: &mut Tabela, input: AtualizarLivroInput) -> (r: Result<
    Livro,
    String,
>)
    requires
        old(tabela).valida(),
    ensures
        final(tabela).valida(),
        !tem_id(old(tabela)@, input.id as int) ==> r is Err,
        match erro_de_atualizacao(old(tabela)@, input.id as int, input.campos()) {
            Some(e) => r is Err && r->Err_0@ == texto_do_erro(e) && final(tabela)@ == old(
                tabela,
            )@,
            None => r is Ok && r->Ok_0@ == reescrito(
                old(tabela)@[indice(old(tabela)@, input.id as int)],
                input.campos(),
            ) && final(tabela)@ == atualizada(old(tabela)@, input.id as int, input.campos()),
        },
{
    com_texto(tabela.atualizar(input))
}

/// Deletes the book with the given identifier and answers with status 200
/// and the row that left. Where no book has the identifier the answer is
/// status 500 with the text of the error, and nothing has changed.
pub fn deletar_livro(tabela: &mut Tabela, input: IdInput) -> (r: Result<
    (u16, Livro),
    (u16, String),
>)
    requires
        old(tabela).valida(),
    ensures
        final(tabela).valida(),
        r is Ok <==> tem_id(old(tabela)@, input.id as int),
        r is Ok ==> r->Ok_0.0 == STATUS_OK && r->Ok_0.1@ == old(tabela)@[indice(
            old(tabela)@,
            input.id as int,
        )] && final(tabela)@ == removida(old(tabela)@, input.id as int),
        r is Err ==> r->Err_0.0 == STATUS_ERRO_INTERNO && r->Err_0.1@ == texto_do_erro(
            ErroTabela::NaoEncontrado,
        ) && final(tabela)@ == old(tabela)@,
{
    responder(com_texto(tabela.remover(input.id)))
}

/// Fetches the book with the given identifier: status 200 and the row, or
/// status 500 with the text of the error where no book has the identifier.
pub fn buscar_livro_id(tabela: &Tabela, input: IdInput) -> (r: Result<
    (u16, Livro),
    (u16, String),
>)
    requires
        tabela.valida(),
    ensures
        r is Ok <==> tem_id(tabela@, input.id as int),
        r is Ok ==> r->Ok_0.0 == STATUS_OK && r->Ok_0.1@ == tabela@[indice(
            tabela@,
            input.id as int,
        )],
        r is Err ==> r->Err_0.0 == STATUS_ERRO_INTERNO && r->Err_0.1@ == texto_do_erro(
            ErroTabela::NaoEncontrado,
        ),
{
    responder(com_texto(tabela.buscar_id(input.id)))
}

/// Finds the books whose author matches the fragment of the input set
/// between two `%`. The answer has status 200 also where nothing matches.
pub fn buscar_livro_autor(tabela: &Tabela, input: AutorInput) -> (r: Result<
    (u16, Vec<Livro>),
    (u16, String),
>)
    ensures
        r is Ok,
        r->Ok_0.0 == STATUS_OK,
        ver_livros(r->Ok_0.1@) == tabela@.filter(casa_autor(envolto(input.autor@))),
{
    let nome_autor: String = envolver(input.autor.as_str());
    Ok((STATUS_OK, tabela.buscar_autor(nome_autor.as_str())))
}

/// Finds the books of which some category matches the fragment of the
/// input set between two `%`. The answer has status 200 also where nothing
/// matches.
pub fn buscar_livro_categoria(tabela: &Tabela, input: CategoriaInput) -> (r: Result<
    (u16, Vec<Livro>),
    (u16, String),
>)
    ensures
        r is Ok,
        r->Ok_0.0 == STATUS_OK,
        ver_livros(r->Ok_0.1@) == tabela@.filter(casa_categoria(envolto(input.categoria@))),
{
    let categoria: String = envolver(input.categoria.as_str());
    Ok((STATUS_OK, tabela.buscar_categoria(categoria.as_str())))
}

} // verus!
