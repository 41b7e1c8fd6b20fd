use livraria::data_hora::DataHora;
use livraria::livros::{AtualizarLivroInput, Livro, LivroInput};
use livraria::tabela::{alguma_categoria, ErroTabela, Tabela, LIMITE_TEXTO};
use livraria::padrao::analisar;

fn hora(segundos: i64) -> DataHora {
    DataHora { segundos, nanos: 0 }
}

fn livro(id: u16, nome: &str, autor: &str, categorias: &[&str], segundos: i64) -> Livro {
    let input = LivroInput {
        nome: nome.to_string(),
        autor: autor.to_string(),
        ano_publicacao: 1950,
        categorias: categorias.iter().map(|c| Some(c.to_string())).collect(),
    };
    Livro::novo(input, id, hora(segundos))
}

fn nomes(livros: &[Livro]) -> Vec<String> {
    livros.iter().map(|l| l.nome.clone()).collect()
}

fn tres_livros() -> Tabela {
    let mut t = Tabela::new();
    t.inserir(livro(1, "O Hobbit", "J.R.R. Tolkien", &["fantasia"], 100)).unwrap();
    t.inserir(livro(2, "Duna", "Frank Herbert", &["science fiction", "classico"], 300)).unwrap();
    t.inserir(livro(3, "Fundacao", "Isaac Asimov", &["ficcao cientifica"], 200)).unwrap();
    t
}

#[test]
fn tabela_nova_e_vazia() {
    assert!(Tabela::new().listar().is_empty());
}

#[test]
fn linha_nova_tem_os_campos_da_entrada() {
    let l = livro(7, "Duna", "Frank Herbert", &["scifi"], 5);
    assert_eq!(l.id, 7);
    assert_eq!(l.nome, "Duna");
    assert_eq!(l.autor, "Frank Herbert");
    assert_eq!(l.ano_publicacao, 1950);
    assert_eq!(l.categorias, vec![Some("scifi".to_string())]);
    assert_eq!(l.data_cadastro, hora(5));
    assert_eq!(l.data_atualizacao, None);
}

#[test]
fn maior_identificador_cabe_na_linha() {
    assert_eq!(livro(65535, "a", "b", &["c"], 0).id, 65535);
}

#[test]
fn inserir_devolve_a_linha_gravada() {
    let mut t = Tabela::new();
    let l = livro(1, "O Hobbit", "J.R.R. Tolkien", &["fantasia"], 100);
    assert_eq!(t.inserir(l.clone()), Ok(l.clone()));
    assert_eq!(t.listar(), vec![l]);
}

#[test]
fn listar_vem_do_mais_novo_ao_mais_antigo() {
    let t = tres_livros();
    assert_eq!(nomes(&t.listar()), vec!["Duna", "Fundacao", "O Hobbit"]);
}

#[test]
fn nanos_desempatam_a_ordem() {
    let mut t = Tabela::new();
    let mut a = livro(1, "a", "x", &["c"], 10);
    a.data_cadastro = DataHora { segundos: 10, nanos: 5 };
    let mut b = livro(2, "b", "x", &["c"], 10);
    b.data_cadastro = DataHora { segundos: 10, nanos: 9 };
    let mut c = livro(3, "c", "x", &["c"], 9);
    c.data_cadastro = DataHora { segundos: 9, nanos: 999_999_999 };
    t.inserir(a).unwrap();
    t.inserir(b).unwrap();
    t.inserir(c).unwrap();
    assert_eq!(nomes(&t.listar()), vec!["b", "a", "c"]);
}

#[test]
fn linha_de_mesma_hora_entra_na_frente_das_iguais() {
    let mut t = tres_livros();
    t.inserir(livro(4, "Outro", "Alguem", &["x"], 200)).unwrap();
    assert_eq!(nomes(&t.listar()), vec!["Duna", "Outro", "Fundacao", "O Hobbit"]);
}

#[test]
fn linha_mais_nova_e_a_primeira() {
    let mut t = tres_livros();
    t.inserir(livro(4, "Novo", "Alguem", &["x"], 301)).unwrap();
    assert_eq!(t.listar()[0].nome, "Novo");
}

#[test]
fn linha_mais_antiga_e_a_ultima() {
    let mut t = tres_livros();
    t.inserir(livro(4, "Velho", "Alguem", &["x"], -5)).unwrap();
    assert_eq!(nomes(&t.listar()), vec!["Duna", "Fundacao", "O Hobbit", "Velho"]);
}

#[test]
fn identificador_repetido_e_recusado() {
    let mut t = tres_livros();
    let antes = t.listar();
    assert_eq!(t.inserir(livro(2, "Copia", "Alguem", &["x"], 400)), Err(ErroTabela::IdDuplicado));
    assert_eq!(t.listar(), antes);
}

#[test]
fn nome_longo_e_recusado() {
    let mut t = Tabela::new();
    let longo = "a".repeat(LIMITE_TEXTO + 1);
    assert_eq!(t.inserir(livro(1, &longo, "x", &["c"], 1)), Err(ErroTabela::TextoLongo));
    assert!(t.listar().is_empty());
}

#[test]
fn autor_longo_e_recusado() {
    let mut t = Tabela::new();
    let longo = "b".repeat(65);
    assert_eq!(t.inserir(livro(1, "x", &longo, &["c"], 1)), Err(ErroTabela::TextoLongo));
}

#[test]
fn texto_longo_e_visto_antes_do_identificador_repetido() {
    let mut t = tres_livros();
    let longo = "a".repeat(65);
    assert_eq!(t.inserir(livro(1, &longo, "x", &["c"], 1)), Err(ErroTabela::TextoLongo));
}

#[test]
fn limite_conta_caracteres_e_nao_bytes() {
    let mut t = Tabela::new();
    let no_limite = "ç".repeat(64);
    assert_eq!(no_limite.len(), 128);
    assert!(t.inserir(livro(1, &no_limite, &no_limite, &["c"], 1)).is_ok());
}

#[test]
fn categoria_longa_e_aceita() {
    let mut t = Tabela::new();
    let longa = "c".repeat(500);
    assert!(t.inserir(livro(1, "a", "b", &[&longa], 1)).is_ok());
}

#[test]
fn buscar_id_acha_a_linha() {
    let t = tres_livros();
    assert_eq!(t.buscar_id(3), Ok(livro(3, "Fundacao", "Isaac Asimov", &["ficcao cientifica"], 200)));
}

#[test]
fn buscar_id_sem_linha_falha() {
    let t = tres_livros();
    assert_eq!(t.buscar_id(9), Err(ErroTabela::NaoEncontrado));
    assert_eq!(t.buscar_id(-1), Err(ErroTabela::NaoEncontrado));
}

fn troca(id: i32, nome: &str, autor: &str) -> AtualizarLivroInput {
    AtualizarLivroInput {
        id,
        nome: nome.to_string(),
        autor: autor.to_string(),
        ano_publicacao: 1999,
        categorias: vec![None, Some("novo".to_string())],
    }
}

#[test]
fn atualizar_troca_os_quatro_campos() {
    let mut t = tres_livros();
    let r = t.atualizar(troca(3, "Fundacao e Imperio", "I. Asimov")).unwrap();
    assert_eq!(r.id, 3);
    assert_eq!(r.nome, "Fundacao e Imperio");
    assert_eq!(r.autor, "I. Asimov");
    assert_eq!(r.ano_publicacao, 1999);
    assert_eq!(r.categorias, vec![None, Some("novo".to_string())]);
    assert_eq!(r.data_cadastro, hora(200));
    assert_eq!(r.data_atualizacao, None);
    assert_eq!(t.buscar_id(3), Ok(r));
}

#[test]
fn atualizar_nao_mexe_nas_outras_linhas_nem_na_ordem() {
    let mut t = tres_livros();
    t.atualizar(troca(3, "Z", "Z")).unwrap();
    assert_eq!(nomes(&t.listar()), vec!["Duna", "Z", "O Hobbit"]);
    assert_eq!(t.buscar_id(1), Ok(livro(1, "O Hobbit", "J.R.R. Tolkien", &["fantasia"], 100)));
}

#[test]
fn atualizar_aceita_campos_vazios() {
    let mut t = tres_livros();
    let mut e = troca(1, "", " ");
    e.categorias = vec![];
    let r = t.atualizar(e).unwrap();
    assert_eq!(r.nome, "");
    assert_eq!(r.autor, " ");
    assert!(r.categorias.is_empty());
}

#[test]
fn atualizar_sem_linha_falha() {
    let mut t = tres_livros();
    let antes = t.listar();
    assert_eq!(t.atualizar(troca(9, "a", "b")), Err(ErroTabela::NaoEncontrado));
    assert_eq!(t.listar(), antes);
}

#[test]
fn atualizar_com_texto_longo_falha() {
    let mut t = tres_livros();
    let antes = t.listar();
    let longo = "a".repeat(65);
    assert_eq!(t.atualizar(troca(1, &longo, "b")), Err(ErroTabela::TextoLongo));
    assert_eq!(t.atualizar(troca(9, "a", &longo)), Err(ErroTabela::TextoLongo));
    assert_eq!(t.listar(), antes);
}

#[test]
fn remover_devolve_a_linha_e_a_tira() {
    let mut t = tres_livros();
    assert_eq!(t.remover(3), Ok(livro(3, "Fundacao", "Isaac Asimov", &["ficcao cientifica"], 200)));
    assert_eq!(nomes(&t.listar()), vec!["Duna", "O Hobbit"]);
    assert_eq!(t.buscar_id(3), Err(ErroTabela::NaoEncontrado));
}

#[test]
fn remover_sem_linha_falha() {
    let mut t = tres_livros();
    assert_eq!(t.remover(9), Err(ErroTabela::NaoEncontrado));
    assert_eq!(t.listar().len(), 3);
}

#[test]
fn remover_duas_vezes_falha_na_segunda() {
    let mut t = tres_livros();
    assert!(t.remover(1).is_ok());
    assert_eq!(t.remover(1), Err(ErroTabela::NaoEncontrado));
}

#[test]
fn identificador_removido_pode_voltar() {
    let mut t = tres_livros();
    t.remover(1).unwrap();
    assert!(t.inserir(livro(1, "De volta", "x", &["c"], 1)).is_ok());
}

#[test]
fn buscar_autor_por_padrao() {
    let t = tres_livros();
    assert_eq!(nomes(&t.buscar_autor("%Tol%")), vec!["O Hobbit"]);
    assert_eq!(nomes(&t.buscar_autor("%a%")), vec!["Duna", "Fundacao"]);
    assert_eq!(nomes(&t.buscar_autor("%")), vec!["Duna", "Fundacao", "O Hobbit"]);
    assert_eq!(nomes(&t.buscar_autor("Frank Herbert")), vec!["Duna"]);
    assert!(t.buscar_autor("Frank").is_empty());
    assert!(t.buscar_autor("%xyz%").is_empty());
}

#[test]
fn buscar_categoria_por_padrao() {
    let t = tres_livros();
    assert_eq!(nomes(&t.buscar_categoria("%fic%")), vec!["Duna", "Fundacao"]);
    assert_eq!(nomes(&t.buscar_categoria("classico")), vec!["Duna"]);
    assert_eq!(nomes(&t.buscar_categoria("%fantasia%")), vec!["O Hobbit"]);
    assert!(t.buscar_categoria("%science fiction, classico%").is_empty());
    assert!(t.buscar_categoria("%romance%").is_empty());
}

#[test]
fn categoria_ausente_nao_casa_com_nada() {
    let mut t = Tabela::new();
    let mut l = livro(1, "a", "b", &[], 1);
    l.categorias = vec![None, None];
    t.inserir(l).unwrap();
    assert!(t.buscar_categoria("%").is_empty());
    assert!(t.buscar_categoria("%%").is_empty());
}

#[test]
fn alguma_categoria_olha_elemento_por_elemento() {
    let ss = analisar("%fic%");
    assert!(alguma_categoria(&ss, &vec![None, Some("science fiction".to_string())]));
    assert!(!alguma_categoria(&ss, &vec![Some("fi".to_string()), Some("c".to_string())]));
    assert!(!alguma_categoria(&ss, &vec![]));
}

#[test]
fn textos_dos_erros() {
    assert_eq!(ErroTabela::NaoEncontrado.mensagem(), "Record not found");
    assert_eq!(
        ErroTabela::IdDuplicado.mensagem(),
        "duplicate key value violates unique constraint \"livros_pkey\""
    );
    assert_eq!(ErroTabela::TextoLongo.mensagem(), "value too long for type character varying(64)");
}
