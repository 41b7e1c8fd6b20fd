use livraria::texto::{caracteres, decimal, decimal_nat, eh_espaco, juntar, so_espacos};

#[test]
fn decimal_de_zero() {
    assert_eq!(decimal(0), "0");
}

#[test]
fn decimal_de_um_digito() {
    assert_eq!(decimal(7), "7");
}

#[test]
fn decimal_de_varios_digitos() {
    assert_eq!(decimal(10), "10");
    assert_eq!(decimal(1965), "1965");
    assert_eq!(decimal(65535), "65535");
}

#[test]
fn decimal_de_negativos() {
    assert_eq!(decimal(-1), "-1");
    assert_eq!(decimal(-300), "-300");
}

#[test]
fn decimal_dos_extremos() {
    assert_eq!(decimal(i32::MAX), "2147483647");
    assert_eq!(decimal(i32::MIN), "-2147483648");
}

#[test]
fn decimal_concorda_com_a_biblioteca_padrao() {
    let casos = [0, 1, 9, 10, 11, 99, 100, 101, 12345, -12345, 1000000];
    for n in casos {
        assert_eq!(decimal(n), n.to_string());
    }
}

#[test]
fn decimal_nat_do_maior_valor() {
    assert_eq!(decimal_nat(u64::MAX), "18446744073709551615");
    assert_eq!(decimal_nat(0), "0");
}

#[test]
fn espacos_conhecidos() {
    let espacos = [
        '\u{0009}', '\u{000A}', '\u{000B}', '\u{000C}', '\u{000D}', '\u{0020}', '\u{0085}',
        '\u{00A0}', '\u{1680}', '\u{2000}', '\u{2005}', '\u{200A}', '\u{2028}', '\u{2029}',
        '\u{202F}', '\u{205F}', '\u{3000}',
    ];
    for c in espacos {
        assert!(eh_espaco(c));
    }
}

#[test]
fn caracteres_que_nao_sao_espaco() {
    let outros = ['a', '0', '_', '%', '\u{0008}', '\u{000E}', '\u{200B}', '\u{180E}', '\u{FEFF}'];
    for c in outros {
        assert!(!eh_espaco(c));
    }
}

#[test]
fn eh_espaco_concorda_com_a_biblioteca_padrao() {
    let mut n: u32 = 0;
    while n < 0x3100 {
        if let Some(c) = char::from_u32(n) {
            assert_eq!(eh_espaco(c), c.is_whitespace());
        }
        n += 1;
    }
}

#[test]
fn so_espacos_em_textos() {
    assert!(so_espacos(""));
    assert!(so_espacos("   "));
    assert!(so_espacos(" \t\n"));
    assert!(!so_espacos(" a "));
    assert!(!so_espacos("Dune"));
}

#[test]
fn caracteres_de_um_texto() {
    assert_eq!(caracteres(""), Vec::<char>::new());
    assert_eq!(caracteres("ação"), vec!['a', 'ç', 'ã', 'o']);
}

#[test]
fn juntar_nenhuma_parte() {
    assert_eq!(juntar(&vec![], ", "), "");
}

#[test]
fn juntar_uma_parte() {
    assert_eq!(juntar(&vec!["Nome"], ", "), "Nome");
}

#[test]
fn juntar_varias_partes() {
    assert_eq!(juntar(&vec!["Nome", "Autor", "Categorias"], ", "), "Nome, Autor, Categorias");
    assert_eq!(juntar(&vec!["", ""], "-"), "-");
}
