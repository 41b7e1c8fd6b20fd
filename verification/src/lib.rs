//! A verified catalogue of books: the records, the validation of new
//! entries, the table that stores them and the operations of the service.

pub mod data_hora;
pub mod leis;
pub mod livros;
pub mod padrao;
pub mod servico;
pub mod tabela;
pub mod texto;
