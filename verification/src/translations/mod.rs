pub mod parser_errors;
pub mod validator_messages;
