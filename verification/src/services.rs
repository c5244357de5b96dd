pub mod db;
pub mod openai;
