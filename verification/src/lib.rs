pub mod retry;
