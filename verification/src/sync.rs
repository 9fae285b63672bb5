pub mod volatile;
