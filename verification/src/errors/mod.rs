pub mod err;
