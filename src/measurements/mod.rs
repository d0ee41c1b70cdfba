pub mod individual;
