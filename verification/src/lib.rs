pub mod csr;
