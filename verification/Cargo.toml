[package]
name = "pcl_seal"
version = "1.0.0"
edition = "2021"
publish = false

[dependencies]
base64 = "=0.10.1"
httparse = "=1.3.6"
rustls = "=0.16.0"
webpki = "=0.21.4"
webpki-roots = "=0.17.0"
sgx_types = "=1.1.1"
sgx_tcrypto = "=1.1.1"
sgx_tse = "=1.1.1"
sgx_tseal = "=1.1.1"
sgx_rand = "=1.1.1"
sgx_tstd = { version = "=1.1.1", features = ["net", "untrusted_fs"] }
