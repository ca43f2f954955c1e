[package]
name = "pdfpurr"
version = "0.1.0"
edition = "2021"
publish = false

[dependencies]
aes = "=0.8.4"
cbc = "=0.1.2"
sha2 = "=0.10.9"
md5 = "=0.7.0"
flate2 = "=1.1.10"
lzw = "=0.10.0"
fax = "=0.2.7"
allsorts = "*"
skrifa = "*"
