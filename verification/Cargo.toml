[package]
name = "pnc"
version = "0.1.0"
edition = "2021"
publish = false

[dependencies]
cranelift-codegen = "=0.133.3"
cranelift-frontend = "=0.133.3"
cranelift-module = "=0.133.3"
cranelift-object = "=0.133.3"
target-lexicon = "=0.13.5"
pest = "=2.9.2"
pest_derive = "=2.9.2"
structopt = "=0.3.26"
