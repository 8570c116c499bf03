[package]
name = "langulo"
version = "0.1.0"
edition = "2021"
publish = false

[dependencies]
bitvec = "1"
clap = "4"
codespan-reporting = "0.11"
colored = "2"
fxhash = "0.2"
libc = "0.2"
logos = "*"
num-derive = "0.4"
num-traits = "0.2"
paste = "1"
rowan = "0.15"
rusttyc = "*"
rustyline = "*"
