[package]
name = "pr_authors"
version = "0.1.0"
edition = "2021"
publish = false

[dependencies]
anyhow = "=1.0.104"
git2 = { version = "=0.21.0", default-features = false }
indicatif = "=0.18.6"
log = "=0.4.34"
rayon = "=1.12.0"
stderrlog = "=0.6.0"
structopt = "=0.3.26"
thread_local = "=1.1.10"
