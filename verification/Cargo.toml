[package]
name = "mail_autoconfig"
version = "0.1.0"
edition = "2021"
publish = false

[dependencies]
percent-encoding = "2"
rusqlite = "*"
r2d2 = "*"
r2d2_sqlite = "*"
async-std = "*"
imap = "*"
native-tls = "*"
thread-local-object = "*"
backtrace = "*"
libc = "*"
