[package]
name = "makefulltextfeed"
version = "0.1.0"
edition = "2021"
publish = false

[dependencies]
rss = "=2.1.2"
atom_syndication = "=0.12.10"
quick-xml = "=0.42.0"
url = "*"
serde = { version = "*", features = ["derive"] }
log = "*"
futures = "*"
reqwest = "*"
tokio = { version = "*", features = ["rt-multi-thread", "macros"] }
axum = "*"
article_scraper = "*"
confique = "*"
structopt = "*"
stderrlog = "*"
tokio-listener = { version = "*", features = ["axum08", "serde"] }
pathetic = "*"
