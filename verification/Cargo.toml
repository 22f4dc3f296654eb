[package]
name = "sazid"
version = "0.1.0"
edition = "2021"
publish = false

[dependencies]
regex = "=1.13.1"
serde_json = "=1.0.154"
termini = "=1.0.0"
unicode-segmentation = "=1.13.3"
lsp-types = "*"
change-case = "*"
diff = "*"
