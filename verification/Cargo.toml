[package]
name = "glsl_highlight"
version = "0.1.0"
edition = "2021"
publish = false

[dependencies]
jni = "=0.21.1"
tree-sitter = "=0.20.10"
tree-sitter-glsl = "<0.1.6"
tree-sitter-highlight = "=0.20.1"
unicode-segmentation = "=1.13.3"
