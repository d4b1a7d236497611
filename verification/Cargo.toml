[package]
name = "shapefile_reader"
version = "0.1.0"
edition = "2021"
publish = false

[dependencies]
byteorder = "1"
csv = "1"
dbase = "*"
geo = "*"
wkt = "*"
