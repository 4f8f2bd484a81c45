[package]
name = "shared"
version = "0.1.0"
edition = "2021"
publish = false

[dependencies]
corncobs = "=0.1.4"
crc = "=3.4.0"
ssmarshal = "=1.0.0"
serial2 = "=0.2.38"
chrono = "=0.4.45"
dateparser = "=0.2.1"
smart-leds = "=0.4.0"

[dev-dependencies]
serde = "=1.0.229"
