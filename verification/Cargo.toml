[package]
name = "epaper_watch"
version = "0.1.0"
edition = "2021"
publish = false

[dependencies]
embassy-time = "=0.5.1"
heapless = "=0.8.0"
embassy-sync = "=0.8.0"
embassy-futures = "=0.1.2"
embassy-executor = "=0.10.0"
embedded-graphics = "=0.8.2"
embedded-hal = "=1.0.0"
embedded-hal-bus = "=0.3.0"
epd-waveshare = "=0.6.0"
critical-section = "=1.2.0"
defmt = "=1.2.0"
esp-hal = "=1.2.2"
esp-println = "=0.18.0"
esp-backtrace = "=0.20.0"
esp-rtos = "=0.4.0"
esp-bootloader-esp-idf = "=0.6.0"
esp-alloc = "=0.11.0"
