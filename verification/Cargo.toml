[package]
name = "max_7219_led_matrix_util"
version = "0.1.0"
edition = "2021"
publish = false

[dependencies]
embedded-hal = "=0.2.7"
gpio-cdev = "=0.6.0"
max7219 = "=0.4.2"
