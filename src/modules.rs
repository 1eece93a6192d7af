pub mod encoder;
pub mod keypad;
pub mod neopixel;
