[package]
name = "audio_trans_vox"
version = "1.0.0"
edition = "2021"
publish = false

[dependencies]
chrono = "0.4"
clap = { version = "4", features = ["derive"] }
cpal = "0.15"
ctrlc = "3"
hound = "3.5"
num-traits = "0.2"
samplerate = "0.2"
whisper-rs = "0.14"
