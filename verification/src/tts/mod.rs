pub mod speech_queue;
pub mod controller;
