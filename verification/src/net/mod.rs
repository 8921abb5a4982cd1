pub mod output_buffer;
pub mod telnet;

pub use self::output_buffer::OutputBuffer;
pub use self::telnet::TelnetMode;
pub mod addresses;
pub mod check_version;
pub mod connection_id;
pub mod event_loop;
pub mod zlib;
pub mod telnet_handler;
pub mod tls;
