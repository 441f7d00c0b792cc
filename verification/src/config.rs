//! Test configuration with a builder interface.
use std::time::Duration;
use vstd::prelude::*;

verus! {

/// The duration of `secs` whole seconds, as `std::time::Duration::from_secs`
/// makes it.
pub uninterp spec fn secs_duration(secs: u64) -> Duration;

/// `std::time::Duration::from_secs`: the duration of `secs` whole seconds.
/// The contract only names the result (`Duration` is opaque here), which
/// depends on `secs` alone.
#[verifier::external_body]
pub(crate) fn duration_from_secs(secs: u64) -> (d: Duration)
    ensures
        d == secs_duration(secs),
{
    Duration::from_secs(secs)
}

/// Transport protocol of a test.
#[derive(Debug, Clone, Copy, PartialEq, Eq, Structural)]
pub enum Protocol {
    /// Transmission Control Protocol
    Tcp,
    /// User Datagram Protocol
    Udp,
}

/// Whether an instance acts as server or client.
#[derive(Debug, Clone, Copy, PartialEq, Eq, Structural)]
pub enum Mode {
    /// Listens for incoming connections
    Server,
    /// Connects to a server and initiates tests
    Client,
}

/// An IP address to bind to: the four octets of an IPv4 address or the
/// eight 16-bit segments of an IPv6 address.
#[derive(Debug, Clone, Copy)]
pub enum IpAddress {
    V4([u8; 4]),
    V6([u16; 8]),
}

/// Default port of the server.
pub const DEFAULT_PORT: u16 = 5201;

/// Default buffer size in bytes (128 KiB).
pub const DEFAULT_BUFFER_SIZE: usize = 131072;

/// Configuration of a test, for client and server.
#[derive(Debug)]
pub struct Config {
    /// Server mode or client mode
    pub mode: Mode,
    /// Protocol to use
    pub protocol: Protocol,
    /// Port number
    pub port: u16,
    /// Server address (client mode)
    pub server_addr: Option<String>,
    /// Bind address (server mode)
    pub bind_addr: Option<IpAddress>,
    /// Test duration
    pub duration: Duration,
    /// Target bandwidth in bits per second
    pub bandwidth: Option<u64>,
    /// Buffer size in bytes
    pub buffer_size: usize,
    /// Number of parallel streams
    pub parallel: usize,
    /// Reverse mode (server sends, client receives)
    pub reverse: bool,
    /// JSON output
    pub json: bool,
    /// Interval between periodic reports
    pub interval: Duration,
}

impl Config {
    /// The default settings: client mode, TCP, port 5201, no addresses, a
    /// 10-second test, no bandwidth limit, 128 KiB buffers, one stream,
    /// normal direction, human-readable output, a report every second.
    pub open spec fn has_defaults(&self) -> bool {
        &&& self.mode == Mode::Client
        &&& self.protocol == Protocol::Tcp
        &&& self.port == DEFAULT_PORT
        &&& self.server_addr is None
        &&& self.bind_addr is None
        &&& self.bandwidth is None
        &&& self.buffer_size == DEFAULT_BUFFER_SIZE
        &&& self.parallel == 1
        &&& !self.reverse
        &&& !self.json
        &&& self.duration == secs_duration(10)
        &&& self.interval == secs_duration(1)
    }

    /// The default configuration: see `has_defaults`.
    pub fn new() -> (c: Self)
        ensures
            c.has_defaults(),
    {
        Config {
            mode: Mode::Client,
            protocol: Protocol::Tcp,
            port: DEFAULT_PORT,
            server_addr: None,
            bind_addr: None,
            duration: duration_from_secs(10),
            bandwidth: None,
            buffer_size: DEFAULT_BUFFER_SIZE,
            parallel: 1,
            reverse: false,
            json: false,
            interval: duration_from_secs(1),
        }
    }

    /// A server configuration listening on `port`, otherwise default.
    pub fn server(port: u16) -> (c: Self)
        ensures
            c == (Config { mode: Mode::Server, port, ..c }),
            (Config { mode: Mode::Client, port: DEFAULT_PORT, ..c }).has_defaults(),
    {
        Config { mode: Mode::Server, port, ..Self::new() }
    }

    /// A client configuration for the server at `server_addr` and `port`,
    /// otherwise default.
    pub fn client(server_addr: String, port: u16) -> (c: Self)
        ensures
            c.mode == Mode::Client,
            c.port == port,
            c.server_addr == Some(server_addr),
            (Config { server_addr: None, port: DEFAULT_PORT, ..c }).has_defaults(),
    {
        Config { mode: Mode::Client, server_addr: Some(server_addr), port, ..Self::new() }
    }

    /// Sets the protocol.
    pub fn with_protocol(self, protocol: Protocol) -> (c: Self)
        ensures
            c == (Config { protocol, ..self }),
    {
        Config { protocol, ..self }
    }

    /// Sets the test duration.
    pub fn with_duration(self, duration: Duration) -> (c: Self)
        ensures
            c == (Config { duration, ..self }),
    {
        Config { duration, ..self }
    }

    /// Sets the target bandwidth in bits per second.
    pub fn with_bandwidth(self, bandwidth: u64) -> (c: Self)
        ensures
            c == (Config { bandwidth: Some(bandwidth), ..self }),
    {
        Config { bandwidth: Some(bandwidth), ..self }
    }

    /// Sets the buffer size in bytes.
    pub fn with_buffer_size(self, size: usize) -> (c: Self)
        ensures
            c == (Config { buffer_size: size, ..self }),
    {
        Config { buffer_size: size, ..self }
    }

    /// Sets the number of parallel streams.
    pub fn with_parallel(self, parallel: usize) -> (c: Self)
        ensures
            c == (Config { parallel, ..self }),
    {
        Config { parallel, ..self }
    }

    /// Enables or disables reverse mode.
    pub fn with_reverse(self, reverse: bool) -> (c: Self)
        ensures
            c == (Config { reverse, ..self }),
    {
        Config { reverse, ..self }
    }

    /// Enables or disables JSON output.
    pub fn with_json(self, json: bool) -> (c: Self)
        ensures
            c == (Config { json, ..self }),
    {
        Config { json, ..self }
    }

    /// Sets the interval between periodic reports.
    pub fn with_interval(self, interval: Duration) -> (c: Self)
        ensures
            c == (Config { interval, ..self }),
    {
        Config { interval, ..self }
    }
}

impl Clone for Config {
    fn clone(&self) -> (c: Self)
        ensures
            c == (Config { server_addr: c.server_addr, ..*self }),
            c.server_addr is Some <==> self.server_addr is Some,
            c.server_addr matches Some(a) ==> a@ == self.server_addr->0@,
    {
        let server_addr = match &self.server_addr {
            Some(a) => Some(a.clone()),
            None => None,
        };
        Config {
            mode: self.mode,
            protocol: self.protocol,
            port: self.port,
            server_addr,
            bind_addr: self.bind_addr,
            duration: self.duration,
            bandwidth: self.bandwidth,
            buffer_size: self.buffer_size,
            parallel: self.parallel,
            reverse: self.reverse,
            json: self.json,
            interval: self.interval,
        }
    }
}

impl Default for Config {
    fn default() -> (c: Self)
        ensures
            c.has_defaults(),
    {
        Self::new()
    }
}

/// Buffer size of UDP tests when none was asked for: one Ethernet frame.
pub const UDP_DEFAULT_BUFFER_SIZE: usize = 1500;

/// The buffer size of a test run from the command line with `length` asked
/// for: a UDP test given the default length uses 1500-byte buffers instead,
/// anything else uses `length`.
pub fn command_line_buffer_size(udp: bool, length: usize) -> (n: usize)
    ensures
        n == (if udp && length == DEFAULT_BUFFER_SIZE { UDP_DEFAULT_BUFFER_SIZE } else { length }),
{
    if udp && length == DEFAULT_BUFFER_SIZE {
        UDP_DEFAULT_BUFFER_SIZE
    } else {
        length
    }
}

/// Why `config` cannot run a client, if it cannot: a client needs the
/// address of a server.
pub fn client_config_error(config: &Config) -> (r: Option<String>)
    ensures
        r is Some <==> config.server_addr is None,
        r matches Some(m) ==> m@ == "Server address is required for client mode"@,
{
    match config.server_addr {
        Some(_) => None,
        None => Some(String::from_str("Server address is required for client mode")),
    }
}

} // verus!
