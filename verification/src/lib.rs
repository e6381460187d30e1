//! The core of a layer-4 port forwarder: rules that map listen ports to
//! upstream addresses, and the decisions of the engines that forward TCP
//! connections and UDP datagrams for them.
//!
//! - `mapping_rule`: the grammar of one line of a mapping file.
//! - `rule_table`: the table of forwarding entries that the lines compile to.
//! - `round_trip`: entries written back as lines, and read again.
//! - `report`: the text of warnings and log lines.
//! - `tcp_proxy`, `udp_proxy`: what a forwarder does with each event. The
//!   sockets, the tasks and the clock belong to the program around this
//!   library: it reports what happened and carries out what is decided.
//! - `session_map`: the concurrent map and the queues behind the UDP
//!   forwarder's sessions.
//! - `supervisor`: which forwarder serves an entry.
//! - `text`: scanning, trimming and numbers in base ten.

pub mod mapping_rule;
pub mod report;
pub mod round_trip;
pub mod rule_table;
pub mod session_map;
pub mod supervisor;
pub mod tcp_proxy;
pub mod text;
pub mod udp_proxy;
