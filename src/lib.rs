//! Input schema of a declarative firewall configuration, and the layer that
//! turns the many accepted encodings of one field into one typed value.

pub mod value;
pub mod port;
pub mod decode;
pub mod normalize;
pub mod config;

pub use config::{
    ChainPolicy, ContainerDNAT, ContainerDNATRule, ContainerToContainer, ContainerToContainerRule,
    ContainerToHost, ContainerToHostRule, ContainerToWiderWorld, ContainerToWiderWorldRule, DFW,
    Defaults, Initialization, RuleVerdict, Table, WiderWorldToContainer, WiderWorldToContainerRule,
};
pub use decode::{Decode, DecodeError, ErrorKind, Expected};
pub use port::{ExposePort, ExposePortBuilder, IntErrorKind, PortError};
pub use value::Value;
