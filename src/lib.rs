//! Contract-interface descriptions: JSON ABI items, free-text error
//! signatures and EIP-712 `encodeType` strings, with canonical signatures
//! and selectors.

pub mod text;
pub mod type_spec;
pub mod hash;
pub mod param;
pub mod item;
pub mod sig_parse;
pub mod eip712;

pub use eip712::{ComponentType, EncodeType, Eip712Error, PropDef};
pub use item::{
    validate_item, AbiItem, Constructor, Error, Event, Fallback, Function, ItemError, ItemKind,
    Receive,
};
pub use param::{EventParam, Param, StateMutability};
pub use sig_parse::{parse_param, parse_params};
