//! Small, independent helpers for Bitcoin-style data: hexadecimal coding,
//! byte-order reversal, satoshi amounts, script-prefix classification,
//! opcode lookup and plain records for outpoints and unspent outputs.
//!
//! Every function carries a contract over mathematical models (`Seq<u8>`,
//! `Seq<char>`, `int`), and the laws that relate several functions are
//! stated as public proof functions next to them.

pub mod amount;
pub mod codec;
pub mod records;
pub mod script;
pub mod wallet;

pub use amount::{apply_fee, parse_satoshis};
pub use codec::{
    bytes_to_hex, decode_hex, hex_to_bytes, swap_endian_u32, to_big_endian, HexError,
};
pub use records::{consume_utxo, move_txid, Outpoint, UTXO};
pub use script::{classify_script, read_pushdata, Opcode, ScriptType};
pub use wallet::{TestWallet, Wallet};
