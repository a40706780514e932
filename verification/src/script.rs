//! Recognition of script prefixes and of single opcodes.

use crate::codec::hex_digit;
use vstd::prelude::*;
use vstd::slice::slice_subrange;
use vstd::string::StringExecFns;

verus! {

/// The closed set of script patterns that `classify_script` tells apart.
#[derive(Debug, PartialEq, Eq, Structural, Clone, Copy)]
pub enum ScriptType {
    P2PKH,
    P2WPKH,
    Unknown,
}

/// `OP_DUP OP_HASH160 PUSHBYTES_20`, the start of a pay-to-public-key-hash script.
pub open spec fn p2pkh_prefix() -> Seq<u8> {
    seq![0x76u8, 0xa9u8, 0x14u8]
}

/// `OP_0 PUSHBYTES_20`, the start of a pay-to-witness-public-key-hash script.
pub open spec fn p2wpkh_prefix() -> Seq<u8> {
    seq![0x00u8, 0x14u8]
}

/// The pattern of a script: decided by its leading bytes alone, the longer
/// prefix first, with no demand on what follows the prefix.
pub open spec fn script_type_of(script: Seq<u8>) -> ScriptType {
    if p2pkh_prefix().is_prefix_of(script) {
        ScriptType::P2PKH
    } else if p2wpkh_prefix().is_prefix_of(script) {
        ScriptType::P2WPKH
    } else {
        ScriptType::Unknown
    }
}

/// The two prefixes, byte by byte.
pub proof fn lemma_prefix_bytes(script: Seq<u8>)
    ensures
        p2pkh_prefix().is_prefix_of(script) <==> (script.len() >= 3 && script[0] == 0x76
            && script[1] == 0xa9 && script[2] == 0x14),
        p2wpkh_prefix().is_prefix_of(script) <==> (script.len() >= 2 && script[0] == 0x00
            && script[1] == 0x14),
{
    if script.len() >= 3 && script[0] == 0x76 && script[1] == 0xa9 && script[2] == 0x14 {
        assert(p2pkh_prefix() =~= script.subrange(0, 3));
    } else if p2pkh_prefix().is_prefix_of(script) {
        assert(script[0] == p2pkh_prefix()[0]);
        assert(script[1] == p2pkh_prefix()[1]);
        assert(script[2] == p2pkh_prefix()[2]);
    }
    if script.len() >= 2 && script[0] == 0x00 && script[1] == 0x14 {
        assert(p2wpkh_prefix() =~= script.subrange(0, 2));
    } else if p2wpkh_prefix().is_prefix_of(script) {
        assert(script[0] == p2wpkh_prefix()[0]);
        assert(script[1] == p2wpkh_prefix()[1]);
    }
}

/// Whatever follows the pay-to-public-key-hash prefix, even nothing, the
/// script is of that pattern.
pub proof fn lemma_p2pkh_any_tail(tail: Seq<u8>)
    ensures
        script_type_of(p2pkh_prefix() + tail) == ScriptType::P2PKH,
{
    lemma_prefix_bytes(p2pkh_prefix() + tail);
}

/// Whatever follows the pay-to-witness-public-key-hash prefix, even
/// nothing, the script is of that pattern.
pub proof fn lemma_p2wpkh_any_tail(tail: Seq<u8>)
    ensures
        script_type_of(p2wpkh_prefix() + tail) == ScriptType::P2WPKH,
{
    lemma_prefix_bytes(p2wpkh_prefix() + tail);
}

/// No script begins with both prefixes, so the order in which they are
/// tried decides nothing.
pub proof fn lemma_prefixes_disjoint(script: Seq<u8>)
    ensures
        !(p2pkh_prefix().is_prefix_of(script) && p2wpkh_prefix().is_prefix_of(script)),
{
    lemma_prefix_bytes(script);
}

/// Classifies a raw script by its leading bytes.
pub fn classify_script(script: &[u8]) -> (kind: ScriptType)
    ensures
        kind == script_type_of(script@),
{
    let n: usize = script.len();
    proof {
        lemma_prefix_bytes(script@);
    }
    if n >= 3 && script[0] == 0x76 && script[1] == 0xa9 && script[2] == 0x14 {
        ScriptType::P2PKH
    } else if n >= 2 && script[0] == 0x00 && script[1] == 0x14 {
        ScriptType::P2WPKH
    } else {
        ScriptType::Unknown
    }
}

/// Everything from the third byte of a script on. What precedes is not
/// examined: that the script has a known pattern is for the caller to see to.
pub fn read_pushdata(script: &[u8]) -> (data: &[u8])
    requires
        script@.len() >= 2,
    ensures
        data@ == script@.subrange(2, script@.len() as int),
{
    slice_subrange(script, 2, script.len())
}

/// The opcodes that `Opcode::from_byte` knows, and a mark for one unknown.
#[derive(Debug, PartialEq, Eq, Structural, Clone, Copy)]
pub enum Opcode {
    OpChecksig,
    OpDup,
    OpInvalid,
}

/// The opcode that a byte stands for, if it is one of the two known.
pub open spec fn opcode_of(byte: u8) -> Option<Opcode> {
    if byte == 0xac {
        Some(Opcode::OpChecksig)
    } else if byte == 0x76 {
        Some(Opcode::OpDup)
    } else {
        None
    }
}

/// The message for a byte that is no known opcode: the byte as two
/// lower-case hexadecimal digits behind `0x`.
pub open spec fn invalid_opcode_text(byte: u8) -> Seq<char> {
    "Invalid opcode: 0x"@ + seq![hex_digit(byte as int / 16), hex_digit(byte as int % 16)]
}

/// The model of a lookup result.
pub open spec fn lookup_view(r: Result<Opcode, String>) -> Result<Opcode, Seq<char>> {
    match r {
        Ok(op) => Ok(op),
        Err(msg) => Err(msg@),
    }
}

/// The lower-case hexadecimal digit for a value below sixteen, as text.
fn digit_text(n: u8) -> (s: &'static str)
    requires
        n < 16,
    ensures
        s@ == seq![hex_digit(n as int)],
{
    proof {
        reveal_strlit("0");
        reveal_strlit("1");
        reveal_strlit("2");
        reveal_strlit("3");
        reveal_strlit("4");
        reveal_strlit("5");
        reveal_strlit("6");
        reveal_strlit("7");
        reveal_strlit("8");
        reveal_strlit("9");
        reveal_strlit("a");
        reveal_strlit("b");
        reveal_strlit("c");
        reveal_strlit("d");
        reveal_strlit("e");
        reveal_strlit("f");
    }
    let s = match n {
        0 => "0",
        1 => "1",
        2 => "2",
        3 => "3",
        4 => "4",
        5 => "5",
        6 => "6",
        7 => "7",
        8 => "8",
        9 => "9",
        10 => "a",
        11 => "b",
        12 => "c",
        13 => "d",
        14 => "e",
        _ => "f",
    };
    assert(s@ =~= seq![hex_digit(n as int)]);
    s
}

impl Opcode {
    /// Looks a byte up among the known opcodes; any other byte is an error
    /// that names the byte.
    pub fn from_byte(byte: u8) -> (r: Result<Opcode, String>)
        ensures
            lookup_view(r) == match opcode_of(byte) {
                Some(op) => Ok::<Opcode, Seq<char>>(op),
                None => Err::<Opcode, Seq<char>>(invalid_opcode_text(byte)),
            },
    {
        if byte == 0xac {
            Ok(Opcode::OpChecksig)
        } else if byte == 0x76 {
            Ok(Opcode::OpDup)
        } else {
            let mut msg = String::from_str("Invalid opcode: 0x");
            msg.append(digit_text(byte / 16));
            msg.append(digit_text(byte % 16));
            assert(msg@ =~= invalid_opcode_text(byte));
            Err(msg)
        }
    }
}

} // verus!
