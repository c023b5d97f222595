//! The trace-collection sibling of the inference engine.
//!
//! A trace observer records one basic-block record per architectural step;
//! external tooling later reads either the serialized record sequence or a
//! plain-text file of one hexadecimal program-counter value per line.
//! The recording decision and the text rendering are here; file handling
//! and the callback plumbing stay with the embedder.

use vstd::prelude::*;

verus! {

/// Error of the event collector.
#[derive(Debug, Clone, Copy, PartialEq, Eq, Structural)]
pub enum TraceCollectorError {
    DefaultError,
}

impl TraceCollectorError {
    /// A short description of the error, in place of a `Display` impl.
    pub fn message(&self) -> (r: String)
        ensures
            r@ == "TraceCollector Error"@,
    {
        "TraceCollector Error".to_owned()
    }
}

/// Error of the trace observer.
#[derive(Debug, Clone, Copy, PartialEq, Eq, Structural)]
pub enum TraceError {
    DefaultError,
    TraceCollectorError(TraceCollectorError),
}

impl From<TraceCollectorError> for TraceError {
    fn from(error: TraceCollectorError) -> (r: TraceError) {
        TraceError::TraceCollectorError(error)
    }
}

impl vstd::std_specs::convert::FromSpecImpl<TraceCollectorError> for TraceError {
    open spec fn obeys_from_spec() -> bool {
        true
    }

    open spec fn from_spec(error: TraceCollectorError) -> TraceError {
        TraceError::TraceCollectorError(error)
    }
}

impl TraceError {
    /// A short description of the error, in place of a `Display` impl.
    pub fn message(&self) -> (r: String)
        ensures
            self is DefaultError ==> r@ == "Trace Error"@,
            self is TraceCollectorError ==> r@ == "Collector Error: TraceCollector Error"@,
    {
        match self {
            TraceError::DefaultError => "Trace Error".to_owned(),
            TraceError::TraceCollectorError(_) => "Collector Error: TraceCollector Error".to_owned(),
        }
    }
}

/// One traced basic block: its address and how often it repeated.
#[derive(Debug, Clone, Copy, PartialEq, Eq, Structural)]
pub struct TbbBlock {
    pub address: u64,
    pub n: u64,
}

/// Record one architectural step: append a block record for the stepped
/// address with a repeat count of one.
pub fn record_tbb_block(blocks: &mut Vec<TbbBlock>, address: u64)
    ensures
        final(blocks)@ == old(blocks)@.push((TbbBlock { address, n: 1u64 })),
{
    blocks.push(TbbBlock { address, n: 1 });
}

/// The ASCII digit of a hexadecimal nibble, lower case.
pub open spec fn hex_digit_byte(d: int) -> u8 {
    if d < 10 {
        (48 + d) as u8
    } else {
        (87 + d) as u8
    }
}

/// The shortest hexadecimal rendering of a value, most significant digit
/// first, as ASCII bytes.
pub open spec fn hex_bytes(v: nat) -> Seq<u8>
    decreases v,
{
    if v < 16 {
        seq![hex_digit_byte(v as int)]
    } else {
        hex_bytes(v / 16).push(hex_digit_byte((v % 16) as int))
    }
}

/// The ASCII digit of a value below sixteen.
fn hex_digit(d: u64) -> (r: u8)
    requires
        d < 16,
    ensures
        r == hex_digit_byte(d as int),
{
    if d < 10 {
        (48 + d) as u8
    } else {
        (87 + d) as u8
    }
}

/// Append the hexadecimal digits of `v` to `out`.
fn push_hex_bytes(v: u64, out: &mut Vec<u8>)
    ensures
        final(out)@ == old(out)@ + hex_bytes(v as nat),
    decreases v,
{
    if v < 16 {
        out.push(hex_digit(v));
        proof {
            assert(out@ =~= old(out)@ + hex_bytes(v as nat));
        }
    } else {
        assert(v / 16 < v && v / 16 >= 1) by (nonlinear_arith)
            requires
                v >= 16,
        ;
        push_hex_bytes(v / 16, out);
        out.push(hex_digit(v % 16));
        proof {
            assert(out@ =~= old(out)@ + hex_bytes(v as nat));
        }
    }
}

/// One line of the plain-text trace file: the program counter in `0x...`
/// form, newline-terminated — the rendering external visualization
/// tooling reads.
pub fn pc_hex_line(address: u64) -> (r: Vec<u8>)
    ensures
        r@ == seq![48u8, 120u8] + hex_bytes(address as nat) + seq![10u8],
{
    let mut out: Vec<u8> = Vec::new();
    out.push(48);
    out.push(120);
    proof {
        assert(out@ =~= seq![48u8, 120u8]);
    }
    push_hex_bytes(address, &mut out);
    out.push(10);
    proof {
        assert(out@ =~= seq![48u8, 120u8] + hex_bytes(address as nat) + seq![10u8]);
    }
    out
}

} // verus!
