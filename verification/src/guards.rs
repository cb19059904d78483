//! Resource guards that run on raw input before the PDF engine sees it:
//! the input-size cap, the declared-stream-length cap and the zip-bomb
//! budget, plus the AcroForm probe that switches on small-text
//! preservation.

use vstd::prelude::*;

use crate::config::ParseConfig;
use crate::error::SpdfError;
use crate::flate_scan::{ExpandedScan, expanded_scan, flate_bodies_from, flate_key, inflated_total,
    scan_expanded_flate_bytes};
use crate::pdf_scan::{acroform_key, contains_bytes, max_declared_length, scan_has_acroform,
    scan_max_declared_length};
use crate::text::{append_chars, append_str, chars_of, decimal_string, string_of, u64_to_decimal};

verus! {

/// Message of the input-size guard.
pub open spec fn input_too_large_message(len: nat, cap: u64) -> Seq<char> {
    "spdf: input "@ + decimal_string(len) + " bytes exceeds max_input_bytes "@ + decimal_string(
        cap as nat,
    )
}

/// Message of the declared-length guard.
pub open spec fn declared_too_large_message(n: u64, cap: u64) -> Seq<char> {
    "spdf: PDF declares a stream of "@ + decimal_string(n as nat)
        + " bytes; exceeds max_declared_stream_bytes cap of "@ + decimal_string(cap as nat)
}

/// Message of the inflated-size guard.
pub open spec fn expanded_too_large_message(at_least: u64, cap: u64) -> Seq<char> {
    "spdf: FlateDecode streams expand to at least "@ + decimal_string(at_least as nat)
        + " bytes; exceeds max_expanded_stream_bytes cap of "@ + decimal_string(cap as nat)
}

fn message3(a: &str, n: u64, b: &str, cap: u64) -> (s: String)
    ensures
        s@ == a@ + decimal_string(n as nat) + b@ + decimal_string(cap as nat),
{
    let mut v = chars_of(a);
    let ns = u64_to_decimal(n);
    append_chars(&mut v, &chars_of(ns.as_str()));
    append_str(&mut v, b);
    let cs = u64_to_decimal(cap);
    append_chars(&mut v, &chars_of(cs.as_str()));
    string_of(&v)
}

/// The input-size guard: an in-memory input of `len` bytes is rejected
/// when it exceeds `max_input_bytes`.
pub fn check_input_size(len: usize, max_input_bytes: Option<u64>) -> (r: Result<(), SpdfError>)
    ensures
        r is Ok <==> (max_input_bytes matches Some(cap) ==> len <= cap),
        r matches Err(e) ==> (e matches SpdfError::InvalidInput(m) && (max_input_bytes matches Some(
            cap,
        ) && m@ == input_too_large_message(len as nat, cap))),
{
    match max_input_bytes {
        Some(cap) => {
            if len as u64 > cap {
                let m = message3("spdf: input ", len as u64, " bytes exceeds max_input_bytes ", cap);
                return Err(SpdfError::InvalidInput(m));
            }
            Ok(())
        },
        None => Ok(()),
    }
}

/// Whether the declared-length guard rejects `bytes` under `cap`.
pub open spec fn declared_guard_fires(bytes: Seq<u8>, cap: Option<u64>) -> bool {
    match (cap, max_declared_length(bytes)) {
        (Some(c), Some(n)) => n > c,
        _ => false,
    }
}

/// The declared-length guard: a PDF that directly declares a stream
/// longer than `cap` is rejected; `None` disables the guard.
pub fn check_declared_lengths(bytes: &[u8], cap: Option<u64>) -> (r: Result<(), SpdfError>)
    ensures
        r is Ok <==> !declared_guard_fires(bytes@, cap),
        r matches Err(e) ==> (e matches SpdfError::InvalidInput(m) && m@
            == declared_too_large_message(max_declared_length(bytes@)->0, cap->0)),
{
    if let Some(cap) = cap {
        if let Some(n) = scan_max_declared_length(bytes) {
            if n > cap {
                let m = message3(
                    "spdf: PDF declares a stream of ",
                    n,
                    " bytes; exceeds max_declared_stream_bytes cap of ",
                    cap,
                );
                return Err(SpdfError::InvalidInput(m));
            }
        }
    }
    Ok(())
}

/// Whether the inflated-size guard rejects `bytes` under `cap`: the
/// pre-scan of its FlateDecode streams crosses the budget.
pub open spec fn expanded_guard_fires(bytes: Seq<u8>, cap: Option<u64>) -> bool {
    match cap {
        Some(c) => expanded_scan(bytes, c) is Overflowed,
        None => false,
    }
}

/// The message of the inflated-size guard on `bytes` under `cap`: it
/// cites how much the pre-scan had inflated when it stopped.
pub open spec fn expanded_guard_message(bytes: Seq<u8>, cap: u64) -> Seq<char> {
    expanded_too_large_message(expanded_scan(bytes, cap)->at_least, cap)
}

/// The inflated-size guard: a PDF whose FlateDecode streams inflate past
/// `cap` in total is rejected; `None` disables the guard. The message
/// cites how much had been inflated when the budget was crossed, at most
/// one 64 KiB window past it.
pub fn check_expanded_size(bytes: &[u8], cap: Option<u64>) -> (r: Result<(), SpdfError>)
    ensures
        r is Err <==> expanded_guard_fires(bytes@, cap),
        r matches Err(e) ==> (e matches SpdfError::InvalidInput(m) && m@ == expanded_guard_message(
            bytes@,
            cap->0,
        )),
        cap matches Some(c) ==> (c < u64::MAX ==> (r is Err <==> inflated_total(bytes@) > c)),
        cap matches Some(c) ==> (r is Err ==> c < expanded_scan(bytes@, c)->at_least <= c + 65536),
        cap is None ==> r is Ok,
        cap == Some(u64::MAX) ==> r is Ok,
        flate_bodies_from(bytes@, 0).len() == 0 ==> r is Ok,
        !contains_bytes(bytes@, flate_key()) ==> r is Ok,
{
    if let Some(cap) = cap {
        if let ExpandedScan::Overflowed { at_least } = scan_expanded_flate_bytes(bytes, cap) {
            let m = message3(
                "spdf: FlateDecode streams expand to at least ",
                at_least,
                " bytes; exceeds max_expanded_stream_bytes cap of ",
                cap,
            );
            return Err(SpdfError::InvalidInput(m));
        }
    }
    Ok(())
}

/// Whether small-text preservation is on for a document: as configured,
/// or switched on because the PDF carries an `/AcroForm` dictionary.
pub fn preserves_small_text(bytes: &[u8], configured: bool) -> (r: bool)
    ensures
        r == (configured || contains_bytes(bytes@, acroform_key())),
{
    configured || scan_has_acroform(bytes)
}

/// The pre-flight checks on the raw bytes of a PDF: the declared-length
/// guard first, then the inflated-size guard. On success, returns whether
/// small-text preservation is on for this document.
pub fn preflight_pdf(bytes: &[u8], config: &ParseConfig) -> (r: Result<bool, SpdfError>)
    ensures
        declared_guard_fires(bytes@, config.max_declared_stream_bytes) ==> (r matches Err(
            SpdfError::InvalidInput(m),
        ) && m@ == declared_too_large_message(
            max_declared_length(bytes@)->0,
            config.max_declared_stream_bytes->0,
        )),
        !declared_guard_fires(bytes@, config.max_declared_stream_bytes) ==> match r {
            Ok(small) => !expanded_guard_fires(bytes@, config.max_expanded_stream_bytes) && small
                == (config.preserve_very_small_text || contains_bytes(bytes@, acroform_key())),
            Err(e) => expanded_guard_fires(bytes@, config.max_expanded_stream_bytes) && (e matches SpdfError::InvalidInput(m)
                && m@ == expanded_guard_message(bytes@, config.max_expanded_stream_bytes->0)),
        },
        (config.max_expanded_stream_bytes is None || !contains_bytes(bytes@, flate_key()))
            && !declared_guard_fires(bytes@, config.max_declared_stream_bytes) ==> r is Ok,
{
    check_declared_lengths(bytes, config.max_declared_stream_bytes)?;
    check_expanded_size(bytes, config.max_expanded_stream_bytes)?;
    Ok(preserves_small_text(bytes, config.preserve_very_small_text))
}

} // verus!
