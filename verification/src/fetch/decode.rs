//! Response bodies as the server encoded them.
use crate::fetch::client::Error;
use crate::text::same;
use std::io::Read;
use vstd::prelude::*;
use vstd::string::*;

verus! {

/// What `flate2::read::GzDecoder` reads from bytes, or why it cannot.
pub uninterp spec fn gunzipped(b: Seq<u8>) -> Result<Seq<u8>, Seq<char>>;

/// What `flate2::read::ZlibDecoder` reads from bytes, or why it cannot.
pub uninterp spec fn unzlibbed(b: Seq<u8>) -> Result<Seq<u8>, Seq<char>>;

/// What `flate2::read::DeflateDecoder` reads from bytes, or why it cannot.
pub uninterp spec fn inflated(b: Seq<u8>) -> Result<Seq<u8>, Seq<char>>;

/// What `brotli::Decompressor` reads from bytes, or why it cannot.
pub uninterp spec fn unbrotlied(b: Seq<u8>) -> Result<Seq<u8>, Seq<char>>;

pub open spec fn bytes_or_text(r: Result<Vec<u8>, String>) -> Result<Seq<u8>, Seq<char>> {
    match r {
        Ok(b) => Ok(b@),
        Err(e) => Err(e@),
    }
}

/// Reads bytes to their end with `flate2::read::GzDecoder`. The result depends on
/// the bytes alone.
#[verifier::external_body]
fn gunzip(b: &[u8]) -> (r: Result<Vec<u8>, String>)
    ensures
        bytes_or_text(r) == gunzipped(b@),
{
    let mut out = Vec::new();
    flate2::read::GzDecoder::new(b).read_to_end(&mut out).map_err(|e| e.to_string())?;
    Ok(out)
}

/// Reads bytes to their end with `flate2::read::ZlibDecoder`. The result depends
/// on the bytes alone.
#[verifier::external_body]
fn unzlib(b: &[u8]) -> (r: Result<Vec<u8>, String>)
    ensures
        bytes_or_text(r) == unzlibbed(b@),
{
    let mut out = Vec::new();
    flate2::read::ZlibDecoder::new(b).read_to_end(&mut out).map_err(|e| e.to_string())?;
    Ok(out)
}

/// Reads bytes to their end with `flate2::read::DeflateDecoder`. The result
/// depends on the bytes alone.
#[verifier::external_body]
fn inflate(b: &[u8]) -> (r: Result<Vec<u8>, String>)
    ensures
        bytes_or_text(r) == inflated(b@),
{
    let mut out = Vec::new();
    flate2::read::DeflateDecoder::new(b).read_to_end(&mut out).map_err(|e| e.to_string())?;
    Ok(out)
}

/// Reads bytes to their end with `brotli::Decompressor`. The result depends on the
/// bytes alone.
#[verifier::external_body]
fn unbrotli(b: &[u8]) -> (r: Result<Vec<u8>, String>)
    ensures
        bytes_or_text(r) == unbrotlied(b@),
{
    let mut out = Vec::new();
    brotli::Decompressor::new(b, 4096).read_to_end(&mut out).map_err(|e| e.to_string())?;
    Ok(out)
}

/// A decoded body, or the failure under the given heading.
pub open spec fn decoded_or(r: Result<Seq<u8>, Seq<char>>, heading: Seq<char>) -> Result<
    Seq<u8>,
    Seq<char>,
> {
    match r {
        Ok(b) => Ok(b),
        Err(e) => Err(heading + e),
    }
}

/// What `deflate` bytes decode to: those of zlib, else, where they are none, raw ones.
pub open spec fn undeflated(b: Seq<u8>) -> Result<Seq<u8>, Seq<char>> {
    if unzlibbed(b) is Ok {
        unzlibbed(b)
    } else {
        decoded_or(inflated(b), "deflate decode: "@)
    }
}

/// The encodings that are decoded.
pub open spec fn known_encoding(s: Seq<char>) -> bool {
    s == "gzip"@ || s == "x-gzip"@ || s == "deflate"@ || s == "br"@
}

pub fn is_known_encoding(s: &str) -> (r: bool)
    ensures
        r == known_encoding(s@),
{
    same(s, "gzip") || same(s, "x-gzip") || same(s, "deflate") || same(s, "br")
}

/// What a body decodes to under an encoding; under one that is not known, itself.
pub open spec fn decoded(encoding: Option<Seq<char>>, b: Seq<u8>) -> Result<Seq<u8>, Seq<char>> {
    match encoding {
        Some(e) => if e == "gzip"@ || e == "x-gzip"@ {
            decoded_or(gunzipped(b), "gzip decode: "@)
        } else if e == "deflate"@ {
            undeflated(b)
        } else if e == "br"@ {
            decoded_or(unbrotlied(b), "brotli decode: "@)
        } else {
            Ok(b)
        },
        None => Ok(b),
    }
}

/// The failure of a decoder under its heading.
pub open spec fn decode_view(r: Result<Vec<u8>, Error>) -> Result<Seq<u8>, Seq<char>> {
    match r {
        Ok(b) => Ok(b@),
        Err(Error::Tls(m)) => Err(m@),
        Err(_) => Err(seq![]),
    }
}

fn titled(r: Result<Vec<u8>, String>, heading: &str) -> (out: Result<Vec<u8>, Error>)
    ensures
        decode_view(out) == decoded_or(bytes_or_text(r), heading@),
        out matches Err(e) ==> e is Tls,
{
    match r {
        Ok(b) => Ok(b),
        Err(e) => {
            let mut m = heading.to_owned();
            m.append(e.as_str());
            Err(Error::Tls(m))
        },
    }
}

pub fn decode_gzip(input: &[u8]) -> (r: Result<Vec<u8>, Error>)
    ensures
        decode_view(r) == decoded_or(gunzipped(input@), "gzip decode: "@),
        r matches Err(e) ==> e is Tls,
{
    titled(gunzip(input), "gzip decode: ")
}

pub fn decode_deflate(input: &[u8]) -> (r: Result<Vec<u8>, Error>)
    ensures
        decode_view(r) == undeflated(input@),
        r matches Err(e) ==> e is Tls,
{
    match unzlib(input) {
        Ok(b) => Ok(b),
        Err(_) => titled(inflate(input), "deflate decode: "),
    }
}

pub fn decode_brotli(input: &[u8]) -> (r: Result<Vec<u8>, Error>)
    ensures
        decode_view(r) == decoded_or(unbrotlied(input@), "brotli decode: "@),
        r matches Err(e) ==> e is Tls,
{
    titled(unbrotli(input), "brotli decode: ")
}

/// Decodes a body by its encoding.
pub fn decode_body(encoding: &Option<String>, raw: Vec<u8>) -> (r: Result<Vec<u8>, Error>)
    ensures
        decode_view(r) == decoded(crate::dom::text_view(*encoding), raw@),
        r matches Err(e) ==> e is Tls,
{
    match encoding {
        Some(e) => {
            let e = e.as_str();
            if same(e, "gzip") || same(e, "x-gzip") {
                decode_gzip(raw.as_slice())
            } else if same(e, "deflate") {
                decode_deflate(raw.as_slice())
            } else if same(e, "br") {
                decode_brotli(raw.as_slice())
            } else {
                Ok(raw)
            }
        },
        None => Ok(raw),
    }
}

} // verus!
