use vstd::prelude::*;

use vstd::bytes::{
    spec_u128_to_le_bytes, spec_u32_to_le_bytes, spec_u64_to_le_bytes, u128_to_le_bytes,
    u32_to_le_bytes, u64_to_le_bytes,
};
use vstd::utf8::encode_utf8;

use crate::entities::board::Board;
use crate::entities::entry::Entry;
use crate::entities::ident::Uuid;

verus! {

// The value format of the embedded store: records are serialized to byte
// blobs with little-endian fixed-width numbers, one tag byte per optional
// field, and length-prefixed UTF-8 text. Labels are not part of it: no
// backend persists them.
pub open spec fn enc_bool(b: bool) -> Seq<u8> {
    seq![if b { 1u8 } else { 0u8 }]
}

pub open spec fn enc_u128(x: u128) -> Seq<u8> {
    spec_u128_to_le_bytes(x)
}

pub open spec fn enc_i64(x: i64) -> Seq<u8> {
    spec_u64_to_le_bytes(x as u64)
}

pub open spec fn enc_i32(x: i32) -> Seq<u8> {
    spec_u32_to_le_bytes(x as u32)
}

pub open spec fn enc_str(s: Seq<char>) -> Seq<u8> {
    spec_u64_to_le_bytes(encode_utf8(s).len() as u64) + encode_utf8(s)
}

pub open spec fn view_opt_str(o: Option<String>) -> Option<Seq<char>> {
    match o {
        None => None,
        Some(s) => Some(s@),
    }
}

pub open spec fn enc_opt_str(o: Option<Seq<char>>) -> Seq<u8> {
    match o {
        None => seq![0u8],
        Some(s) => seq![1u8] + enc_str(s),
    }
}

pub open spec fn enc_opt_uuid(o: Option<Uuid>) -> Seq<u8> {
    match o {
        None => seq![0u8],
        Some(u) => seq![1u8] + enc_u128(u.value),
    }
}

pub open spec fn enc_opt_i64(o: Option<i64>) -> Seq<u8> {
    match o {
        None => seq![0u8],
        Some(t) => seq![1u8] + enc_i64(t),
    }
}

/// A board record as the embedded store lays it out.
pub open spec fn spec_encode_board(b: Board) -> Seq<u8> {
    enc_opt_uuid(b.uuid) + enc_str(b.title@) + enc_opt_str(view_opt_str(b.data)) + enc_opt_str(
        view_opt_str(b.color),
    ) + enc_opt_i64(b.created_on) + enc_opt_i64(b.updated_on) + enc_opt_uuid(b.owner)
}

/// An entry record as the embedded store lays it out.
pub open spec fn spec_encode_entry(e: Entry) -> Seq<u8> {
    enc_i32(e.id) + enc_opt_uuid(e.uuid) + enc_str(e.title@) + enc_opt_str(
        view_opt_str(e.content),
    ) + enc_opt_str(view_opt_str(e.data)) + enc_opt_str(view_opt_str(e.color)) + enc_bool(
        e.archived,
    ) + enc_opt_i64(e.created_on) + enc_opt_i64(e.updated_on) + enc_opt_uuid(e.owner)
        + enc_opt_uuid(e.board)
}

fn push_byte(out: &mut Vec<u8>, b: u8)
    ensures
        final(out)@ == old(out)@ + seq![b],
{
    out.push(b);
    proof {
        assert(out@ =~= old(out)@ + seq![b]);
    }
}

fn append_vec(out: &mut Vec<u8>, mut b: Vec<u8>)
    ensures
        final(out)@ == old(out)@ + b@,
{
    out.append(&mut b);
}

fn append_slice(out: &mut Vec<u8>, b: &[u8])
    ensures
        final(out)@ == old(out)@ + b@,
{
    let mut i: usize = 0;
    #[verifier::loop_isolation(false)]
    while i < b.len()
        invariant
            i <= b@.len(),
            out@ == old(out)@ + b@.subrange(0, i as int),
        decreases b@.len() - i,
    {
        out.push(b[i]);
        proof {
            assert(out@ =~= old(out)@ + b@.subrange(0, i as int + 1));
        }
        i = i + 1;
    }
    proof {
        assert(b@.subrange(0, b@.len() as int) =~= b@);
    }
}

fn push_bool(out: &mut Vec<u8>, b: bool)
    ensures
        final(out)@ == old(out)@ + enc_bool(b),
{
    if b {
        push_byte(out, 1);
    } else {
        push_byte(out, 0);
    }
}

fn push_u128(out: &mut Vec<u8>, x: u128)
    ensures
        final(out)@ == old(out)@ + enc_u128(x),
{
    append_vec(out, u128_to_le_bytes(x));
}

fn push_i64(out: &mut Vec<u8>, x: i64)
    ensures
        final(out)@ == old(out)@ + enc_i64(x),
{
    append_vec(out, u64_to_le_bytes(#[verifier::truncate] (x as u64)));
}

fn push_i32(out: &mut Vec<u8>, x: i32)
    ensures
        final(out)@ == old(out)@ + enc_i32(x),
{
    append_vec(out, u32_to_le_bytes(#[verifier::truncate] (x as u32)));
}

fn push_str(out: &mut Vec<u8>, s: &str)
    ensures
        final(out)@ == old(out)@ + enc_str(s@),
{
    let b = s.as_bytes();
    append_vec(out, u64_to_le_bytes(b.len() as u64));
    append_slice(out, b);
    proof {
        assert(out@ =~= old(out)@ + enc_str(s@));
    }
}

fn push_opt_str(out: &mut Vec<u8>, o: &Option<String>)
    ensures
        final(out)@ == old(out)@ + enc_opt_str(view_opt_str(*o)),
{
    match o {
        None => push_byte(out, 0),
        Some(s) => {
            push_byte(out, 1);
            push_str(out, s.as_str());
            proof {
                assert(out@ =~= old(out)@ + enc_opt_str(view_opt_str(*o)));
            }
        },
    }
}

fn push_opt_uuid(out: &mut Vec<u8>, o: &Option<Uuid>)
    ensures
        final(out)@ == old(out)@ + enc_opt_uuid(*o),
{
    match o {
        None => push_byte(out, 0),
        Some(u) => {
            push_byte(out, 1);
            push_u128(out, u.value);
            proof {
                assert(out@ =~= old(out)@ + enc_opt_uuid(*o));
            }
        },
    }
}

fn push_opt_i64(out: &mut Vec<u8>, o: &Option<i64>)
    ensures
        final(out)@ == old(out)@ + enc_opt_i64(*o),
{
    match o {
        None => push_byte(out, 0),
        Some(t) => {
            push_byte(out, 1);
            push_i64(out, *t);
            proof {
                assert(out@ =~= old(out)@ + enc_opt_i64(*o));
            }
        },
    }
}

/// Serializes a board for the embedded store.
pub fn encode_board(b: &Board) -> (r: Vec<u8>)
    ensures
        r@ == spec_encode_board(*b),
{
    let mut out: Vec<u8> = Vec::new();
    push_opt_uuid(&mut out, &b.uuid);
    push_str(&mut out, b.title.as_str());
    push_opt_str(&mut out, &b.data);
    push_opt_str(&mut out, &b.color);
    push_opt_i64(&mut out, &b.created_on);
    push_opt_i64(&mut out, &b.updated_on);
    push_opt_uuid(&mut out, &b.owner);
    proof {
        assert(out@ =~= spec_encode_board(*b));
    }
    out
}

/// Serializes an entry for the embedded store.
pub fn encode_entry(e: &Entry) -> (r: Vec<u8>)
    ensures
        r@ == spec_encode_entry(*e),
{
    let mut out: Vec<u8> = Vec::new();
    push_i32(&mut out, e.id);
    push_opt_uuid(&mut out, &e.uuid);
    push_str(&mut out, e.title.as_str());
    push_opt_str(&mut out, &e.content);
    push_opt_str(&mut out, &e.data);
    push_opt_str(&mut out, &e.color);
    push_bool(&mut out, e.archived);
    push_opt_i64(&mut out, &e.created_on);
    push_opt_i64(&mut out, &e.updated_on);
    push_opt_uuid(&mut out, &e.owner);
    push_opt_uuid(&mut out, &e.board);
    proof {
        assert(out@ =~= spec_encode_entry(*e));
    }
    out
}

/// The key under which a record sits in its tree: its uuid, as bytes.
pub fn encode_key(u: Uuid) -> (r: Vec<u8>)
    ensures
        r@ == enc_u128(u.value),
{
    u128_to_le_bytes(u.value)
}

} // verus!
