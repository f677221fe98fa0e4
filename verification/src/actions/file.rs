//! The content-addressed idempotency gate for files.
//!
//! A file resource is rewritten only when the checksum of the proposed
//! bytes differs from the checksum of the bytes currently at the
//! destination (or when the destination does not exist). Ownership and
//! mode are applied exactly when they are declared and exactly when a
//! write occurred.

use vstd::prelude::*;
use crate::config::vars::VarMap;
use crate::render::render;
use crate::result::ApplyError;

verus! {

/// The CRC-32 (IEEE) checksum of a byte sequence. Computed by an outside
/// crate; the library relies only on it being a function of the bytes.
pub uninterp spec fn crc32_of(data: Seq<u8>) -> u32;

/// Relies on crc32fast::hash: the CRC-32 (IEEE) checksum of `buf`,
/// a function of the bytes alone.
#[verifier::external_body]
pub(crate) fn checksum(buf: &[u8]) -> (r: u32)
    ensures
        r == crc32_of(buf@),
{
    crc32fast::hash(buf)
}

/// The bytes currently at a destination, if it exists.
pub open spec fn opt_bytes(current: &Option<Vec<u8>>) -> Option<Seq<u8>> {
    match current {
        Option::Some(c) => Option::Some(c@),
        Option::None => Option::None,
    }
}

/// The content-addressed gate: a write is needed when the destination is
/// missing or its checksum differs from the checksum of the proposed bytes.
pub open spec fn content_differs(current: Option<Seq<u8>>, proposed: Seq<u8>) -> bool {
    match current {
        Option::Some(c) => crc32_of(c) != crc32_of(proposed),
        Option::None => true,
    }
}

/// Decide whether a file resource must be (re)written: `current` is what
/// the destination holds now (`None` when it does not exist), `proposed`
/// is what the resource declares. The caller performs the write exactly
/// when this returns true.
pub fn materialize(current: &Option<Vec<u8>>, proposed: &Vec<u8>) -> (changed: bool)
    ensures
        changed == content_differs(opt_bytes(current), proposed@),
{
    match current {
        Option::Some(c) => {
            let left = checksum(c.as_slice());
            let right = checksum(proposed.as_slice());
            left != right
        },
        Option::None => true,
    }
}

/// Identical byte sequences are always reported unchanged: the checksum is
/// a function of the bytes, so equal inputs can never force a rewrite.
pub proof fn lemma_materialize_skips_identical(current: Seq<u8>, proposed: Seq<u8>)
    requires
        current == proposed,
    ensures
        !content_differs(Some(current), proposed),
{
}

/// Differing checksums force a rewrite; together with the write the caller
/// then performs, the destination afterwards holds exactly the proposed
/// bytes. (Distinct byte sequences that collide on their checksum are
/// reported unchanged: this check decides a rewrite, it is no equality test.)
pub proof fn lemma_materialize_rewrites_on_difference(current: Seq<u8>, proposed: Seq<u8>)
    requires
        crc32_of(current) != crc32_of(proposed),
    ensures
        content_differs(Some(current), proposed),
{
}

/// Ownership and mode are applied exactly when declared and exactly when a
/// write occurred: a no-op write never touches either, even if they
/// currently differ from the declared values.
pub fn post_write_steps(changed: bool, owner: Option<(u32, u32)>, mode: Option<u32>) -> (r: (
    Option<(u32, u32)>,
    Option<u32>,
))
    ensures
        r.0 == (if changed {
            owner
        } else {
            Option::<(u32, u32)>::None
        }),
        r.1 == (if changed {
            mode
        } else {
            Option::<u32>::None
        }),
{
    if changed {
        (owner, mode)
    } else {
        (None, None)
    }
}

/// Render a local template against a file resource's own context. The
/// rendered text is the resource's proposed content, to be gated and
/// written by the caller; a renderer failure is reported against the
/// template's name.
pub fn render_file_template(template_name: &str, source: &str, ctx: &VarMap) -> (r: Result<
    String,
    ApplyError,
>)
    ensures
        r matches Err(e) ==> e matches ApplyError::TeraTemplateError((n, _)) && n@
            == template_name@,
{
    match render(source, ctx) {
        Ok(rendered) => Ok(rendered),
        Err(e) => Err(ApplyError::from_template_err(String::from_str(template_name), e)),
    }
}

} // verus!
