//! From a verification key and a template to the text of a verifier.

use crate::builder::{verification_key_parameters, ParameterMap};
use crate::error::{CodegenError, ErrorKind};
use crate::key::{KeyModel, VerificationKey};
use vstd::prelude::*;
use vstd::utf8::encode_utf8;

verus! {

/// The built-in template: a Solidity library that holds the constants of a
/// key with six selector commitments, one selector commitment for the next
/// step, four permutation commitments and three non-residues.
pub const DEFAULT_TEMPLATE: &'static str = "// SPDX-License-Identifier: MIT
pragma solidity >=0.5.0 <0.9.0;

/// The verification key of one PLONK circuit over BN254.
library VerificationKeyData {
    uint256 internal constant DOMAIN_SIZE = {{domain_size}};
    uint256 internal constant NUM_INPUTS = {{num_inputs}};
    uint256 internal constant OMEGA = 0x{{omega}};

    function selectorCommitments() internal pure returns (uint256[2][6] memory points) {
        points[0] = [uint256(0x{{selector_commitment_0_0}}), 0x{{selector_commitment_0_1}}];
        points[1] = [uint256(0x{{selector_commitment_1_0}}), 0x{{selector_commitment_1_1}}];
        points[2] = [uint256(0x{{selector_commitment_2_0}}), 0x{{selector_commitment_2_1}}];
        points[3] = [uint256(0x{{selector_commitment_3_0}}), 0x{{selector_commitment_3_1}}];
        points[4] = [uint256(0x{{selector_commitment_4_0}}), 0x{{selector_commitment_4_1}}];
        points[5] = [uint256(0x{{selector_commitment_5_0}}), 0x{{selector_commitment_5_1}}];
    }

    function nextStepSelectorCommitments() internal pure returns (uint256[2][1] memory points) {
        points[0] = [
            uint256(0x{{next_step_selector_commitment_0_0}}),
            0x{{next_step_selector_commitment_0_1}}
        ];
    }

    function permutationCommitments() internal pure returns (uint256[2][4] memory points) {
        points[0] = [uint256(0x{{permutation_commitment_0_0}}), 0x{{permutation_commitment_0_1}}];
        points[1] = [uint256(0x{{permutation_commitment_1_0}}), 0x{{permutation_commitment_1_1}}];
        points[2] = [uint256(0x{{permutation_commitment_2_0}}), 0x{{permutation_commitment_2_1}}];
        points[3] = [uint256(0x{{permutation_commitment_3_0}}), 0x{{permutation_commitment_3_1}}];
    }

    function permutationNonResidues() internal pure returns (uint256[3] memory scalars) {
        scalars[0] = 0x{{permutation_non_residue_0}};
        scalars[1] = 0x{{permutation_non_residue_1}};
        scalars[2] = 0x{{permutation_non_residue_2}};
    }

    function g2x() internal pure returns (uint256[2] memory x, uint256[2] memory y) {
        x = [uint256(0x{{g2_x_x_c0}}), 0x{{g2_x_x_c1}}];
        y = [uint256(0x{{g2_x_y_c0}}), 0x{{g2_x_y_c1}}];
    }
}
";

/// Whether `byte` may stand between the opening braces of a tag and the
/// asterisk of a decorator: a blank, the tilde that trims blanks, or the
/// number sign that opens a block.
pub open spec fn before_asterisk(byte: u8) -> bool {
    byte == 0x20 || byte == 0x09 || byte == 0x0a || byte == 0x0d || byte == 0x7e || byte == 0x23
}

/// Whether two opening braces, and after them nothing but bytes that may
/// stand before an asterisk, end right before the place `at`.
pub open spec fn tag_opens_before(bytes: Seq<u8>, at: int) -> bool
    decreases at,
{
    2 <= at <= bytes.len() && ((bytes[at - 2] == 0x7b && bytes[at - 1] == 0x7b) || (
    before_asterisk(bytes[at - 1]) && tag_opens_before(bytes, at - 1)))
}

/// Whether a template with these bytes declares a decorator, or looks as if
/// it did: somewhere an asterisk is the first thing in a tag.
pub open spec fn declares_decorator(bytes: Seq<u8>) -> bool {
    exists|at: int| 0 <= at < bytes.len() && bytes[at] == 0x2a && tag_opens_before(bytes, at)
}

/// Whether the template `bytes` declares a decorator.
pub fn has_decorator(bytes: &[u8]) -> (found: bool)
    ensures
        found == declares_decorator(bytes@),
{
    let mut open = false;
    let mut brace = false;
    let mut at: usize = 0;
    while at < bytes.len()
        invariant
            at <= bytes.len(),
            open == tag_opens_before(bytes@, at as int),
            brace == (at >= 1 && bytes@[at - 1] == 0x7b),
            forall|k: int| 0 <= k < at ==> !(bytes@[k] == 0x2a && tag_opens_before(bytes@, k)),
        decreases bytes.len() - at,
    {
        let byte = bytes[at];
        if open && byte == 0x2a {
            return true;
        }
        let skipped = byte == 0x20 || byte == 0x09 || byte == 0x0a || byte == 0x0d || byte == 0x7e
            || byte == 0x23;
        open = (brace && byte == 0x7b) || (open && skipped);
        brace = byte == 0x7b;
        at += 1;
    }
    false
}

/// The number of tags that open a block, beyond which a template is not
/// handed to the engine. The engine follows blocks within blocks by calls
/// within calls, so this bounds how deep its calls go.
pub const MAX_BLOCKS: usize = 64;

/// Whether the place `at` lies in a tag, or looks as if it did: two opening
/// braces stand somewhere before it and no two closing braces after them.
pub open spec fn in_tag(bytes: Seq<u8>, at: int) -> bool
    decreases at,
{
    2 <= at <= bytes.len() && ((bytes[at - 2] == 0x7b && bytes[at - 1] == 0x7b) || (!(bytes[at
        - 2] == 0x7d && bytes[at - 1] == 0x7d) && in_tag(bytes, at - 1)))
}

/// Whether `byte` is a quote, an opening parenthesis or an opening bracket.
/// In a tag these open a text, which may hold closing braces, an
/// expression within the expression, or a list; the last two can stand
/// within one another to any depth.
pub open spec fn is_delimiter(byte: u8) -> bool {
    byte == 0x22 || byte == 0x27 || byte == 0x28 || byte == 0x5b
}

/// Whether a quote, an opening parenthesis or an opening bracket stands in
/// a tag of a template with these bytes.
pub open spec fn delimiter_in_tag(bytes: Seq<u8>) -> bool {
    exists|at: int| 0 <= at < bytes.len() && is_delimiter(bytes[at]) && in_tag(bytes, at)
}

/// Whether a tag that opens a block begins at `at`, or seems to: the first
/// thing in a tag is a number sign, a caret, or the letters `else`, with
/// which a block goes on in a block of its own.
pub open spec fn opens_block(bytes: Seq<u8>, at: int) -> bool {
    &&& 0 <= at < bytes.len()
    &&& tag_opens_before(bytes, at)
    &&& bytes[at] == 0x23 || bytes[at] == 0x5e || (bytes.len() - at > 3 && bytes[at] == 0x65
        && bytes[at + 1] == 0x6c && bytes[at + 2] == 0x73 && bytes[at + 3] == 0x65)
}

/// The number of places before `at` at which a tag opens a block.
pub open spec fn blocks_before(bytes: Seq<u8>, at: int) -> nat
    decreases at,
{
    if at <= 0 {
        0
    } else if opens_block(bytes, at - 1) {
        blocks_before(bytes, at - 1) + 1
    } else {
        blocks_before(bytes, at - 1)
    }
}

/// Whether a template with these bytes is handed to the engine: it declares
/// no decorator, no quote, parenthesis or bracket stands in a tag, and at
/// most `MAX_BLOCKS` tags open a block. The engine's calls then go no
/// deeper than that number, whatever the template.
pub open spec fn supported_template(bytes: Seq<u8>) -> bool {
    &&& !declares_decorator(bytes)
    &&& !delimiter_in_tag(bytes)
    &&& blocks_before(bytes, bytes.len() as int) <= MAX_BLOCKS
}

/// Whether a quote, a parenthesis or a bracket stands in a tag of the
/// template `bytes`.
fn has_delimiter_in_tag(bytes: &[u8]) -> (found: bool)
    ensures
        found == delimiter_in_tag(bytes@),
{
    let mut inside = false;
    let mut at: usize = 0;
    while at < bytes.len()
        invariant
            at <= bytes.len(),
            inside == in_tag(bytes@, at as int),
            forall|k: int| 0 <= k < at ==> !(is_delimiter(bytes@[k]) && in_tag(bytes@, k)),
        decreases bytes.len() - at,
    {
        let byte = bytes[at];
        if inside && (byte == 0x22 || byte == 0x27 || byte == 0x28 || byte == 0x5b) {
            return true;
        }
        if at >= 1 && bytes[at - 1] == 0x7b && byte == 0x7b {
            inside = true;
        } else if at >= 1 && bytes[at - 1] == 0x7d && byte == 0x7d {
            inside = false;
        }
        at += 1;
    }
    false
}

/// The number of tags of the template `bytes` that open a block.
fn count_blocks(bytes: &[u8]) -> (count: usize)
    ensures
        count == blocks_before(bytes@, bytes@.len() as int),
{
    let mut open = false;
    let mut brace = false;
    let mut count: usize = 0;
    let mut at: usize = 0;
    while at < bytes.len()
        invariant
            at <= bytes.len(),
            open == tag_opens_before(bytes@, at as int),
            brace == (at >= 1 && bytes@[at - 1] == 0x7b),
            count == blocks_before(bytes@, at as int),
            count <= at,
        decreases bytes.len() - at,
    {
        let byte = bytes[at];
        let goes_on = byte == 0x65 && bytes.len() - at > 3 && bytes[at + 1] == 0x6c && bytes[at
            + 2] == 0x73 && bytes[at + 3] == 0x65;
        if open && (byte == 0x23 || byte == 0x5e || goes_on) {
            count += 1;
        }
        let skipped = byte == 0x20 || byte == 0x09 || byte == 0x0a || byte == 0x0d || byte == 0x7e
            || byte == 0x23;
        open = (brace && byte == 0x7b) || (open && skipped);
        brace = byte == 0x7b;
        at += 1;
    }
    count
}

/// Whether the template `bytes` is handed to the engine.
pub fn is_supported(bytes: &[u8]) -> (supported: bool)
    ensures
        supported == supported_template(bytes@),
{
    !has_decorator(bytes) && !has_delimiter_in_tag(bytes) && count_blocks(bytes) <= MAX_BLOCKS
}

/// The text that handlebars, in strict mode and with nothing registered,
/// makes of `template` when the data are a JSON object with the string
/// entries `params`, where it makes one. When it makes one is not said
/// here.
pub uninterp spec fn expansion(template: Seq<char>, params: Map<Seq<char>, Seq<char>>) -> Seq<
    char,
>;

/// Makes a registry of handlebars with `Handlebars::new`, sets it to strict
/// mode with `set_strict_mode` and calls its `render_template` on
/// `template` with the JSON object of `params` as data. Whether a text
/// comes back is left open: besides the template and the parameters that
/// depends on how much of the thread's stack is left and on a call budget
/// that is a setting of the whole process, at either of which the engine's
/// parser gives up with an error. A text that does come back is taken to
/// depend on the template and the entries alone, in a registry that is
/// fresh and an object that is walked in the order of its keys, and is named
/// above. Only supported templates are admitted. One that declares a
/// decorator could define partials that include one another, on which the
/// engine recurses until the stack is used up; in one with more blocks,
/// or with expressions within expressions, its calls could go deeper than
/// any bound.
#[verifier::external_body]
fn expand_template(template: &str, params: &ParameterMap) -> (res: Result<
    String,
    handlebars::RenderError,
>)
    requires
        supported_template(encode_utf8(template@)),
    ensures
        res matches Ok(text) ==> text@ == expansion(template@, params@),
{
    let mut registry = handlebars::Handlebars::new();
    registry.set_strict_mode(true);
    registry.render_template(template, &params.entries)
}

/// Hands the outcome of filling a template on: the bytes of the text are
/// appended to `writer`; after a failure the failure is reported and
/// `writer` is left as it was.
pub fn write_rendered(
    outcome: Result<String, handlebars::RenderError>,
    writer: &mut Vec<u8>,
) -> (res: Result<(), CodegenError>)
    ensures
        match outcome {
            Ok(text) => res is Ok && final(writer)@ == old(writer)@ + encode_utf8(text@),
            Err(e) => res == Err::<(), CodegenError>(CodegenError::TemplateError(e))
                && final(writer)@ == old(writer)@,
        },
{
    match outcome {
        Ok(text) => {
            let ghost before = writer@;
            writer.extend_from_slice(text.as_str().as_bytes());
            proof {
                assert(writer@ =~= before + encode_utf8(text@));
            }
            Ok(())
        },
        Err(e) => Err(CodegenError::TemplateError(e)),
    }
}

/// What rendering `key` with `template` into `after` leaves of a writer
/// that held `before`, and with which result `res`:
/// - where there is no verifier for the key, the reason for that, and the
///   writer as it was;
/// - else, where the template is not a supported one, `UnsupportedTemplate`,
///   and the writer as it was;
/// - else, where the template engine makes a text of the template and the
///   key's parameters, all of that text in UTF-8 behind what the writer
///   held; and where it makes none, a `TemplateError` and the writer as it
///   was.
pub open spec fn rendered(
    key: KeyModel,
    template: Seq<char>,
    before: Seq<u8>,
    after: Seq<u8>,
    res: Result<(), CodegenError>,
) -> bool {
    match key.rejection() {
        Some(reason) => res == Err::<(), CodegenError>(reason) && after == before,
        None => if !supported_template(encode_utf8(template)) {
            res == Err::<(), CodegenError>(CodegenError::UnsupportedTemplate) && after == before
        } else {
            match res {
                Ok(_) => after == before + encode_utf8(
                    expansion(template, key.parameters(key.domain())),
                ),
                Err(e) => e.kind() == ErrorKind::TemplateError && after == before,
            }
        },
    }
}

/// Fills `template` with the parameters of `vk` and appends the text to
/// `writer`. Either the whole text is written, or nothing: a key for which
/// there is no verifier is refused with its reason, a template that is not
/// a supported one as unsupported, and a template that the engine does not
/// fill from the key's parameters with a template error.
pub fn render_verification_key_with_writer(
    vk: &VerificationKey,
    template: &str,
    writer: &mut Vec<u8>,
) -> (res: Result<(), CodegenError>)
    ensures
        rendered(vk@, template@, old(writer)@, final(writer)@, res),
{
    let params = match verification_key_parameters(vk) {
        Ok(params) => params,
        Err(e) => {
            return Err(e);
        },
    };
    if !is_supported(template.as_bytes()) {
        return Err(CodegenError::UnsupportedTemplate);
    }
    write_rendered(expand_template(template, &params), writer)
}

/// Fills the built-in template with the parameters of `vk` and appends the
/// text to `writer`, as `render_verification_key_with_writer` does with a
/// template of the caller's.
pub fn render_verification_key_from_default_template_with_writer(
    vk: &VerificationKey,
    writer: &mut Vec<u8>,
) -> (res: Result<(), CodegenError>)
    ensures
        rendered(vk@, DEFAULT_TEMPLATE@, old(writer)@, final(writer)@, res),
{
    render_verification_key_with_writer(vk, DEFAULT_TEMPLATE, writer)
}

} // verus!
