//! Checks of the machine the assistant runs on and of the installed model.

use vstd::prelude::*;
use vstd::utf8::encode_utf8;
use crate::stream::{from_utf8_lossy, utf8_lossy};
use crate::text::{chars_of, concat_vec, contains_bytes, contains_in, parse_unsigned, parse_unsigned_vec, string_of};

verus! {

/// The first build number of Windows 11.
pub const WINDOWS_11_FIRST_BUILD: u32 = 22000;

/// Whether a Windows `CurrentBuild` registry value names a Windows 11 build: a
/// number (as `u32` parses it) of at least 22000.
pub open spec fn windows_11_build(build: Seq<char>) -> bool {
    match parse_unsigned(build, 0xFFFF_FFFF) {
        Some(n) => n >= 22000,
        None => false,
    }
}

/// Decides from the `CurrentBuild` value whether this is Windows 11.
pub fn is_windows_11_build(build: &str) -> (r: bool)
    ensures
        r == windows_11_build(build@),
{
    match parse_unsigned_vec(&chars_of(build), 0xFFFF_FFFF) {
        Some(n) => n >= WINDOWS_11_FIRST_BUILD,
        None => false,
    }
}

/// Whether the output of `ollama list` names the model `phi4`.
pub open spec fn lists_phi4(stdout: Seq<u8>) -> bool {
    contains_bytes(encode_utf8(utf8_lossy(stdout)), encode_utf8("phi4"@))
}

/// Reads the output of `ollama list` for the model `phi4`.
pub fn phi4_listed(stdout: &[u8]) -> (r: bool)
    ensures
        r == lists_phi4(stdout@),
{
    let text = from_utf8_lossy(stdout);
    contains_in(text.as_str().as_bytes(), "phi4".as_bytes())
}

/// The PowerShell command that unpacks archive `zip` into directory `dest`.
pub open spec fn expand_archive(zip: Seq<char>, dest: Seq<char>) -> Seq<char> {
    "Expand-Archive -Path '"@ + zip + "' -DestinationPath '"@ + dest + "' -Force"@
}

/// Builds the PowerShell command that unpacks an archive.
pub fn expand_archive_command(zip: &str, dest: &str) -> (r: String)
    ensures
        r@ == expand_archive(zip@, dest@),
{
    let t = concat_vec(&chars_of("Expand-Archive -Path '"), &chars_of(zip));
    let t = concat_vec(&t, &chars_of("' -DestinationPath '"));
    let t = concat_vec(&t, &chars_of(dest));
    let t = concat_vec(&t, &chars_of("' -Force"));
    string_of(&t)
}

} // verus!
